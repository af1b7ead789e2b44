//! The wallpaper library of the settings window: the wallpapers the user
//! applied or that a workshop scan found, each source at most once.

use vstd::prelude::*;
use crate::daemon::{has_prefix, str_starts_with};
use crate::text::{contains_chars, decimal, has_infix, push_decimal, push_str, str_chars, to_lowercase, unicode_lowercase};
use crate::workshop::{spec_join, WorkshopItem};

verus! {

/// Where a library wallpaper comes from.
#[derive(Debug, Clone, Copy, PartialEq, Eq, Structural)]
pub enum WallpaperSource {
    LocalFile,
    Directory,
    Url,
    Workshop { workshop_id: u64 },
}

/// A wallpaper of the library.
#[derive(Debug)]
pub struct WallpaperItem {
    /// Identifier unique in the library.
    pub id: String,
    /// Display name.
    pub name: String,
    /// Path or URL of the source.
    pub source_path: String,
    pub source_type: WallpaperSource,
    pub is_valid: bool,
}

/// A library item as plain values: id, name, source path, source type,
/// validity.
pub type ItemView = (Seq<char>, Seq<char>, Seq<char>, WallpaperSource, bool);

pub open spec fn item_view(w: WallpaperItem) -> ItemView {
    (w.id@, w.name@, w.source_path@, w.source_type, w.is_valid)
}

/// The library as plain values.
pub open spec fn library_view(s: Seq<WallpaperItem>) -> Seq<ItemView> {
    s.map_values(|w: WallpaperItem| item_view(w))
}

/// Whether an item of `lib` has the source `path`.
pub open spec fn holds_source(lib: Seq<ItemView>, path: Seq<char>) -> bool {
    exists|i: int| 0 <= i < lib.len() && (#[trigger] lib[i]).2 == path
}

/// No two items of `lib` have the same source.
pub open spec fn sources_unique(lib: Seq<ItemView>) -> bool {
    forall|i: int, j: int| 0 <= i < j < lib.len() ==> (#[trigger] lib[i]).2 != (#[trigger] lib[j]).2
}

/// Name for what `Path::file_name` returns on a path: its last component,
/// if it has one.
pub uninterp spec fn path_file_name(path: Seq<char>) -> Option<Seq<char>>;

/// Calls `std::path::Path::file_name` on `path` and converts the component
/// to a `String` (lossily, as the component of a `&str` path is valid
/// UTF-8). The result is named `path_file_name`.
#[verifier::external_body]
fn file_name(path: &str) -> (r: Option<String>)
    ensures
        r matches Some(n) ==> path_file_name(path@) == Some(n@),
        r is None ==> path_file_name(path@) is None,
{
    std::path::Path::new(path).file_name().map(|n| n.to_string_lossy().to_string())
}

/// The kind of a source the user gave: a URL when it starts with "http",
/// else a directory or a file, as `is_dir` says.
pub open spec fn spec_source_kind(path: Seq<char>, is_dir: bool) -> WallpaperSource {
    if has_prefix(path, "http"@) {
        WallpaperSource::Url
    } else if is_dir {
        WallpaperSource::Directory
    } else {
        WallpaperSource::LocalFile
    }
}

/// The item that adding the source `path` appends to a library of `n`
/// items: id "local-<n>", named by the path's last component (or the path
/// itself when it has none).
pub open spec fn spec_local_item(path: Seq<char>, is_dir: bool, n: nat) -> ItemView {
    (
        "local-"@ + decimal(n),
        match path_file_name(path) {
            Some(name) => name,
            None => path,
        },
        path,
        spec_source_kind(path, is_dir),
        true,
    )
}

/// Whether an item of `lib` has the source `path`.
fn find_source(lib: &Vec<WallpaperItem>, path: &str) -> (b: bool)
    ensures
        b == holds_source(library_view(lib@), path@),
{
    let mut i: usize = 0;
    while i < lib.len()
        invariant
            i <= lib@.len(),
            forall|k: int| 0 <= k < i ==> (#[trigger] library_view(lib@)[k]).2 != path@,
        decreases lib@.len() - i,
    {
        if crate::text::str_equals(lib[i].source_path.as_str(), path) {
            assert(library_view(lib@)[i as int].2 == path@);
            return true;
        }
        i = i + 1;
    }
    false
}

/// Add the source `path` to the library unless an item has it already.
/// `is_dir` tells whether the path is a directory.
pub fn add_to_library(wallpapers: &mut Vec<WallpaperItem>, path: &str, is_dir: bool)
    ensures
        holds_source(library_view(old(wallpapers)@), path@) ==> final(wallpapers)@ == old(wallpapers)@,
        !holds_source(library_view(old(wallpapers)@), path@) ==> library_view(final(wallpapers)@)
            == library_view(old(wallpapers)@).push(
            spec_local_item(path@, is_dir, old(wallpapers)@.len()),
        ),
        sources_unique(library_view(old(wallpapers)@)) ==> sources_unique(
            library_view(final(wallpapers)@),
        ),
{
    if find_source(wallpapers, path) {
        return;
    }
    let source_type = if str_starts_with(path, "http") {
        WallpaperSource::Url
    } else if is_dir {
        WallpaperSource::Directory
    } else {
        WallpaperSource::LocalFile
    };
    let name = match file_name(path) {
        Some(n) => n,
        None => String::from_str(path),
    };
    let mut id = String::new();
    push_str(&mut id, "local-");
    push_decimal(&mut id, wallpapers.len() as u128);
    let ghost before = wallpapers@;
    wallpapers.push(WallpaperItem { id, name, source_path: String::from_str(path), source_type, is_valid: true });
    proof {
        assert(library_view(wallpapers@) =~= library_view(before).push(
            spec_local_item(path@, is_dir, before.len()),
        ));
    }
}

/// The item a workshop scan adds for a valid workshop item: id
/// "workshop-<id>", named by the project's title, with the project's
/// video as source.
pub open spec fn spec_workshop_item(it: WorkshopItem) -> ItemView {
    (
        "workshop-"@ + decimal(it.id as nat),
        it.project->0.title@,
        spec_join(it.path@, it.project->0.file@),
        WallpaperSource::Workshop { workshop_id: it.id },
        true,
    )
}

/// The library after merging the scanned workshop items, in order: each
/// valid item whose video is not yet a source of the library is appended.
pub open spec fn spec_merge_workshop(lib: Seq<ItemView>, items: Seq<WorkshopItem>) -> Seq<ItemView>
    decreases items.len(),
{
    if items.len() == 0 {
        lib
    } else {
        let before = spec_merge_workshop(lib, items.drop_last());
        let it = items.last();
        if it.project is Some && !holds_source(before, spec_join(it.path@, it.project->0.file@)) {
            before.push(spec_workshop_item(it))
        } else {
            before
        }
    }
}

/// Number of workshop wallpapers in `lib`.
pub open spec fn workshop_count(lib: Seq<ItemView>) -> nat
    decreases lib.len(),
{
    if lib.len() == 0 {
        0
    } else {
        workshop_count(lib.drop_last()) + if lib.last().3 is Workshop {
            1nat
        } else {
            0nat
        }
    }
}

/// Append the valid scanned workshop items whose video is not yet in the
/// library, and return the number of workshop wallpapers the library then
/// holds.
pub fn add_workshop_items(wallpapers: &mut Vec<WallpaperItem>, items: &[WorkshopItem]) -> (count: usize)
    ensures
        library_view(final(wallpapers)@) == spec_merge_workshop(library_view(old(wallpapers)@), items@),
        count == workshop_count(library_view(final(wallpapers)@)),
        sources_unique(library_view(old(wallpapers)@)) ==> sources_unique(
            library_view(final(wallpapers)@),
        ),
{
    let ghost lib0 = library_view(wallpapers@);
    let mut i: usize = 0;
    while i < items.len()
        invariant
            i <= items@.len(),
            library_view(wallpapers@) == spec_merge_workshop(lib0, items@.take(i as int)),
            sources_unique(lib0) ==> sources_unique(library_view(wallpapers@)),
        decreases items@.len() - i,
    {
        assert(items@.take(i + 1).drop_last() =~= items@.take(i as int));
        let item = &items[i];
        if item.is_valid() {
            match item.video_path() {
                Some(video) => {
                    if !find_source(wallpapers, video.as_str()) {
                        let mut id = String::new();
                        push_str(&mut id, "workshop-");
                        push_decimal(&mut id, item.id as u128);
                        let ghost before = wallpapers@;
                        wallpapers.push(
                            WallpaperItem {
                                id,
                                name: item.title(),
                                source_path: video,
                                source_type: WallpaperSource::Workshop { workshop_id: item.id },
                                is_valid: true,
                            },
                        );
                        proof {
                            assert(library_view(wallpapers@) =~= library_view(before).push(
                                spec_workshop_item(items@[i as int]),
                            ));
                        }
                    }
                },
                None => {},
            }
        }
        i = i + 1;
    }
    assert(items@.take(items@.len() as int) =~= items@);
    let mut count: usize = 0;
    let mut k: usize = 0;
    while k < wallpapers.len()
        invariant
            k <= wallpapers@.len(),
            count == workshop_count(library_view(wallpapers@).take(k as int)),
            count <= k,
        decreases wallpapers@.len() - k,
    {
        assert(library_view(wallpapers@).take(k + 1).drop_last() =~= library_view(wallpapers@).take(k as int));
        match wallpapers[k].source_type {
            WallpaperSource::Workshop { .. } => {
                count = count + 1;
            },
            _ => {},
        }
        k = k + 1;
    }
    assert(library_view(wallpapers@).take(wallpapers@.len() as int) =~= library_view(wallpapers@));
    count
}


/// An item is shown for the already lowercased search text `search`: the
/// text is empty, or it occurs in the lowercased name or source path.
pub open spec fn shown_for(w: ItemView, search: Seq<char>) -> bool {
    ||| search.len() == 0
    ||| has_infix(unicode_lowercase(w.1), search)
    ||| has_infix(unicode_lowercase(w.2), search)
}

/// The positions of the items of `lib` shown for the lowercased search
/// text `search`, in order.
pub open spec fn spec_search(lib: Seq<ItemView>, search: Seq<char>) -> Seq<usize>
    decreases lib.len(),
{
    if lib.len() == 0 {
        Seq::empty()
    } else {
        let rest = spec_search(lib.drop_last(), search);
        if shown_for(lib.last(), search) {
            rest.push((lib.len() - 1) as usize)
        } else {
            rest
        }
    }
}

/// The positions of the library items a search shows, ignoring case: all
/// of them for an empty search, else those whose name or source path
/// holds the search text.
pub fn search_library(wallpapers: &Vec<WallpaperItem>, search: &str) -> (r: Vec<usize>)
    ensures
        r@ == spec_search(library_view(wallpapers@), unicode_lowercase(search@)),
{
    let needle = to_lowercase(search);
    let empty = str_chars(needle.as_str()).len() == 0;
    let mut r: Vec<usize> = Vec::new();
    let mut i: usize = 0;
    while i < wallpapers.len()
        invariant
            i <= wallpapers@.len(),
            needle@ == unicode_lowercase(search@),
            empty == (needle@.len() == 0),
            r@ == spec_search(library_view(wallpapers@).take(i as int), needle@),
        decreases wallpapers@.len() - i,
    {
        let ghost lib = library_view(wallpapers@);
        assert(lib.take(i + 1).drop_last() =~= lib.take(i as int));
        assert(lib.take(i + 1).last() == item_view(wallpapers@[i as int]));
        let shown = if empty {
            true
        } else {
            let name = str_chars(to_lowercase(wallpapers[i].name.as_str()).as_str());
            if contains_chars(&name, needle.as_str()) {
                true
            } else {
                let path = str_chars(to_lowercase(wallpapers[i].source_path.as_str()).as_str());
                contains_chars(&path, needle.as_str())
            }
        };
        if shown {
            r.push(i);
        }
        i = i + 1;
    }
    assert(library_view(wallpapers@).take(wallpapers@.len() as int) =~= library_view(wallpapers@));
    r
}

} // verus!
