//! Locating Wallpaper Engine projects: joining paths, checking what the
//! file system reported about them, reading workshop item ids, and keeping
//! the items that hold a video project.

use vstd::prelude::*;
use crate::text::{decimal, push_decimal, push_str, str_chars, str_equals, to_lowercase, unicode_lowercase};
use crate::we_project::WeProject;

verus! {

/// Why a project cannot be used.
#[derive(Debug, PartialEq, Eq)]
pub enum WeError {
    /// The directory holds no `project.json`.
    NotAProject { path: String },
    /// The project is not a video project.
    UnsupportedType { project_type: String },
    /// The video file does not exist.
    VideoNotFound { path: String },
    /// The video path is not a regular file.
    NotAFile { path: String },
}

/// `dir` joined with `rel` as `PathBuf::push` does on Unix: an absolute
/// `rel` replaces `dir`; otherwise a `/` is put between them unless `dir`
/// is empty or already ends with one.
pub open spec fn spec_join(dir: Seq<char>, rel: Seq<char>) -> Seq<char> {
    if rel.len() > 0 && rel[0] == '/' {
        rel
    } else if dir.len() == 0 || dir.last() == '/' {
        dir + rel
    } else {
        dir + seq!['/'] + rel
    }
}

/// `dir` joined with `rel`.
pub fn join_path(dir: &str, rel: &str) -> (r: String)
    ensures
        r@ == spec_join(dir@, rel@),
{
    let d = str_chars(dir);
    let r = str_chars(rel);
    let mut s = String::new();
    if r.len() > 0 && r[0] == '/' {
        push_str(&mut s, rel);
    } else if d.len() == 0 || d[d.len() - 1] == '/' {
        push_str(&mut s, dir);
        push_str(&mut s, rel);
    } else {
        push_str(&mut s, dir);
        push_str(&mut s, "/");
        push_str(&mut s, rel);
        proof {
            reveal_strlit("/");
        }
    }
    s
}

/// The `project.json` path of a project directory.
pub fn project_file_path(dir: &str) -> (r: String)
    ensures
        r@ == spec_join(dir@, "project.json"@),
{
    join_path(dir, "project.json")
}

/// The project file of the directory `dir`, given whether it exists.
pub fn detect_we_project(dir: &str, project_file_exists: bool) -> (r: Result<String, WeError>)
    ensures
        project_file_exists ==> (r matches Ok(p) && p@ == spec_join(dir@, "project.json"@)),
        !project_file_exists ==> (r matches Err(WeError::NotAProject { path }) && path@ == dir@),
{
    if !project_file_exists {
        return Err(WeError::NotAProject { path: String::from_str(dir) });
    }
    Ok(project_file_path(dir))
}

/// A project can be imported only if it is a video project.
pub fn validate_project_type(project: &WeProject) -> (r: Result<(), WeError>)
    ensures
        project.project_type@ == "video"@ ==> r is Ok,
        project.project_type@ != "video"@ ==> (r matches Err(WeError::UnsupportedType { project_type })
            && project_type@ == project.project_type@),
{
    if str_equals(project.project_type.as_str(), "video") {
        Ok(())
    } else {
        Err(WeError::UnsupportedType { project_type: project.project_type.clone() })
    }
}

/// The video file of a project, given what the file system says of the
/// joined path: it must exist and be a regular file.
pub fn resolve_video_path(project_dir: &str, file: &str, exists: bool, is_file: bool) -> (r: Result<
    String,
    WeError,
>)
    ensures
        exists && is_file ==> (r matches Ok(p) && p@ == spec_join(project_dir@, file@)),
        !exists ==> (r matches Err(WeError::VideoNotFound { path }) && path@ == spec_join(
            project_dir@,
            file@,
        )),
        exists && !is_file ==> (r matches Err(WeError::NotAFile { path }) && path@ == spec_join(
            project_dir@,
            file@,
        )),
{
    let video_path = join_path(project_dir, file);
    if !exists {
        return Err(WeError::VideoNotFound { path: video_path });
    }
    if !is_file {
        return Err(WeError::NotAFile { path: video_path });
    }
    Ok(video_path)
}

/// Extensions of common video containers, in lower case.
pub open spec fn is_video_extension(e: Seq<char>) -> bool {
    e == "mp4"@ || e == "webm"@ || e == "mkv"@ || e == "avi"@ || e == "mov"@ || e == "m4v"@
}

/// Whether a file extension names a common video container, ignoring
/// case (other extensions are accepted with a warning).
pub fn is_common_video_extension(ext: &str) -> (b: bool)
    ensures
        b == is_video_extension(unicode_lowercase(ext@)),
{
    let e = to_lowercase(ext);
    let e = e.as_str();
    str_equals(e, "mp4") || str_equals(e, "webm") || str_equals(e, "mkv") || str_equals(e, "avi")
        || str_equals(e, "mov") || str_equals(e, "m4v")
}

// ---------------------------------------------------------------------
// Workshop items
// ---------------------------------------------------------------------

pub open spec fn is_digit(c: char) -> bool {
    '0' <= c && c <= '9'
}

/// Value of a run of decimal digits.
pub open spec fn digits_value(s: Seq<char>) -> nat
    decreases s.len(),
{
    if s.len() == 0 {
        0
    } else {
        digits_value(s.drop_last()) * 10 + ((s.last() as int - '0' as int) as nat)
    }
}

/// `s` without a leading `+`.
pub open spec fn unsigned_body(s: Seq<char>) -> Seq<char> {
    if s.len() > 0 && s[0] == '+' {
        s.drop_first()
    } else {
        s
    }
}

pub open spec fn all_digits(s: Seq<char>) -> bool {
    forall|i: int| 0 <= i < s.len() ==> is_digit(#[trigger] s[i])
}

/// What `str::parse::<u64>` gives: an optional `+` followed by at least
/// one decimal digit and nothing else, of a value that fits in `u64`.
pub open spec fn spec_parse_u64(s: Seq<char>) -> Option<u64> {
    let body = unsigned_body(s);
    if body.len() > 0 && all_digits(body) && digits_value(body) <= u64::MAX {
        Some(digits_value(body) as u64)
    } else {
        None
    }
}

proof fn lemma_digits_value_grows(s: Seq<char>, i: int)
    requires
        0 <= i <= s.len(),
        forall|k: int| 0 <= k < s.len() ==> is_digit(#[trigger] s[k]),
    ensures
        digits_value(s.take(i)) <= digits_value(s),
    decreases s.len() - i,
{
    if i < s.len() {
        lemma_digits_value_grows(s, i + 1);
        assert(s.take(i + 1).drop_last() =~= s.take(i));
    } else {
        assert(s.take(i) =~= s);
    }
}

/// The id of a workshop item from its directory name.
pub fn parse_item_id(name: &str) -> (r: Option<u64>)
    ensures
        r == spec_parse_u64(name@),
{
    let cs = str_chars(name);
    let start: usize = if cs.len() > 0 && cs[0] == '+' {
        1
    } else {
        0
    };
    let ghost body = cs@.skip(start as int);
    proof {
        if start == 1 {
            assert(body =~= cs@.drop_first());
        } else {
            assert(body =~= cs@);
        }
    }
    if start >= cs.len() {
        return None;
    }
    let mut v: u64 = 0;
    let mut i: usize = start;
    while i < cs.len()
        invariant
            cs@ == name@,
            start <= i <= cs@.len(),
            start < cs@.len(),
            body == cs@.skip(start as int),
            body == unsigned_body(name@),
            forall|k: int| start <= k < i ==> is_digit(#[trigger] cs@[k]),
            v == digits_value(body.take(i - start)),
        decreases cs@.len() - i,
    {
        let c = cs[i];
        assert(body.take(i - start + 1).drop_last() =~= body.take(i - start));
        if !('0' <= c && c <= '9') {
            assert(body[i - start] == cs@[i as int]);
            assert(!is_digit(body[i - start]));
            return None;
        }
        let d = (c as u32 - '0' as u32) as u64;
        if v > (u64::MAX - d) / 10 {
            proof {
                assert(digits_value(body.take(i - start + 1)) == v * 10 + d);
                assert(v * 10 + d > u64::MAX) by (nonlinear_arith)
                    requires v > (u64::MAX - d) / 10, d <= 9;
                assert forall|k: int| 0 <= k < body.take(i - start + 1).len() implies is_digit(#[trigger] body.take(i - start + 1)[k]) by {
                    assert(body.take(i - start + 1)[k] == cs@[start + k]);
                }
                if all_digits(body) {
                    lemma_digits_value_grows(body, i - start + 1);
                }
            }
            return None;
        }
        v = v * 10 + d;
        i = i + 1;
    }
    proof {
        assert(body.take(i - start) =~= body);
    }
    Some(v)
}

/// A workshop item: its id, its directory and its project, if the
/// directory holds a usable one.
#[derive(Debug)]
pub struct WorkshopItem {
    pub id: u64,
    pub path: String,
    pub project: Option<WeProject>,
}

impl WorkshopItem {
    /// The item's title: that of its project, or "Workshop Item <id>".
    pub fn title(&self) -> (s: String)
        ensures
            self.project matches Some(p) ==> s@ == p.title@,
            self.project is None ==> s@ == "Workshop Item "@ + decimal(self.id as nat),
    {
        match &self.project {
            Some(p) => p.title.clone(),
            None => {
                let mut s = String::new();
                push_str(&mut s, "Workshop Item ");
                push_decimal(&mut s, self.id as u128);
                s
            },
        }
    }

    /// Whether the item holds a usable project.
    pub fn is_valid(&self) -> (b: bool)
        ensures
            b == self.project is Some,
    {
        self.project.is_some()
    }

    /// The video file of the item's project.
    pub fn video_path(&self) -> (r: Option<String>)
        ensures
            self.project is None ==> r is None,
            self.project matches Some(p) ==> (r matches Some(v) && v@ == spec_join(self.path@, p.file@)),
    {
        match &self.project {
            Some(p) => Some(join_path(self.path.as_str(), p.file.as_str())),
            None => None,
        }
    }
}

/// The valid items found by a scan.
pub struct WorkshopScanner {
    items: Vec<WorkshopItem>,
}

impl WorkshopScanner {
    pub closed spec fn spec_items(&self) -> Seq<WorkshopItem> {
        self.items@
    }

    /// Keep the items that hold a usable project, in order.
    pub fn scan(found: Vec<WorkshopItem>) -> (s: WorkshopScanner)
        ensures
            s.spec_items() == found@.filter(|it: WorkshopItem| it.project is Some),
    {
        let mut items: Vec<WorkshopItem> = Vec::new();
        let mut found = found;
        let ghost all = found@;
        while found.len() > 0
            invariant
                found@.len() <= all.len(),
                found@ == all.skip(all.len() - found@.len()),
                items@ == all.take(all.len() - found@.len()).filter(|it: WorkshopItem| it.project is Some),
            decreases found@.len(),
        {
            let ghost k = all.len() - found@.len();
            let it = found.remove(0);
            proof {
                reveal(Seq::filter);
                assert(all[k] == it);
                assert(all.take(k + 1).drop_last() =~= all.take(k));
                assert(found@ =~= all.skip(k + 1));
            }
            if it.project.is_some() {
                items.push(it);
            }
        }
        proof {
            assert(all.take(all.len() as int) =~= all);
        }
        WorkshopScanner { items }
    }

    /// The items, in scan order.
    pub fn items(&self) -> (s: &[WorkshopItem])
        ensures
            s@ == self.spec_items(),
    {
        self.items.as_slice()
    }

    /// The first item with the given id.
    pub fn find(&self, id: u64) -> (r: Option<&WorkshopItem>)
        ensures
            r matches Some(it) ==> it.id == id && exists|i: int|
                0 <= i < self.spec_items().len() && self.spec_items()[i] == *it && forall|k: int|
                    0 <= k < i ==> (#[trigger] self.spec_items()[k]).id != id,
            r is None ==> forall|i: int| 0 <= i < self.spec_items().len() ==> (#[trigger] self.spec_items()[i]).id != id,
    {
        let mut i: usize = 0;
        while i < self.items.len()
            invariant
                i <= self.items@.len(),
                forall|k: int| 0 <= k < i ==> (#[trigger] self.items@[k]).id != id,
            decreases self.items@.len() - i,
        {
            if self.items[i].id == id {
                return Some(&self.items[i]);
            }
            i = i + 1;
        }
        None
    }
}


/// A tag of a workshop item.
#[derive(Debug)]
pub struct WorkshopTag {
    pub tag: String,
}

/// Workshop item details as the Steam web API gives them.
#[derive(Debug)]
pub struct WorkshopItemDetails {
    pub publishedfileid: String,
    pub title: String,
    pub description: String,
    /// Creator's Steam id.
    pub creator: String,
    /// File size in bytes, as text.
    pub file_size: String,
    pub preview_url: String,
    /// Download URL, when there is one.
    pub file_url: String,
    pub subscriptions: u64,
    pub favorited: u64,
    pub tags: Vec<WorkshopTag>,
}


// ---------------------------------------------------------------------
// Download cache
// ---------------------------------------------------------------------

/// Whether `s` is in ascending order.
pub open spec fn ascending(s: Seq<u64>) -> bool {
    forall|i: int, j: int| 0 <= i <= j < s.len() ==> s[i] <= s[j]
}

/// The item ids named by the directories among the cache entries
/// (name, is a directory), in entry order; names that are no id are
/// passed over.
pub open spec fn spec_cached_ids(entries: Seq<(String, bool)>) -> Seq<u64>
    decreases entries.len(),
{
    if entries.len() == 0 {
        Seq::empty()
    } else {
        let rest = spec_cached_ids(entries.drop_last());
        let e = entries.last();
        if e.1 && spec_parse_u64(e.0@) is Some {
            rest.push(spec_parse_u64(e.0@)->0)
        } else {
            rest
        }
    }
}

/// Insert `x` into the ascending `v`, after the values not above it.
fn insert_ascending(v: &mut Vec<u64>, x: u64)
    requires
        ascending(old(v)@),
    ensures
        ascending(final(v)@),
        final(v)@.to_multiset() == old(v)@.to_multiset().insert(x),
{
    let mut p: usize = 0;
    while p < v.len() && v[p] <= x
        invariant
            p <= v@.len(),
            forall|k: int| 0 <= k < p ==> #[trigger] v@[k] <= x,
        decreases v@.len() - p,
    {
        p = p + 1;
    }
    let ghost before = v@;
    v.insert(p, x);
    proof {
        vstd::seq_lib::to_multiset_insert(before, p as int, x);
        assert forall|i: int, j: int| 0 <= i <= j < v@.len() implies v@[i] <= v@[j] by {
            if j < p {
                assert(v@[i] == before[i] && v@[j] == before[j]);
            } else if j == p {
                if i < p {
                    assert(v@[i] == before[i]);
                }
            } else if i == p {
                assert(v@[j] == before[j - 1]);
                assert(p < before.len() && before[p as int] > x);
                assert(before[p as int] <= before[j - 1]);
            } else if i < p {
                assert(v@[i] == before[i] && v@[j] == before[j - 1]);
            } else {
                assert(v@[i] == before[i - 1] && v@[j] == before[j - 1]);
            }
        }
    }
}

/// The ids of the cached workshop items, in ascending order: the names of
/// the directories among the cache entries (name, is a directory) that
/// are item ids.
pub fn cached_item_ids(entries: &Vec<(String, bool)>) -> (ids: Vec<u64>)
    ensures
        ascending(ids@),
        ids@.to_multiset() == spec_cached_ids(entries@).to_multiset(),
{
    let mut ids: Vec<u64> = Vec::new();
    let mut i: usize = 0;
    while i < entries.len()
        invariant
            i <= entries@.len(),
            ascending(ids@),
            ids@.to_multiset() == spec_cached_ids(entries@.take(i as int)).to_multiset(),
        decreases entries@.len() - i,
    {
        let ghost before = ids@;
        assert(entries@.take(i + 1).drop_last() =~= entries@.take(i as int));
        let (name, is_dir) = (&entries[i].0, entries[i].1);
        if is_dir {
            match parse_item_id(name.as_str()) {
                Some(id) => {
                    insert_ascending(&mut ids, id);
                    proof {
                        vstd::seq_lib::to_multiset_build(spec_cached_ids(entries@.take(i as int)), id);
                    }
                },
                None => {},
            }
        }
        i = i + 1;
    }
    assert(entries@.take(entries@.len() as int) =~= entries@);
    ids
}

} // verus!
