//! Steam libraries: where Steam is installed, and the library folders
//! listed in `libraryfolders.vdf`.

use vstd::prelude::*;
use crate::text::{push_char, push_decimal, starts_with_chars, trim, trim_chars};
use crate::workshop::{join_path, spec_join};

verus! {

/// Number of `"` in `s`.
pub open spec fn quote_count(s: Seq<char>) -> nat
    decreases s.len(),
{
    if s.len() == 0 {
        0
    } else {
        quote_count(s.drop_last()) + if s.last() == '"' {
            1nat
        } else {
            0nat
        }
    }
}

/// Field `k` of `s` split on `"`: the characters that follow exactly `k`
/// quotes.
pub open spec fn quoted_field(s: Seq<char>, k: nat) -> Seq<char>
    decreases s.len(),
{
    if s.len() == 0 {
        Seq::empty()
    } else if s.last() != '"' && quote_count(s.drop_last()) == k {
        quoted_field(s.drop_last(), k).push(s.last())
    } else {
        quoted_field(s.drop_last(), k)
    }
}

/// The value of a VDF line `"key"  "value"`: the fourth field of the line
/// split on `"`, when there is one.
pub open spec fn spec_vdf_value(line: Seq<char>) -> Option<Seq<char>> {
    if quote_count(line) >= 3 {
        Some(quoted_field(line, 3))
    } else {
        None
    }
}

/// `s` split on `c`, as `str::split` gives it.
pub open spec fn split_on(s: Seq<char>, c: char) -> Seq<Seq<char>>
    decreases s.len(),
{
    if s.len() == 0 {
        seq![Seq::empty()]
    } else {
        let p = split_on(s.drop_last(), c);
        if s.last() == c {
            p.push(Seq::empty())
        } else {
            p.update(p.len() - 1, p.last().push(s.last()))
        }
    }
}

proof fn lemma_split_nonempty(s: Seq<char>, c: char)
    ensures
        split_on(s, c).len() >= 1,
    decreases s.len(),
{
    if s.len() > 0 {
        lemma_split_nonempty(s.drop_last(), c);
    }
}

/// The library path a VDF line gives: the value of a trimmed line that
/// starts with `"path"`.
pub open spec fn line_path(line: Seq<char>) -> Option<Seq<char>> {
    let t = trim(line);
    if t.len() >= 6 && t.subrange(0, 6) == "\"path\""@ {
        spec_vdf_value(t)
    } else {
        None
    }
}

/// The library paths of a sequence of lines, in order.
pub open spec fn paths_of_lines(lines: Seq<Seq<char>>) -> Seq<Seq<char>>
    decreases lines.len(),
{
    if lines.len() == 0 {
        Seq::empty()
    } else {
        let rest = paths_of_lines(lines.drop_last());
        match line_path(lines.last()) {
            Some(p) => rest.push(p),
            None => rest,
        }
    }
}

/// The library paths listed in the text of a `libraryfolders.vdf`.
pub open spec fn spec_vdf_paths(content: Seq<char>) -> Seq<Seq<char>> {
    paths_of_lines(split_on(content, '\n'))
}

/// A Steam installation and its library folders.
#[derive(Debug)]
pub struct SteamLibrary {
    /// Root of the installation.
    pub root: String,
    /// Library folders, the root first.
    pub libraries: Vec<String>,
}

/// Why Steam could not be located.
#[derive(Debug, Clone, Copy, PartialEq, Eq, Structural)]
pub enum SteamError {
    /// No candidate directory holds a Steam installation.
    NotFound,
}

/// The places Steam is looked for, in order: `~/.steam/steam`,
/// `~/.local/share/Steam` (when the home directory is known) and
/// `/usr/share/steam`.
pub fn steam_root_candidates(home: Option<&str>) -> (v: Vec<String>)
    ensures
        home matches Some(h) ==> v@.len() == 3 && v@[0]@ == spec_join(h@, ".steam/steam"@)
            && v@[1]@ == spec_join(h@, ".local/share/Steam"@) && v@[2]@ == "/usr/share/steam"@,
        home is None ==> v@.len() == 1 && v@[0]@ == "/usr/share/steam"@,
{
    let mut v: Vec<String> = Vec::new();
    match home {
        Some(h) => {
            v.push(join_path(h, ".steam/steam"));
            v.push(join_path(h, ".local/share/Steam"));
        },
        None => {},
    }
    v.push(String::from_str("/usr/share/steam"));
    v
}

impl SteamLibrary {
    /// The Steam root: the first candidate that is an installation (the
    /// caller tells, for each candidate, whether it and its `steamapps`
    /// directory exist).
    pub fn find_steam_root(candidates: &Vec<(String, bool)>) -> (r: Result<String, SteamError>)
        ensures
            r matches Ok(root) ==> exists|i: int|
                0 <= i < candidates@.len() && candidates@[i].1 && candidates@[i].0 == root && forall|
                    j: int,
                | 0 <= j < i ==> !(#[trigger] candidates@[j]).1,
            r is Err ==> forall|i: int| 0 <= i < candidates@.len() ==> !(#[trigger] candidates@[i]).1,
    {
        let mut i: usize = 0;
        while i < candidates.len()
            invariant
                i <= candidates@.len(),
                forall|j: int| 0 <= j < i ==> !(#[trigger] candidates@[j]).1,
            decreases candidates@.len() - i,
        {
            if candidates[i].1 {
                return Ok(candidates[i].0.clone());
            }
            i = i + 1;
        }
        Err(SteamError::NotFound)
    }

    /// The `libraryfolders.vdf` path of a Steam root.
    pub fn library_folders_path(root: &str) -> (r: String)
        ensures
            r@ == spec_join(root@, "steamapps/libraryfolders.vdf"@),
    {
        join_path(root, "steamapps/libraryfolders.vdf")
    }

    /// The library of a Steam root and the additional library folders that
    /// exist: the root first, then the others in file order.
    pub fn discover(root: String, folders: Vec<String>) -> (lib: SteamLibrary)
        ensures
            lib.root == root,
            lib.libraries@ == seq![root] + folders@,
    {
        let mut libraries: Vec<String> = Vec::new();
        libraries.push(root.clone());
        let mut folders = folders;
        libraries.append(&mut folders);
        SteamLibrary { root, libraries }
    }

    /// The value of a VDF line `"key"  "value"`: the fourth field of the
    /// line split on `"`.
    pub fn extract_vdf_value(line: &str) -> (r: Option<String>)
        ensures
            match spec_vdf_value(line@) {
                Some(v) => r matches Some(s) && s@ == v,
                None => r is None,
            },
    {
        let cs = crate::text::str_chars(line);
        SteamLibrary::vdf_value_of_chars(&cs)
    }

    fn vdf_value_of_chars(line: &Vec<char>) -> (r: Option<String>)
        ensures
            match spec_vdf_value(line@) {
                Some(v) => r matches Some(s) && s@ == v,
                None => r is None,
            },
    {
        let mut quotes: usize = 0;
        let mut value = String::new();
        let mut i: usize = 0;
        while i < line.len()
            invariant
                i <= line@.len(),
                quotes == quote_count(line@.take(i as int)),
                quotes <= i,
                value@ == quoted_field(line@.take(i as int), 3),
            decreases line@.len() - i,
        {
            let c = line[i];
            assert(line@.take(i + 1).drop_last() =~= line@.take(i as int));
            if c == '"' {
                quotes = quotes + 1;
            } else if quotes == 3 {
                push_char(&mut value, c);
            }
            i = i + 1;
        }
        assert(line@.take(line@.len() as int) =~= line@);
        if quotes >= 3 {
            Some(value)
        } else {
            None
        }
    }

    /// The library path of one VDF line, if it is a `"path"` entry.
    fn line_path_of(line: &Vec<char>) -> (r: Option<String>)
        ensures
            match line_path(line@) {
                Some(v) => r matches Some(s) && s@ == v,
                None => r is None,
            },
    {
        let t = trim_chars(line);
        if starts_with_chars(&t, "\"path\"") {
            proof {
                reveal_strlit("\"path\"");
            }
            SteamLibrary::vdf_value_of_chars(&t)
        } else {
            proof {
                reveal_strlit("\"path\"");
            }
            None
        }
    }

    /// The library paths listed in the text of a `libraryfolders.vdf`, in
    /// order; whether they exist is for the caller to check.
    pub fn parse_vdf_paths(content: &str) -> (r: Vec<String>)
        ensures
            r@.len() == spec_vdf_paths(content@).len(),
            forall|i: int| 0 <= i < r@.len() ==> (#[trigger] r@[i])@ == spec_vdf_paths(content@)[i],
    {
        let cs = crate::text::str_chars(content);
        let mut paths: Vec<String> = Vec::new();
        let mut line: Vec<char> = Vec::new();
        let ghost mut done: Seq<Seq<char>> = Seq::empty();
        let mut i: usize = 0;
        proof {
            assert(cs@.take(0) =~= Seq::<char>::empty());
        }
        while i < cs.len()
            invariant
                cs@ == content@,
                i <= cs@.len(),
                split_on(cs@.take(i as int), '\n') == done.push(line@),
                paths@.len() == paths_of_lines(done).len(),
                forall|k: int| 0 <= k < paths@.len() ==> (#[trigger] paths@[k])@ == paths_of_lines(done)[k],
            decreases cs@.len() - i,
        {
            let c = cs[i];
            assert(cs@.take(i + 1).drop_last() =~= cs@.take(i as int));
            if c == '\n' {
                let p = SteamLibrary::line_path_of(&line);
                proof {
                    assert(done.push(line@).drop_last() =~= done);
                }
                let ghost old_done = done;
                proof {
                    done = done.push(line@);
                    assert(done.drop_last() =~= old_done);
                }
                match p {
                    Some(s) => {
                        paths.push(s);
                    },
                    None => {},
                }
                line = Vec::new();
                proof {
                    assert(split_on(cs@.take(i + 1), '\n') =~= done.push(line@));
                }
            } else {
                proof {
                    lemma_split_nonempty(cs@.take(i as int), '\n');
                }
                line.push(c);
                proof {
                    assert(split_on(cs@.take(i + 1), '\n') =~= done.push(line@));
                }
            }
            i = i + 1;
        }
        let p = SteamLibrary::line_path_of(&line);
        let ghost all = done.push(line@);
        proof {
            assert(cs@.take(cs@.len() as int) =~= cs@);
            assert(all.drop_last() =~= done);
        }
        match p {
            Some(s) => {
                paths.push(s);
            },
            None => {},
        }
        paths
    }

    /// The workshop directory of an app in a library.
    pub fn workshop_dir(library: &str, app_id: u32) -> (r: String)
        ensures
            r@ == spec_join(spec_join(library@, "steamapps/workshop/content"@), crate::text::decimal(app_id as nat)),
    {
        let base = join_path(library, "steamapps/workshop/content");
        let mut id = String::new();
        push_decimal(&mut id, app_id as u128);
        join_path(base.as_str(), id.as_str())
    }
}

} // verus!
