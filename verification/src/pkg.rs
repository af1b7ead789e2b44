//! Wallpaper Engine `.pkg` archives: a `PKGV0023` header, a directory of
//! named entries, and the entries' bytes after the directory.

use vstd::prelude::*;
use crate::text::str_equals;
use crate::texture::le_u32_at;
use crate::workshop::{join_path, spec_join};

verus! {

/// Errors of archive reading.
#[derive(Debug, Clone, Copy, PartialEq, Eq, Structural)]
pub enum PkgError {
    /// The data ends inside the header, the directory or an entry.
    UnexpectedEnd,
    /// The header is not `PKGV0023`.
    InvalidMagic,
    /// No entry has the requested name.
    NotFound,
    /// The entry is not valid UTF-8 text.
    InvalidUtf8,
}

/// An entry of the directory.
#[derive(Debug, PartialEq, Eq)]
pub struct PkgEntry {
    /// Path of the file within the archive.
    pub name: String,
    /// Offset of the bytes from the end of the directory.
    pub offset: u64,
    /// Number of bytes.
    pub size: u64,
}

/// An entry as plain values: name, offset, size.
pub type EntryView = (Seq<char>, u64, u64);

pub open spec fn entry_view(e: PkgEntry) -> EntryView {
    (e.name@, e.offset, e.size)
}

pub open spec fn entries_view(s: Seq<PkgEntry>) -> Seq<EntryView> {
    s.map_values(|e: PkgEntry| entry_view(e))
}

/// Name for what `String::from_utf8_lossy` returns: the bytes decoded as
/// UTF-8 with each invalid sequence replaced by U+FFFD.
pub uninterp spec fn utf8_lossy(bytes: Seq<u8>) -> Seq<char>;

/// Calls `String::from_utf8_lossy`; the result is named `utf8_lossy` of
/// the bytes.
#[verifier::external_body]
fn from_utf8_lossy(bytes: &[u8]) -> (s: String)
    ensures
        s@ == utf8_lossy(bytes@),
{
    String::from_utf8_lossy(bytes).to_string()
}

/// Calls `String::from_utf8`. Its documentation promises an error exactly
/// when the bytes are not valid UTF-8, and otherwise a string made of
/// those bytes.
#[verifier::external_body]
fn string_from_utf8(bytes: Vec<u8>) -> (r: Option<String>)
    ensures
        r is Some <==> vstd::utf8::valid_utf8(bytes@),
        r matches Some(s) ==> vstd::utf8::encode_utf8(s@) == bytes@,
{
    String::from_utf8(bytes).ok()
}

/// `s` without trailing NUL characters.
pub open spec fn trim_nuls(s: Seq<char>) -> Seq<char>
    decreases s.len(),
{
    if s.len() > 0 && s.last() == '\0' {
        trim_nuls(s.drop_last())
    } else {
        s
    }
}

/// `s` without trailing NUL characters, as `trim_end_matches('\0')`
/// leaves it.
pub fn trim_trailing_nuls(s: &str) -> (r: String)
    ensures
        r@ == trim_nuls(s@),
{
    let cs = crate::text::str_chars(s);
    let mut end: usize = cs.len();
    assert(cs@.take(cs@.len() as int) =~= cs@);
    while end > 0 && cs[end - 1] == '\0'
        invariant
            end <= cs@.len(),
            cs@ == s@,
            trim_nuls(s@) == trim_nuls(cs@.take(end as int)),
        decreases end,
    {
        assert(cs@.take(end as int).drop_last() =~= cs@.take(end - 1));
        end = end - 1;
    }
    let mut r = String::new();
    let mut i: usize = 0;
    while i < end
        invariant
            i <= end,
            end <= cs@.len(),
            r@ == cs@.take(i as int),
        decreases end - i,
    {
        crate::text::push_char(&mut r, cs[i]);
        i = i + 1;
        assert(r@ =~= cs@.take(i as int));
    }
    proof {
        assert(cs@.take(cs@.len() as int) =~= cs@);
    }
    r
}

/// `PKGV0023`.
pub open spec fn pkg_magic() -> Seq<u8> {
    seq![80u8, 75u8, 71u8, 86u8, 48u8, 48u8, 50u8, 51u8]
}

/// Index of the first entry named `name`.
pub open spec fn index_of_name(s: Seq<EntryView>, name: Seq<char>) -> Option<int>
    decreases s.len(),
{
    if s.len() == 0 {
        None
    } else {
        match index_of_name(s.drop_last(), name) {
            Some(i) => Some(i),
            None => if s.last().0 == name {
                Some(s.len() - 1)
            } else {
                None
            },
        }
    }
}

/// The directory after adding `e`: an entry of the same name is replaced
/// in place, as a map insertion replaces the value of a key.
pub open spec fn insert_named(s: Seq<EntryView>, e: EntryView) -> Seq<EntryView> {
    match index_of_name(s, e.0) {
        Some(i) => s.update(i, e),
        None => s.push(e),
    }
}

/// No two entries share a name.
pub open spec fn names_unique(s: Seq<EntryView>) -> bool {
    forall|i: int, j: int| 0 <= i < j < s.len() ==> (#[trigger] s[i]).0 != (#[trigger] s[j]).0
}

pub proof fn lemma_index_of_name(s: Seq<EntryView>, name: Seq<char>)
    ensures
        match index_of_name(s, name) {
            Some(i) => 0 <= i < s.len() && s[i].0 == name && forall|k: int|
                0 <= k < i ==> (#[trigger] s[k]).0 != name,
            None => forall|k: int| 0 <= k < s.len() ==> (#[trigger] s[k]).0 != name,
        },
    decreases s.len(),
{
    if s.len() > 0 {
        let t = s.drop_last();
        lemma_index_of_name(t, name);
        assert forall|k: int| 0 <= k < t.len() implies t[k] == s[k] by {}
    }
}

/// Adding an entry keeps the names unique.
pub proof fn lemma_insert_keeps_unique(s: Seq<EntryView>, e: EntryView)
    requires
        names_unique(s),
    ensures
        names_unique(insert_named(s, e)),
{
    lemma_index_of_name(s, e.0);
    let t = insert_named(s, e);
    assert forall|i: int, j: int| 0 <= i < j < t.len() implies (#[trigger] t[i]).0 != (#[trigger] t[j]).0 by {
        match index_of_name(s, e.0) {
            Some(x) => {
                if i != x && j != x {
                    assert(s[i].0 != s[j].0);
                }
            },
            None => {
                if j < s.len() {
                    assert(s[i].0 != s[j].0);
                }
            },
        }
    }
}

/// The directory read from position `pos` on, at most `left` more
/// entries, added to `acc`; with the position where the directory ends.
pub open spec fn spec_directory(d: Seq<u8>, pos: int, left: nat, acc: Seq<EntryView>) -> Result<
    (Seq<EntryView>, int),
    PkgError,
>
    decreases left,
{
    if left == 0 {
        Ok((acc, pos))
    } else if pos + 4 > d.len() {
        Err(PkgError::UnexpectedEnd)
    } else {
        let name_len = le_u32_at(d, pos);
        let p = pos + 4 + name_len;
        if p + 8 > d.len() {
            Err(PkgError::UnexpectedEnd)
        } else {
            let name = trim_nuls(utf8_lossy(d.subrange(pos + 4, p)));
            spec_directory(
                d,
                p + 8,
                (left - 1) as nat,
                insert_named(acc, (name, le_u32_at(d, p) as u64, le_u32_at(d, p + 4) as u64)),
            )
        }
    }
}


proof fn lemma_directory_unique(d: Seq<u8>, pos: int, left: nat, acc: Seq<EntryView>)
    requires
        names_unique(acc),
    ensures
        spec_directory(d, pos, left, acc) matches Ok((es, _)) ==> names_unique(es),
    decreases left,
{
    if left > 0 && pos + 4 <= d.len() {
        let name_len = le_u32_at(d, pos);
        let p = pos + 4 + name_len;
        if p + 8 <= d.len() {
            let name = trim_nuls(utf8_lossy(d.subrange(pos + 4, p)));
            let e = (name, le_u32_at(d, p) as u64, le_u32_at(d, p + 4) as u64);
            lemma_insert_keeps_unique(acc, e);
            lemma_directory_unique(d, p + 8, (left - 1) as nat, insert_named(acc, e));
        }
    }
}

/// A directory read from an archive names each file once: a later entry of
/// the same name replaces the earlier one.
pub proof fn law_directory_names_unique(d: Seq<u8>)
    ensures
        spec_pkg_directory(d) matches Ok((es, _)) ==> names_unique(es),
{
    if d.len() >= 16 && d.subrange(4, 12) == pkg_magic() {
        lemma_directory_unique(d, 16, le_u32_at(d, 12) as nat, Seq::empty());
    }
}

/// What reading an archive's directory from its bytes gives: the entries
/// and the offset where their bytes start.
pub open spec fn spec_pkg_directory(d: Seq<u8>) -> Result<(Seq<EntryView>, int), PkgError> {
    if d.len() < 12 {
        Err(PkgError::UnexpectedEnd)
    } else if d.subrange(4, 12) != pkg_magic() {
        Err(PkgError::InvalidMagic)
    } else if d.len() < 16 {
        Err(PkgError::UnexpectedEnd)
    } else {
        spec_directory(d, 16, le_u32_at(d, 12) as nat, Seq::empty())
    }
}

/// Reader of an archive held in memory.
pub struct PkgReader {
    path: String,
    entries: Vec<PkgEntry>,
    data_offset: u64,
    data: Vec<u8>,
}

/// Add `e` to the directory, replacing an entry of the same name.
fn insert_entry(entries: &mut Vec<PkgEntry>, e: PkgEntry)
    ensures
        entries_view(final(entries)@) == insert_named(entries_view(old(entries)@), entry_view(e)),
{
    let ghost s = entries_view(entries@);
    proof {
        lemma_index_of_name(s, e.name@);
    }
    let mut i: usize = 0;
    while i < entries.len()
        invariant
            s == entries_view(entries@),
            entries@ == old(entries)@,
            i <= entries@.len(),
            forall|k: int| 0 <= k < i ==> (#[trigger] s[k]).0 != e.name@,
        decreases entries@.len() - i,
    {
        if str_equals(entries[i].name.as_str(), e.name.as_str()) {
            proof {
                lemma_index_of_name(s, e.name@);
                assert(s[i as int].0 == e.name@);
                match index_of_name(s, e.name@) {
                    Some(j) => {
                        if j < i {
                            assert(s[j].0 != e.name@);
                        } else if i < j {
                            assert(s[i as int].0 != e.name@);
                        }
                    },
                    None => {
                        assert(s[i as int].0 != e.name@);
                    },
                }
                assert(index_of_name(s, e.name@) == Some(i as int));
            }
            let ghost ev = entry_view(e);
            entries.set(i, e);
            assert(entries_view(entries@) =~= s.update(i as int, ev));
            return;
        }
        i = i + 1;
    }
    proof {
        lemma_index_of_name(s, e.name@);
        if index_of_name(s, e.name@) is Some {
            let j = index_of_name(s, e.name@)->0;
            assert(s[j].0 != e.name@);
        }
        assert(index_of_name(s, e.name@) is None);
    }
    let ghost ev = entry_view(e);
    entries.push(e);
    assert(entries_view(entries@) =~= s.push(ev));
}

impl PkgReader {
    /// The directory ends within the archive's bytes.
    pub closed spec fn wf(&self) -> bool {
        self.data_offset <= self.data@.len()
    }

    pub closed spec fn spec_entries(&self) -> Seq<EntryView> {
        entries_view(self.entries@)
    }

    pub closed spec fn spec_data_offset(&self) -> int {
        self.data_offset as int
    }

    pub closed spec fn spec_bytes(&self) -> Seq<u8> {
        self.data@
    }

    pub closed spec fn spec_path(&self) -> Seq<char> {
        self.path@
    }

    /// Read the directory of the archive whose bytes are `data` (the
    /// contents of the file at `path`).
    pub fn from_bytes(path: String, data: Vec<u8>) -> (r: Result<PkgReader, PkgError>)
        ensures
            match spec_pkg_directory(data@) {
                Ok((es, off)) => r matches Ok(p) && p.spec_entries() == es && p.spec_data_offset()
                    == off && p.spec_bytes() == data@ && p.spec_path() == path@ && p.wf(),
                Err(e) => r == Err::<PkgReader, PkgError>(e),
            },
    {
        let ghost d = data@;
        if data.len() < 12 {
            return Err(PkgError::UnexpectedEnd);
        }
        let magic: Vec<u8> = vec![80u8, 75u8, 71u8, 86u8, 48u8, 48u8, 50u8, 51u8];
        if !crate::texture::bytes_at(data.as_slice(), 4, magic.as_slice()) {
            return Err(PkgError::InvalidMagic);
        }
        let mut pos: usize = 12;
        let count = match crate::texture::read_u32(data.as_slice(), &mut pos) {
            Ok(v) => v,
            Err(_) => return Err(PkgError::UnexpectedEnd),
        };
        let mut entries: Vec<PkgEntry> = Vec::new();
        let mut i: u32 = 0;
        assert(entries_view(entries@) =~= Seq::<EntryView>::empty());
        assert(spec_pkg_directory(d) == spec_directory(d, 16, count as nat, Seq::empty()));
        while i < count
            invariant
                d == data@,
                i <= count,
                spec_pkg_directory(d) == spec_directory(d, 16, count as nat, Seq::empty()),
                pos <= d.len(),
                spec_directory(d, 16, count as nat, Seq::empty()) == spec_directory(
                    d,
                    pos as int,
                    (count - i) as nat,
                    entries_view(entries@),
                ),
            decreases count - i,
        {
            let name_len = match crate::texture::read_u32(data.as_slice(), &mut pos) {
                Ok(v) => v,
                Err(_) => return Err(PkgError::UnexpectedEnd),
            };
            if (name_len as usize) > data.len() - pos || data.len() - pos - (name_len as usize) < 8 {
                return Err(PkgError::UnexpectedEnd);
            }
            let name_bytes = &data.as_slice()[pos..pos + name_len as usize];
            let lossy = from_utf8_lossy(name_bytes);
            let name = trim_trailing_nuls(lossy.as_str());
            pos = pos + name_len as usize;
            let offset = match crate::texture::read_u32(data.as_slice(), &mut pos) {
                Ok(v) => v,
                Err(_) => return Err(PkgError::UnexpectedEnd),
            };
            let size = match crate::texture::read_u32(data.as_slice(), &mut pos) {
                Ok(v) => v,
                Err(_) => return Err(PkgError::UnexpectedEnd),
            };
            insert_entry(&mut entries, PkgEntry { name, offset: offset as u64, size: size as u64 });
            i = i + 1;
        }
        Ok(PkgReader { path, entries, data_offset: pos as u64, data })
    }
}


/// The bytes of the entry named `name`: those that follow the directory at
/// the entry's offset, when the archive holds all of them.
pub open spec fn spec_read(es: Seq<EntryView>, data_offset: int, d: Seq<u8>, name: Seq<char>) -> Result<
    Seq<u8>,
    PkgError,
> {
    match index_of_name(es, name) {
        None => Err(PkgError::NotFound),
        Some(i) => {
            let start = data_offset + es[i].1;
            let end = start + es[i].2;
            if end > d.len() {
                Err(PkgError::UnexpectedEnd)
            } else {
                Ok(d.subrange(start, end))
            }
        },
    }
}

/// The text of UTF-8 bytes.
pub open spec fn spec_text(r: Result<Seq<u8>, PkgError>) -> Result<Seq<u8>, PkgError> {
    match r {
        Ok(b) => if vstd::utf8::valid_utf8(b) {
            Ok(b)
        } else {
            Err(PkgError::InvalidUtf8)
        },
        Err(e) => Err(e),
    }
}

/// Decode UTF-8 text.
pub fn decode_text(bytes: Vec<u8>) -> (r: Result<String, PkgError>)
    ensures
        vstd::utf8::valid_utf8(bytes@) ==> (r matches Ok(s) && vstd::utf8::encode_utf8(s@) == bytes@),
        !vstd::utf8::valid_utf8(bytes@) ==> r == Err::<String, PkgError>(PkgError::InvalidUtf8),
{
    match string_from_utf8(bytes) {
        Some(s) => Ok(s),
        None => Err(PkgError::InvalidUtf8),
    }
}

impl PkgReader {
    /// Index of the entry named `name`.
    fn find(&self, name: &str) -> (r: Option<usize>)
        ensures
            r matches Some(i) ==> i < self.entries@.len(),
            match index_of_name(self.spec_entries(), name@) {
                Some(i) => r matches Some(j) && j as int == i,
                None => r is None,
            },
    {
        let ghost s = self.spec_entries();
        proof {
            lemma_index_of_name(s, name@);
        }
        let mut i: usize = 0;
        while i < self.entries.len()
            invariant
                s == self.spec_entries(),
                s.len() == self.entries@.len(),
                i <= s.len(),
                forall|k: int| 0 <= k < i ==> (#[trigger] s[k]).0 != name@,
            decreases s.len() - i,
        {
            if str_equals(self.entries[i].name.as_str(), name) {
                proof {
                    lemma_index_of_name(s, name@);
                    assert(s[i as int].0 == name@);
                    match index_of_name(s, name@) {
                        Some(j) => {
                            if j < i {
                                assert(s[j].0 != name@);
                            } else if i < j {
                                assert(s[i as int].0 != name@);
                            }
                        },
                        None => {
                            assert(s[i as int].0 != name@);
                        },
                    }
                }
                return Some(i);
            }
            i = i + 1;
        }
        proof {
            lemma_index_of_name(s, name@);
            if index_of_name(s, name@) is Some {
                let j = index_of_name(s, name@)->0;
                assert(s[j].0 != name@);
            }
        }
        None
    }

    /// The names of the entries, in directory order.
    pub fn list_files(&self) -> (r: Vec<&str>)
        ensures
            r@.len() == self.spec_entries().len(),
            forall|i: int| 0 <= i < r@.len() ==> (#[trigger] r@[i])@ == self.spec_entries()[i].0,
    {
        let mut r: Vec<&str> = Vec::new();
        let mut i: usize = 0;
        while i < self.entries.len()
            invariant
                i <= self.entries@.len(),
                r@.len() == i,
                forall|k: int| 0 <= k < i ==> (#[trigger] r@[k])@ == self.spec_entries()[k].0,
            decreases self.entries@.len() - i,
        {
            r.push(self.entries[i].name.as_str());
            i = i + 1;
        }
        r
    }

    /// Whether an entry is named `name`.
    pub fn contains(&self, name: &str) -> (b: bool)
        ensures
            b == index_of_name(self.spec_entries(), name@) is Some,
    {
        self.find(name).is_some()
    }

    /// The entry named `name`.
    pub fn get_entry(&self, name: &str) -> (r: Option<&PkgEntry>)
        ensures
            match index_of_name(self.spec_entries(), name@) {
                Some(i) => r matches Some(e) && entry_view(*e) == self.spec_entries()[i],
                None => r is None,
            },
    {
        proof {
            lemma_index_of_name(self.spec_entries(), name@);
        }
        match self.find(name) {
            Some(i) => {
                assert(self.spec_entries()[i as int] == entry_view(self.entries@[i as int]));
                Some(&self.entries[i])
            },
            None => None,
        }
    }

    /// Number of entries (names are distinct).
    pub fn entry_count(&self) -> (n: usize)
        ensures
            n == self.spec_entries().len(),
    {
        self.entries.len()
    }

    /// The bytes of the entry named `name`.
    pub fn read_file(&self, name: &str) -> (r: Result<Vec<u8>, PkgError>)
        requires
            self.wf(),
        ensures
            match spec_read(self.spec_entries(), self.spec_data_offset(), self.spec_bytes(), name@) {
                Ok(b) => r matches Ok(v) && v@ == b,
                Err(e) => r == Err::<Vec<u8>, PkgError>(e),
            },
    {
        let i = match self.find(name) {
            Some(i) => i,
            None => return Err(PkgError::NotFound),
        };
        proof {
            lemma_index_of_name(self.spec_entries(), name@);
        }
        let e = &self.entries[i];
        assert(self.spec_entries()[i as int] == entry_view(*e));
        let start: u128 = self.data_offset as u128 + e.offset as u128;
        let end: u128 = start + e.size as u128;
        if end > self.data.len() as u128 {
            return Err(PkgError::UnexpectedEnd);
        }
        let s = start as usize;
        let t = end as usize;
        let mut out: Vec<u8> = Vec::new();
        let mut k: usize = s;
        while k < t
            invariant
                s <= k <= t,
                t <= self.data@.len(),
                out@ == self.data@.subrange(s as int, k as int),
            decreases t - k,
        {
            out.push(self.data[k]);
            k = k + 1;
            assert(out@ =~= self.data@.subrange(s as int, k as int));
        }
        Ok(out)
    }

    /// The entry named `name` as UTF-8 text.
    pub fn read_file_string(&self, name: &str) -> (r: Result<String, PkgError>)
        requires
            self.wf(),
        ensures
            match spec_text(spec_read(self.spec_entries(), self.spec_data_offset(), self.spec_bytes(), name@)) {
                Ok(b) => r matches Ok(s) && vstd::utf8::encode_utf8(s@) == b,
                Err(e) => r == Err::<String, PkgError>(e),
            },
    {
        match self.read_file(name) {
            Ok(bytes) => decode_text(bytes),
            Err(e) => Err(e),
        }
    }
}


/// Where the files of a scene come from: its package, if it has one, and
/// its directory.
pub struct SceneContainer {
    pkg: Option<PkgReader>,
    base_path: String,
}

impl SceneContainer {
    pub closed spec fn spec_pkg(&self) -> Option<PkgReader> {
        self.pkg
    }

    pub closed spec fn spec_base(&self) -> Seq<char> {
        self.base_path@
    }

    /// The container of the scene directory `project_dir`, with the reader
    /// of its `scene.pkg` when the directory has one.
    pub fn new(project_dir: &str, pkg: Option<PkgReader>) -> (c: SceneContainer)
        ensures
            c.spec_pkg() == pkg,
            c.spec_base() == project_dir@,
    {
        SceneContainer { pkg, base_path: String::from_str(project_dir) }
    }

    /// The package path of a scene directory.
    pub fn pkg_path(project_dir: &str) -> (r: String)
        ensures
            r@ == spec_join(project_dir@, "scene.pkg"@),
    {
        join_path(project_dir, "scene.pkg")
    }

    /// Whether the scene reads from a package.
    pub fn uses_pkg(&self) -> (b: bool)
        ensures
            b == self.spec_pkg() is Some,
    {
        self.pkg.is_some()
    }

    /// Whether the package holds `name`.
    pub fn in_package(&self, name: &str) -> (b: bool)
        ensures
            b == (self.spec_pkg() matches Some(p) && index_of_name(p.spec_entries(), name@) is Some),
    {
        match &self.pkg {
            Some(p) => p.contains(name),
            None => false,
        }
    }

    /// The path of `name` in the scene directory.
    pub fn disk_path(&self, name: &str) -> (r: String)
        ensures
            r@ == spec_join(self.spec_base(), name@),
    {
        join_path(self.base_path.as_str(), name)
    }

    /// The bytes of `name`: from the package when it holds the file,
    /// otherwise those read from `disk_path(name)`, which the caller passes
    /// (`None` when that file could not be read).
    pub fn read_file(&self, name: &str, from_disk: Option<Vec<u8>>) -> (r: Result<Vec<u8>, PkgError>)
        requires
            self.spec_pkg() matches Some(p) ==> p.wf(),
        ensures
            (self.spec_pkg() matches Some(p) && index_of_name(p.spec_entries(), name@) is Some) ==> match spec_read(
                self.spec_pkg()->0.spec_entries(),
                self.spec_pkg()->0.spec_data_offset(),
                self.spec_pkg()->0.spec_bytes(),
                name@,
            ) {
                Ok(b) => r matches Ok(v) && v@ == b,
                Err(e) => r == Err::<Vec<u8>, PkgError>(e),
            },
            !(self.spec_pkg() matches Some(p) && index_of_name(p.spec_entries(), name@) is Some) ==> match from_disk {
                Some(b) => r matches Ok(v) && v@ == b@,
                None => r == Err::<Vec<u8>, PkgError>(PkgError::NotFound),
            },
    {
        match &self.pkg {
            Some(p) => {
                if p.contains(name) {
                    return p.read_file(name);
                }
            },
            None => {},
        }
        match from_disk {
            Some(b) => Ok(b),
            None => Err(PkgError::NotFound),
        }
    }

    /// The file `name` as UTF-8 text; `from_disk` as for `read_file`.
    pub fn read_file_string(&self, name: &str, from_disk: Option<Vec<u8>>) -> (r: Result<String, PkgError>)
        requires
            self.spec_pkg() matches Some(p) ==> p.wf(),
        ensures
            (self.spec_pkg() matches Some(p) && index_of_name(p.spec_entries(), name@) is Some) ==> match spec_text(
                spec_read(
                    self.spec_pkg()->0.spec_entries(),
                    self.spec_pkg()->0.spec_data_offset(),
                    self.spec_pkg()->0.spec_bytes(),
                    name@,
                ),
            ) {
                Ok(b) => r matches Ok(s) && vstd::utf8::encode_utf8(s@) == b,
                Err(e) => r == Err::<String, PkgError>(e),
            },
            !(self.spec_pkg() matches Some(p) && index_of_name(p.spec_entries(), name@) is Some) ==> match from_disk {
                Some(b) => match spec_text(Ok(b@)) {
                    Ok(t) => r matches Ok(s) && vstd::utf8::encode_utf8(s@) == t,
                    Err(e) => r == Err::<String, PkgError>(e),
                },
                None => r == Err::<String, PkgError>(PkgError::NotFound),
            },
    {
        match self.read_file(name, from_disk) {
            Ok(bytes) => decode_text(bytes),
            Err(e) => Err(e),
        }
    }

    /// Whether `name` exists: in the package, or on disk (`on_disk` tells
    /// whether `disk_path(name)` exists).
    pub fn file_exists(&self, name: &str, on_disk: bool) -> (b: bool)
        ensures
            b == ((self.spec_pkg() matches Some(p) && index_of_name(p.spec_entries(), name@) is Some) || on_disk),
    {
        self.in_package(name) || on_disk
    }

    /// The scene directory.
    pub fn base_path(&self) -> (r: &str)
        ensures
            r@ == self.spec_base(),
    {
        self.base_path.as_str()
    }

    /// The files of the package, in directory order; none without one.
    pub fn list_files(&self) -> (r: Vec<String>)
        ensures
            self.spec_pkg() is None ==> r@.len() == 0,
            self.spec_pkg() matches Some(p) ==> (r@.len() == p.spec_entries().len() && forall|i: int|
                0 <= i < r@.len() ==> (#[trigger] r@[i])@ == p.spec_entries()[i].0),
    {
        let mut files: Vec<String> = Vec::new();
        match &self.pkg {
            Some(p) => {
                let names = p.list_files();
                let mut i: usize = 0;
                while i < names.len()
                    invariant
                        i <= names@.len(),
                        files@.len() == i,
                        forall|k: int| 0 <= k < i ==> (#[trigger] files@[k])@ == names@[k]@,
                    decreases names@.len() - i,
                {
                    files.push(String::from_str(names[i]));
                    i = i + 1;
                }
            },
            None => {},
        }
        files
    }
}


/// A read of a PKG file fails with `NotFound` exactly for the names its
/// directory does not list, which are those `contains` rejects.
pub proof fn law_not_found_iff_unlisted(es: Seq<EntryView>, data_offset: int, d: Seq<u8>, name: Seq<char>)
    ensures
        (spec_read(es, data_offset, d, name) == Err::<Seq<u8>, PkgError>(PkgError::NotFound)) <==> index_of_name(
            es,
            name,
        ) is None,
{
}


proof fn lemma_directory_count(d: Seq<u8>, pos: int, left: nat, acc: Seq<EntryView>)
    ensures
        spec_directory(d, pos, left, acc) matches Ok((es, _)) ==> es.len() <= acc.len() + left,
    decreases left,
{
    if left > 0 && pos + 4 <= d.len() {
        let name_len = le_u32_at(d, pos);
        let p = pos + 4 + name_len;
        if p + 8 <= d.len() {
            let name = trim_nuls(utf8_lossy(d.subrange(pos + 4, p)));
            let e = (name, le_u32_at(d, p) as u64, le_u32_at(d, p + 4) as u64);
            lemma_index_of_name(acc, e.0);
            assert(insert_named(acc, e).len() <= acc.len() + 1);
            lemma_directory_count(d, p + 8, (left - 1) as nat, insert_named(acc, e));
        }
    }
}

/// A directory never lists more entries than the archive header declares.
pub proof fn law_directory_within_declared_count(d: Seq<u8>)
    ensures
        d.len() >= 16 ==> (spec_pkg_directory(d) matches Ok((es, _)) ==> es.len() <= le_u32_at(d, 12)),
{
    if d.len() >= 16 && d.subrange(4, 12) == pkg_magic() {
        lemma_directory_count(d, 16, le_u32_at(d, 12) as nat, Seq::empty());
    }
}

} // verus!
