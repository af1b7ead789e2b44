//! Output-name patterns of the per-output configuration: `*` stands for
//! any run of characters (also none), `?` for exactly one character, and
//! every other character for itself.

use vstd::prelude::*;
use crate::text::str_chars;

verus! {

/// Whether `name` matches `pat`.
pub open spec fn glob(name: Seq<char>, pat: Seq<char>) -> bool
    decreases pat.len() + name.len(),
{
    if pat.len() == 0 {
        name.len() == 0
    } else if pat[0] == '*' {
        glob(name, pat.drop_first()) || (name.len() > 0 && glob(name.drop_first(), pat))
    } else if name.len() == 0 {
        false
    } else if pat[0] == '?' || pat[0] == name[0] {
        glob(name.drop_first(), pat.drop_first())
    } else {
        false
    }
}

/// Whether the suffix of `name` from `i` matches the suffix of `pat` from
/// `j`.
pub open spec fn glob_from(name: Seq<char>, pat: Seq<char>, i: int, j: int) -> bool {
    glob(name.skip(i), pat.skip(j))
}

proof fn lemma_glob_step(name: Seq<char>, pat: Seq<char>, i: int, j: int)
    requires
        0 <= i <= name.len(),
        0 <= j < pat.len(),
    ensures
        glob_from(name, pat, i, j) == if pat[j] == '*' {
            glob_from(name, pat, i, j + 1) || (i < name.len() && glob_from(name, pat, i + 1, j))
        } else if i == name.len() {
            false
        } else if pat[j] == '?' || pat[j] == name[i] {
            glob_from(name, pat, i + 1, j + 1)
        } else {
            false
        },
{
    assert(pat.skip(j).drop_first() =~= pat.skip(j + 1));
    if i < name.len() {
        assert(name.skip(i).drop_first() =~= name.skip(i + 1));
    }
}

/// Whether `name` matches `pattern`.
pub fn matches_pattern(name: &str, pattern: &str) -> (b: bool)
    requires
        name@.len() < usize::MAX,
    ensures
        b == glob(name@, pattern@),
{
    let n = str_chars(name);
    let p = str_chars(pattern);
    let nl = n.len();
    // row[i]: the suffix of the name from i matches the pattern suffix from j + 1.
    let mut row: Vec<bool> = Vec::new();
    let mut i: usize = 0;
    while i <= nl
        invariant
            n@ == name@,
            nl == n@.len(),
            nl < usize::MAX,
            i <= nl + 1,
            row@.len() == i,
            forall|k: int| 0 <= k < i ==> row@[k] == (k == nl),
        decreases nl + 1 - i,
    {
        row.push(i == nl);
        i = i + 1;
    }
    proof {
        assert forall|k: int| 0 <= k <= nl implies row@[k] == glob_from(n@, p@, k, p@.len() as int) by {
            assert(p@.skip(p@.len() as int).len() == 0);
        }
    }
    let mut j: usize = p.len();
    while j > 0
        invariant
            n@ == name@,
            p@ == pattern@,
            nl == n@.len(),
            nl < usize::MAX,
            j <= p@.len(),
            row@.len() == nl + 1,
            forall|k: int| 0 <= k <= nl ==> #[trigger] row@[k] == glob_from(n@, p@, k, j as int),
        decreases j,
    {
        let jj = j - 1;
        let c = p[jj];
        let mut cur: Vec<bool> = Vec::new();
        let mut k: usize = 0;
        while k <= nl
            invariant
                nl < usize::MAX,
                k <= nl + 1,
                cur@.len() == k,
            decreases nl + 1 - k,
        {
            cur.push(false);
            k = k + 1;
        }
        let mut i: usize = nl + 1;
        while i > 0
            invariant
                n@ == name@,
                p@ == pattern@,
                nl == n@.len(),
                nl < usize::MAX,
                jj + 1 == j,
                j <= p@.len(),
                c == p@[jj as int],
                i <= nl + 1,
                cur@.len() == nl + 1,
                row@.len() == nl + 1,
                forall|k: int| 0 <= k <= nl ==> #[trigger] row@[k] == glob_from(n@, p@, k, j as int),
                forall|k: int| i <= k <= nl ==> #[trigger] cur@[k] == glob_from(n@, p@, k, jj as int),
            decreases i,
        {
            let ii = i - 1;
            proof {
                lemma_glob_step(n@, p@, ii as int, jj as int);
            }
            let v = if c == '*' {
                row[ii] || (ii < nl && cur[ii + 1])
            } else if ii == nl {
                false
            } else if c == '?' || c == n[ii] {
                row[ii + 1]
            } else {
                false
            };
            cur.set(ii, v);
            i = ii;
        }
        row = cur;
        j = jj;
    }
    proof {
        assert(n@.skip(0) =~= n@);
        assert(p@.skip(0) =~= p@);
    }
    row[0]
}


/// Every name matches itself taken as a pattern (a `*` in it matching a
/// `*`, a `?` matching a `?`).
pub proof fn lemma_glob_reflexive(s: Seq<char>)
    ensures
        glob(s, s),
    decreases s.len(),
{
    if s.len() > 0 {
        lemma_glob_reflexive(s.drop_first());
        if s[0] == '*' {
            assert(glob(s.drop_first(), s.drop_first()));
            assert(glob(s.drop_first(), s));
        }
    }
}

/// Whether `pat` holds a `*` or a `?`.
pub open spec fn has_wildcard(pat: Seq<char>) -> bool {
    exists|i: int| 0 <= i < pat.len() && (pat[i] == '*' || pat[i] == '?')
}

/// A pattern without wildcards matches exactly the name it spells.
pub proof fn law_plain_pattern_matches_itself_only(name: Seq<char>, pat: Seq<char>)
    requires
        !has_wildcard(pat),
    ensures
        glob(name, pat) <==> name == pat,
    decreases pat.len(),
{
    if pat.len() > 0 {
        assert(!has_wildcard(pat.drop_first())) by {
            if has_wildcard(pat.drop_first()) {
                let i = choose|i: int|
                    0 <= i < pat.drop_first().len() && (pat.drop_first()[i] == '*'
                        || pat.drop_first()[i] == '?');
                assert(pat[i + 1] == pat.drop_first()[i]);
            }
        }
        assert(pat[0] != '*' && pat[0] != '?') by {
            if pat[0] == '*' || pat[0] == '?' {
                assert(0 <= 0 < pat.len() && (pat[0] == '*' || pat[0] == '?'));
            }
        }
        if name.len() > 0 {
            law_plain_pattern_matches_itself_only(name.drop_first(), pat.drop_first());
            if name == pat {
                assert(name.drop_first() == pat.drop_first());
            }
            if name[0] == pat[0] && name.drop_first() == pat.drop_first() {
                assert forall|i: int| 0 <= i < name.len() implies name[i] == pat[i] by {
                    if i > 0 {
                        assert(name[i] == name.drop_first()[i - 1]);
                        assert(pat[i] == pat.drop_first()[i - 1]);
                    }
                }
                assert(name =~= pat);
            }
        }
    } else {
        if name.len() == 0 {
            assert(name =~= pat);
        }
    }
}

/// A pattern of `*` alone matches every name, the empty one too.
pub proof fn law_star_matches_everything(name: Seq<char>)
    ensures
        glob(name, seq!['*']),
    decreases name.len(),
{
    let pat = seq!['*'];
    assert(pat[0] == '*');
    assert(pat.drop_first().len() == 0);
    if name.len() > 0 {
        law_star_matches_everything(name.drop_first());
        assert(glob(name.drop_first(), pat));
    } else {
        assert(glob(name, pat.drop_first()));
    }
}

/// A pattern of `?` alone matches exactly the names of one character.
pub proof fn law_question_mark_matches_one_character(name: Seq<char>)
    ensures
        glob(name, seq!['?']) <==> name.len() == 1,
{
    let pat = seq!['?'];
    assert(pat.drop_first().len() == 0);
    if name.len() > 0 {
        assert(glob(name.drop_first(), pat.drop_first()) <==> name.drop_first().len() == 0);
    }
}

} // verus!
