//! Path classification and circle-name derivation.
//!
//! A candidate roster file must carry one of the two supported
//! spreadsheet extensions and must not look like a transient lock
//! file (a name containing the marker "~$"). A circle is named after
//! its file's base name with the extension stripped.

use vstd::prelude::*;

verus! {

/// Whether `s` ends in `suffix`.
pub open spec fn spec_ends_with(s: Seq<char>, suffix: Seq<char>) -> bool {
    suffix.len() <= s.len() && s.subrange(s.len() - suffix.len(), s.len() as int) == suffix
}

/// Whether the lock-file marker "~$" occurs anywhere in `s`.
pub open spec fn spec_has_lock_marker(s: Seq<char>) -> bool {
    exists|k: int| 0 <= k && k + 2 <= s.len() && #[trigger] s[k] == '~' && s[k + 1] == '$'
}

/// Whether `s` names a supported tabular file: one of the two
/// supported extensions, and no lock-file marker.
pub open spec fn spec_is_excel_file_path(s: Seq<char>) -> bool {
    (spec_ends_with(s, ".xlsx"@) || spec_ends_with(s, ".xls"@)) && !spec_has_lock_marker(s)
}

fn str_ends_with(s: &str, suffix: &str) -> (r: bool)
    ensures
        r == spec_ends_with(s@, suffix@),
{
    let n = s.unicode_len();
    let m = suffix.unicode_len();
    if m > n {
        return false;
    }
    let mut i: usize = 0;
    while i < m
        invariant
            m <= n,
            n == s@.len(),
            m == suffix@.len(),
            i <= m,
            forall|j: int| 0 <= j < i ==> s@[n - m + j] == suffix@[j],
        decreases m - i,
    {
        if s.get_char(n - m + i) != suffix.get_char(i) {
            proof {
                assert(s@.subrange(n - m, n as int)[i as int] == s@[n - m + i]);
            }
            return false;
        }
        i += 1;
    }
    proof {
        assert(s@.subrange(n - m, n as int) =~= suffix@);
    }
    true
}

fn has_lock_marker(s: &str) -> (r: bool)
    ensures
        r == spec_has_lock_marker(s@),
{
    let n = s.unicode_len();
    if n < 2 {
        return false;
    }
    let mut k: usize = 0;
    while k < n - 1
        invariant
            2 <= n == s@.len(),
            k + 1 <= n,
            forall|j: int| 0 <= j < k ==> !(#[trigger] s@[j] == '~' && s@[j + 1] == '$'),
        decreases n - k,
    {
        if s.get_char(k) == '~' && s.get_char(k + 1) == '$' {
            return true;
        }
        k += 1;
    }
    false
}

/// Whether `path` names a supported tabular file (".xlsx" or ".xls")
/// and is not a transient lock file (no "~$" in the name).
pub fn check_excel_file_path(path: &str) -> (r: bool)
    ensures
        r == spec_is_excel_file_path(path@),
{
    (str_ends_with(path, ".xlsx") || str_ends_with(path, ".xls")) && !has_lock_marker(path)
}

/// The index just after the last path separator in `s`; 0 if there is
/// no separator.
pub open spec fn spec_base_start(s: Seq<char>) -> int
    decreases s.len(),
{
    if s.len() == 0 {
        0
    } else if s[s.len() - 1] == '/' || s[s.len() - 1] == '\\' {
        s.len() as int
    } else {
        spec_base_start(s.drop_last())
    }
}

/// The index of the last '.' in `s`; -1 if there is none.
pub open spec fn spec_last_dot(s: Seq<char>) -> int
    decreases s.len(),
{
    if s.len() == 0 {
        -1
    } else if s[s.len() - 1] == '.' {
        s.len() - 1
    } else {
        spec_last_dot(s.drop_last())
    }
}

/// The stem of a base name: everything before the last '.', unless
/// the '.' is absent or leads the name.
pub open spec fn spec_stem_of_base(base: Seq<char>) -> Seq<char> {
    if spec_last_dot(base) > 0 {
        base.subrange(0, spec_last_dot(base))
    } else {
        base
    }
}

/// The circle name a path yields: the final path component with its
/// extension stripped.
pub open spec fn spec_file_stem(s: Seq<char>) -> Seq<char> {
    spec_stem_of_base(s.subrange(spec_base_start(s), s.len() as int))
}

pub proof fn lemma_base_start_bounds(s: Seq<char>)
    ensures
        0 <= spec_base_start(s) <= s.len(),
    decreases s.len(),
{
    if s.len() > 0 && !(s[s.len() - 1] == '/' || s[s.len() - 1] == '\\') {
        lemma_base_start_bounds(s.drop_last());
    }
}

pub proof fn lemma_last_dot_bounds(s: Seq<char>)
    ensures
        -1 <= spec_last_dot(s) < s.len(),
    decreases s.len(),
{
    if s.len() > 0 && s[s.len() - 1] != '.' {
        lemma_last_dot_bounds(s.drop_last());
    }
}

fn base_start(s: &str) -> (r: usize)
    ensures
        r == spec_base_start(s@),
        r <= s@.len(),
{
    let n = s.unicode_len();
    let mut i: usize = n;
    proof {
        assert(s@.subrange(0, n as int) =~= s@);
    }
    while i > 0
        invariant
            n == s@.len(),
            i <= n,
            spec_base_start(s@) == spec_base_start(s@.subrange(0, i as int)),
        decreases i,
    {
        let c = s.get_char(i - 1);
        if c == '/' || c == '\\' {
            proof {
                assert(s@.subrange(0, i as int).last() == s@[i - 1]);
            }
            return i;
        }
        proof {
            assert(s@.subrange(0, i as int).last() == s@[i - 1]);
            assert(s@.subrange(0, i as int).drop_last() =~= s@.subrange(0, i - 1));
        }
        i -= 1;
    }
    proof {
        assert(s@.subrange(0, 0) =~= Seq::<char>::empty());
    }
    0
}

fn last_dot(s: &str) -> (r: Option<usize>)
    ensures
        match r {
            Some(d) => spec_last_dot(s@) == d,
            None => spec_last_dot(s@) == -1,
        },
{
    let n = s.unicode_len();
    let mut i: usize = n;
    proof {
        assert(s@.subrange(0, n as int) =~= s@);
    }
    while i > 0
        invariant
            n == s@.len(),
            i <= n,
            spec_last_dot(s@) == spec_last_dot(s@.subrange(0, i as int)),
        decreases i,
    {
        let c = s.get_char(i - 1);
        if c == '.' {
            proof {
                assert(s@.subrange(0, i as int).last() == s@[i - 1]);
            }
            return Some(i - 1);
        }
        proof {
            assert(s@.subrange(0, i as int).last() == s@[i - 1]);
            assert(s@.subrange(0, i as int).drop_last() =~= s@.subrange(0, i - 1));
        }
        i -= 1;
    }
    proof {
        assert(s@.subrange(0, 0) =~= Seq::<char>::empty());
    }
    None
}

/// The final path component of `path` with its extension stripped,
/// as the surrounding platform derives a file's stem.
pub fn file_stem(path: &str) -> (r: String)
    ensures
        r@ == spec_file_stem(path@),
{
    let n = path.unicode_len();
    let bs = base_start(path);
    let base = path.substring_char(bs, n);
    let stem_len: usize = match last_dot(base) {
        Some(d) => {
            if d > 0 {
                d
            } else {
                proof {
                    lemma_last_dot_bounds(base@);
                }
                base.unicode_len()
            }
        },
        None => base.unicode_len(),
    };
    proof {
        lemma_last_dot_bounds(base@);
    }
    let stem = base.substring_char(0, stem_len);
    proof {
        assert(stem@ =~= spec_file_stem(path@));
    }
    stem.to_owned()
}

} // verus!
