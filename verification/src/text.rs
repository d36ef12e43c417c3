//! Generic text splitting: finding a separator in a character sequence and
//! splitting on every occurrence of it. The vendor tools addressed by this
//! library delimit their output with single characters (spaces, newlines,
//! `=`) or short strings (`, `), so one splitting routine serves the whole
//! crate.

use vstd::prelude::*;
use vstd::string::*;

verus! {

/// True when `sep` occurs in `s` starting at index `i`.
pub open spec fn match_at(s: Seq<char>, sep: Seq<char>, i: int) -> bool {
    &&& 0 <= i
    &&& i + sep.len() <= s.len()
    &&& s.subrange(i, i + sep.len() as int) == sep
}

/// Index of the leftmost occurrence of a non-empty `sep` in `s`, if any.
pub open spec fn find_sub(s: Seq<char>, sep: Seq<char>) -> Option<int>
    decreases s.len(),
{
    if sep.len() == 0 || s.len() < sep.len() {
        None
    } else if s.subrange(0, sep.len() as int) == sep {
        Some(0)
    } else {
        match find_sub(s.subrange(1, s.len() as int), sep) {
            Some(i) => Some(i + 1),
            None => None,
        }
    }
}

/// `find_sub` returns the first match: a match where it points, none earlier,
/// and none at all when it returns `None`.
pub proof fn lemma_find_sub_first(s: Seq<char>, sep: Seq<char>)
    requires
        sep.len() > 0,
    ensures
        match find_sub(s, sep) {
            Some(i) => match_at(s, sep, i) && (forall|k: int|
                0 <= k < i ==> !match_at(s, sep, k)),
            None => forall|k: int| !match_at(s, sep, k),
        },
    decreases s.len(),
{
    if s.len() < sep.len() {
        // No index leaves room for sep.
    } else if s.subrange(0, sep.len() as int) == sep {
        // find_sub is Some(0) and nothing lies before index 0.
    } else {
        let st = s.subrange(1, s.len() as int);
        lemma_find_sub_first(st, sep);
        assert forall|k: int| match_at(s, sep, k) && k >= 1 implies match_at(
            st,
            sep,
            k - 1,
        ) by {
            assert(st.subrange(k - 1, k - 1 + sep.len() as int) =~= s.subrange(
                k,
                k + sep.len() as int,
            ));
        }
        assert forall|k: int| match_at(st, sep, k) implies match_at(s, sep, k + 1) by {
            assert(s.subrange(k + 1, k + 1 + sep.len() as int) =~= st.subrange(
                k,
                k + sep.len() as int,
            ));
        }
        match find_sub(st, sep) {
            Some(i) => {
                assert(match_at(s, sep, i + 1));
                assert forall|k: int| 0 <= k < i + 1 implies !match_at(s, sep, k) by {
                    if k >= 1 {
                        assert(!match_at(st, sep, k - 1));
                    }
                }
            },
            None => {
                assert forall|k: int| !match_at(s, sep, k) by {
                    if k >= 1 && match_at(s, sep, k) {
                        assert(match_at(st, sep, k - 1));
                    }
                }
            },
        }
    }
}

#[via_fn]
proof fn split_seq_decreases(s: Seq<char>, sep: Seq<char>) {
    if sep.len() > 0 {
        lemma_find_sub_first(s, sep);
    }
}

/// The segments of `s` between consecutive occurrences of `sep`, in order.
/// A sequence without the separator is one segment; each occurrence of the
/// separator adds one more, so adjacent separators yield empty segments.
pub open spec fn split_seq(s: Seq<char>, sep: Seq<char>) -> Seq<Seq<char>>
    decreases s.len(),
    via split_seq_decreases
{
    if sep.len() == 0 {
        seq![s]
    } else {
        match find_sub(s, sep) {
            None => seq![s],
            Some(i) => seq![s.subrange(0, i)] + split_seq(
                s.subrange(i + sep.len() as int, s.len() as int),
                sep,
            ),
        }
    }
}

/// `split_seq` always yields at least one segment.
pub proof fn lemma_split_seq_nonempty(s: Seq<char>, sep: Seq<char>)
    ensures
        split_seq(s, sep).len() >= 1,
    decreases s.len(),
{
    if sep.len() > 0 {
        lemma_find_sub_first(s, sep);
    }
}

/// Index of the leftmost occurrence of `sep` in `s`, if any.
pub fn find_in_str(s: &str, sep: &str) -> (r: Option<usize>)
    requires
        sep@.len() >= 1,
    ensures
        match r {
            Some(i) => find_sub(s@, sep@) == Some(i as int),
            None => find_sub(s@, sep@) is None,
        },
{
    let n: usize = s.unicode_len();
    let m: usize = sep.unicode_len();
    proof {
        lemma_find_sub_first(s@, sep@);
    }
    if n < m {
        return None;
    }
    let mut i: usize = 0;
    while i <= n - m
        invariant
            s@.len() == n,
            sep@.len() == m,
            1 <= m <= n,
            i <= n - m + 1,
            forall|k: int| 0 <= k < i ==> !match_at(s@, sep@, k),
        decreases n - m + 1 - i,
    {
        let mut j: usize = 0;
        let mut ok: bool = true;
        while j < m
            invariant
                s@.len() == n,
                sep@.len() == m,
                1 <= m <= n,
                i <= n - m,
                j <= m,
                ok ==> forall|jj: int| 0 <= jj < j ==> s@[i + jj] == sep@[jj],
                !ok ==> !match_at(s@, sep@, i as int),
            decreases m - j,
        {
            let cs: char = s.get_char(i + j);
            let cp: char = sep.get_char(j);
            if cs != cp {
                proof {
                    if match_at(s@, sep@, i as int) {
                        assert(s@.subrange(i as int, i + m as int)[j as int] == s@[i + j]);
                    }
                }
                ok = false;
            }
            j += 1;
        }
        if ok {
            proof {
                assert(s@.subrange(i as int, i + m as int) =~= sep@);
                lemma_find_sub_first(s@, sep@);
                match find_sub(s@, sep@) {
                    Some(i0) => {
                        if i0 < i as int {
                            assert(match_at(s@, sep@, i0));
                        }
                        if i0 > i as int {
                            assert(!match_at(s@, sep@, i as int));
                        }
                    },
                    None => {
                        assert(!match_at(s@, sep@, i as int));
                    },
                }
            }
            return Some(i);
        }
        i += 1;
    }
    proof {
        lemma_find_sub_first(s@, sep@);
        if let Some(i0) = find_sub(s@, sep@) {
            assert(match_at(s@, sep@, i0));
        }
    }
    None
}

/// Splits `s` on every occurrence of `sep`, per [`split_seq`].
pub fn split_str(s: &str, sep: &str) -> (r: Vec<String>)
    requires
        sep@.len() >= 1,
    ensures
        r.deep_view() == split_seq(s@, sep@),
{
    let mut parts: Vec<String> = Vec::new();
    let mut rest: String = s.to_owned();
    proof {
        assert(parts.deep_view() + split_seq(rest@, sep@) =~= split_seq(s@, sep@));
    }
    loop
        invariant_except_break
            parts.deep_view() + split_seq(rest@, sep@) == split_seq(s@, sep@),
        invariant
            sep@.len() >= 1,
        ensures
            parts.deep_view() == split_seq(s@, sep@),
        decreases rest@.len(),
    {
        let ghost parts_before = parts.deep_view();
        match find_in_str(rest.as_str(), sep) {
            None => {
                parts.push(rest.clone());
                proof {
                    assert(parts.deep_view() =~= parts_before + seq![rest@]);
                    assert(parts_before + seq![rest@] =~= split_seq(s@, sep@));
                }
                break ;
            },
            Some(i) => {
                proof {
                    lemma_find_sub_first(rest@, sep@);
                }
                let m: usize = sep.unicode_len();
                let len: usize = rest.as_str().unicode_len();
                let piece: String = rest.as_str().substring_char(0, i).to_owned();
                let new_rest: String = rest.as_str().substring_char(i + m, len).to_owned();
                parts.push(piece);
                rest = new_rest;
                proof {
                    assert(parts.deep_view() =~= parts_before + seq![piece@]);
                    assert((parts_before + seq![piece@]) + split_seq(rest@, sep@)
                        =~= parts_before + (seq![piece@] + split_seq(rest@, sep@)));
                }
            },
        }
    }
    parts
}

} // verus!
