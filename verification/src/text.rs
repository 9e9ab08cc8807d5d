//! Verified character-sequence utilities: splitting on a separator,
//! substring containment and string equality.
//!
//! The filter language and the cache keys are plain strings; everything the
//! engine does with them reduces to these three operations.

use vstd::prelude::*;
use vstd::string::StrSliceExecFns;

verus! {

/// The index of the first occurrence of `c` in `s`, or `s.len()` if `c`
/// does not occur.
pub open spec fn find_char(s: Seq<char>, c: char) -> int
    decreases s.len(),
{
    if s.len() == 0 {
        0
    } else if s[0] == c {
        0
    } else {
        1 + find_char(s.drop_first(), c)
    }
}

pub proof fn lemma_find_char_le(s: Seq<char>, c: char)
    ensures
        0 <= find_char(s, c) <= s.len(),
    decreases s.len(),
{
    if s.len() != 0 && s[0] != c {
        lemma_find_char_le(s.drop_first(), c);
    }
}

/// If `k` is the position of the first occurrence of `c`, `find_char` says so.
pub proof fn lemma_find_char_is(s: Seq<char>, c: char, k: int)
    requires
        0 <= k < s.len(),
        s[k] == c,
        forall|j: int| 0 <= j < k ==> s[j] != c,
    ensures
        find_char(s, c) == k,
    decreases k,
{
    if k > 0 {
        assert(forall|j: int| 0 <= j < k - 1 ==> s.drop_first()[j] == s[j + 1]);
        lemma_find_char_is(s.drop_first(), c, k - 1);
    }
}

/// If `c` does not occur in `s`, `find_char` returns `s.len()`.
pub proof fn lemma_find_char_none(s: Seq<char>, c: char)
    requires
        forall|j: int| 0 <= j < s.len() ==> s[j] != c,
    ensures
        find_char(s, c) == s.len(),
    decreases s.len(),
{
    if s.len() != 0 {
        assert(forall|j: int| 0 <= j < s.len() - 1 ==> s.drop_first()[j] == s[j + 1]);
        lemma_find_char_none(s.drop_first(), c);
    }
}

/// The segments of `s` delimited by `sep`, in order, empty segments
/// included: the sequence-level meaning of `str::split`.
pub open spec fn split_spec(s: Seq<char>, sep: char) -> Seq<Seq<char>>
    decreases s.len(),
    via split_spec_decreases
{
    let i = find_char(s, sep);
    if i == s.len() {
        seq![s]
    } else {
        seq![s.subrange(0, i)] + split_spec(s.subrange(i + 1, s.len() as int), sep)
    }
}

#[via_fn]
proof fn split_spec_decreases(s: Seq<char>, sep: char) {
    lemma_find_char_le(s, sep);
}

/// Splitting at the first separator: if `s[k]` is the first occurrence of
/// `sep`, the split is the prefix before it followed by the split of the
/// suffix after it.
pub proof fn lemma_split_step(s: Seq<char>, sep: char, k: int)
    requires
        0 <= k < s.len(),
        s[k] == sep,
        forall|j: int| 0 <= j < k ==> s[j] != sep,
    ensures
        split_spec(s, sep) == seq![s.subrange(0, k)] + split_spec(
            s.subrange(k + 1, s.len() as int),
            sep,
        ),
{
    lemma_find_char_is(s, sep, k);
}

/// A separator-free sequence splits into just itself.
pub proof fn lemma_split_whole(s: Seq<char>, sep: char)
    requires
        forall|j: int| 0 <= j < s.len() ==> s[j] != sep,
    ensures
        split_spec(s, sep) == seq![s],
{
    lemma_find_char_none(s, sep);
}

/// Splits `s` on `sep`, returning every segment in order, empty ones
/// included, exactly as `str::split` would.
pub fn split_str(s: &str, sep: char) -> (r: Vec<String>)
    ensures
        r.deep_view() == split_spec(s@, sep),
{
    let len: usize = s.unicode_len();
    let mut r: Vec<String> = Vec::new();
    let mut start: usize = 0;
    let mut i: usize = 0;
    proof {
        assert(s@.subrange(0, len as int) =~= s@);
        assert(r.deep_view() =~= Seq::<Seq<char>>::empty());
        assert(r.deep_view() + split_spec(s@, sep) =~= split_spec(s@, sep));
    }
    while i < len
        invariant
            start <= i <= len,
            len == s@.len(),
            forall|k: int| start <= k < i ==> s@[k] != sep,
            split_spec(s@, sep) == r.deep_view() + split_spec(
                s@.subrange(start as int, len as int),
                sep,
            ),
        decreases len - i,
    {
        if s.get_char(i) == sep {
            let piece = s.substring_char(start, i).to_owned();
            proof {
                let t = s@.subrange(start as int, len as int);
                assert(forall|j: int|
                    0 <= j < i - start ==> t[j] == s@[start + j] && t[j] != sep);
                lemma_split_step(t, sep, i - start);
                assert(t.subrange(0, i - start) =~= s@.subrange(start as int, i as int));
                assert(t.subrange(i - start + 1, t.len() as int) =~= s@.subrange(
                    i + 1,
                    len as int,
                ));
                assert(r.deep_view().push(piece.deep_view()) + split_spec(
                    s@.subrange(i + 1, len as int),
                    sep,
                ) =~= r.deep_view() + (seq![s@.subrange(start as int, i as int)] + split_spec(
                    s@.subrange(i + 1, len as int),
                    sep,
                )));
            }
            let ghost old_r = r.deep_view();
            r.push(piece);
            proof {
                assert(r.deep_view() =~= old_r.push(piece.deep_view()));
            }
            start = i + 1;
        }
        i = i + 1;
    }
    let piece = s.substring_char(start, len).to_owned();
    proof {
        let t = s@.subrange(start as int, len as int);
        assert(forall|j: int| 0 <= j < t.len() ==> t[j] == s@[start + j] && t[j] != sep);
        lemma_split_whole(t, sep);
    }
    let ghost old_r = r.deep_view();
    r.push(piece);
    proof {
        assert(r.deep_view() =~= old_r.push(piece.deep_view()));
        assert(r.deep_view() =~= old_r + seq![s@.subrange(start as int, len as int)]);
    }
    r
}

/// `needle` occurs contiguously somewhere in `hay`.
pub open spec fn contains_seq(hay: Seq<char>, needle: Seq<char>) -> bool {
    exists|i: int|
        0 <= i && i + needle.len() <= hay.len() && #[trigger] hay.subrange(i, i + needle.len())
            == needle
}

/// Whether `hay` has `needle` as a substring, with the empty needle
/// contained in everything, exactly as `str::contains` sees it.
pub fn contains_str(hay: &str, needle: &str) -> (r: bool)
    ensures
        r == contains_seq(hay@, needle@),
{
    let h: usize = hay.unicode_len();
    let n: usize = needle.unicode_len();
    if n > h {
        return false;
    }
    if n == 0 {
        proof {
            assert(hay@.subrange(0, 0 + needle@.len() as int) =~= needle@);
        }
        return true;
    }
    let windows: usize = h - n + 1;
    let mut i: usize = 0;
    while i < windows
        invariant
            0 < n <= h,
            h == hay@.len(),
            n == needle@.len(),
            windows == h - n + 1,
            i <= windows,
            forall|k: int| 0 <= k < i ==> #[trigger] hay@.subrange(k, k + n) != needle@,
        decreases windows - i,
    {
        if window_eq(hay, needle, i) {
            return true;
        }
        i = i + 1;
    }
    false
}

/// Whether the window of `hay` starting at `i` equals `needle`.
fn window_eq(hay: &str, needle: &str, i: usize) -> (r: bool)
    requires
        i + needle@.len() <= hay@.len(),
    ensures
        r == (hay@.subrange(i as int, i + needle@.len()) == needle@),
{
    let n: usize = needle.unicode_len();
    let h: usize = hay.unicode_len();
    let mut j: usize = 0;
    while j < n
        invariant
            n == needle@.len(),
            h == hay@.len(),
            i + n <= h,
            j <= n,
            forall|k: int| 0 <= k < j ==> hay@[i + k] == needle@[k],
        decreases n - j,
    {
        if hay.get_char(i + j) != needle.get_char(j) {
            proof {
                assert(hay@.subrange(i as int, i + needle@.len())[j as int] != needle@[j as int]);
            }
            return false;
        }
        j = j + 1;
    }
    proof {
        assert(hay@.subrange(i as int, i + needle@.len()) =~= needle@);
    }
    true
}

/// Character-for-character string equality.
pub fn str_eq(a: &str, b: &str) -> (r: bool)
    ensures
        r == (a@ == b@),
{
    let n: usize = a.unicode_len();
    if n != b.unicode_len() {
        return false;
    }
    let mut i: usize = 0;
    while i < n
        invariant
            n == a@.len(),
            n == b@.len(),
            i <= n,
            forall|k: int| 0 <= k < i ==> a@[k] == b@[k],
        decreases n - i,
    {
        if a.get_char(i) != b.get_char(i) {
            return false;
        }
        i = i + 1;
    }
    proof {
        assert(a@ =~= b@);
    }
    true
}

} // verus!
