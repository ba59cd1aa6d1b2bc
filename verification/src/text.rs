//! Character-sequence utilities: splitting on a separator, equality, and
//! case-insensitive matching against ASCII names.

use vstd::prelude::*;

verus! {

/// Whether `c` occurs in `s`.
pub open spec fn has_char_spec(s: Seq<char>, c: char) -> bool {
    exists|i: int| 0 <= i < s.len() && s[i] == c
}

/// The pieces of `s` delimited by `sep`, in order. An empty input yields one
/// empty piece; adjacent separators yield empty pieces between them.
pub open spec fn split_spec(s: Seq<char>, sep: char) -> Seq<Seq<char>>
    decreases s.len(),
{
    if s.len() == 0 {
        seq![Seq::<char>::empty()]
    } else if s[0] == sep {
        seq![Seq::<char>::empty()] + split_spec(s.drop_first(), sep)
    } else {
        let r = split_spec(s.drop_first(), sep);
        seq![seq![s[0]] + r[0]] + r.drop_first()
    }
}

/// Splitting always yields at least one piece.
pub proof fn lemma_split_nonempty(s: Seq<char>, sep: char)
    ensures
        split_spec(s, sep).len() >= 1,
    decreases s.len(),
{
    if s.len() != 0 && s[0] != sep {
        lemma_split_nonempty(s.drop_first(), sep);
    }
}

/// If the first separator of `s` stands at `k`, the pieces are the prefix
/// before `k` followed by the pieces of the text after `k`.
pub proof fn lemma_split_first_sep(s: Seq<char>, sep: char, k: int)
    requires
        0 <= k < s.len(),
        s[k] == sep,
        forall|j: int| 0 <= j < k ==> s[j] != sep,
    ensures
        split_spec(s, sep) == seq![s.take(k)] + split_spec(s.skip(k + 1), sep),
    decreases k,
{
    if k == 0 {
        assert(s.take(0) =~= Seq::<char>::empty());
        assert(s.skip(1) =~= s.drop_first());
        assert(split_spec(s, sep) =~= seq![s.take(0)] + split_spec(s.skip(1), sep));
    } else {
        let t = s.drop_first();
        assert(t[k - 1] == sep);
        lemma_split_first_sep(t, sep, k - 1);
        lemma_split_nonempty(t.skip(k), sep);
        assert(t.take(k - 1) =~= s.take(k).drop_first());
        assert(t.skip(k) =~= s.skip(k + 1));
        let r = split_spec(t, sep);
        assert(r == seq![t.take(k - 1)] + split_spec(t.skip(k), sep));
        assert(seq![s[0]] + r[0] =~= s.take(k));
        assert(r.drop_first() =~= split_spec(s.skip(k + 1), sep));
        assert(split_spec(s, sep) =~= seq![s.take(k)] + split_spec(s.skip(k + 1), sep));
    }
}

/// A piece without any separator splits into itself alone.
pub proof fn lemma_split_no_sep(s: Seq<char>, sep: char)
    requires
        forall|j: int| 0 <= j < s.len() ==> s[j] != sep,
    ensures
        split_spec(s, sep) == seq![s],
    decreases s.len(),
{
    if s.len() == 0 {
        assert(s =~= Seq::<char>::empty());
        assert(split_spec(s, sep) =~= seq![s]);
    } else {
        lemma_split_no_sep(s.drop_first(), sep);
        let r = split_spec(s.drop_first(), sep);
        assert(seq![s[0]] + r[0] =~= s);
        assert(r.drop_first() =~= Seq::<Seq<char>>::empty());
        assert(split_spec(s, sep) =~= seq![s]);
    }
}

/// Whether `c` occurs in `s`.
pub fn contains_char(s: &str, c: char) -> (r: bool)
    ensures
        r == has_char_spec(s@, c),
{
    let n = s.unicode_len();
    let mut i: usize = 0;
    while i < n
        invariant
            0 <= i <= n == s@.len(),
            forall|j: int| 0 <= j < i ==> s@[j] != c,
        decreases n - i,
    {
        if s.get_char(i) == c {
            assert(s@[i as int] == c);
            return true;
        }
        i += 1;
    }
    false
}

/// Splits `s` at every occurrence of `sep`.
pub fn split_char(s: &str, sep: char) -> (r: Vec<String>)
    ensures
        r.deep_view() == split_spec(s@, sep),
{
    let n = s.unicode_len();
    let mut r: Vec<String> = Vec::new();
    let mut start: usize = 0;
    let mut i: usize = 0;
    proof {
        assert(s@.skip(0) =~= s@);
        assert(r.deep_view() + split_spec(s@, sep) =~= split_spec(s@, sep));
    }
    while i < n
        invariant
            0 <= start <= i <= n == s@.len(),
            forall|j: int| start <= j < i ==> s@[j] != sep,
            split_spec(s@, sep) == r.deep_view() + split_spec(s@.skip(start as int), sep),
        decreases n - i,
    {
        if s.get_char(i) == sep {
            let piece = s.substring_char(start, i).to_owned();
            proof {
                let rest = s@.skip(start as int);
                let k = i - start;
                assert(rest[k] == sep);
                assert(forall|j: int| 0 <= j < k ==> rest[j] != sep);
                lemma_split_first_sep(rest, sep, k);
                assert(rest.take(k) =~= s@.subrange(start as int, i as int));
                assert(rest.skip(k + 1) =~= s@.skip(i + 1));
            }
            let ghost old_r = r.deep_view();
            r.push(piece);
            proof {
                assert(r.deep_view() =~= old_r.push(piece@));
                assert(old_r.push(piece@) =~= old_r + seq![s@.subrange(start as int, i as int)]);
            }
            start = i + 1;
        }
        i += 1;
    }
    let piece = s.substring_char(start, n).to_owned();
    proof {
        let rest = s@.skip(start as int);
        assert(forall|j: int| 0 <= j < rest.len() ==> rest[j] != sep);
        lemma_split_no_sep(rest, sep);
        assert(rest =~= s@.subrange(start as int, n as int));
    }
    let ghost old_r = r.deep_view();
    r.push(piece);
    proof {
        assert(r.deep_view() =~= old_r.push(piece@));
        assert(old_r.push(piece@) =~= old_r + seq![s@.subrange(start as int, s@.len() as int)]);
    }
    r
}

/// Whether two pieces of text hold the same characters.
pub fn str_eq(a: &str, b: &str) -> (r: bool)
    ensures
        r == (a@ == b@),
{
    let n = a.unicode_len();
    if n != b.unicode_len() {
        return false;
    }
    let mut i: usize = 0;
    while i < n
        invariant
            0 <= i <= n == a@.len(),
            a@.len() == b@.len(),
            forall|j: int| 0 <= j < i ==> a@[j] == b@[j],
        decreases n - i,
    {
        if a.get_char(i) != b.get_char(i) {
            assert(a@[i as int] != b@[i as int]);
            return false;
        }
        i += 1;
    }
    proof {
        assert(a@ =~= b@);
    }
    true
}

/// Whether `s` equals a name given in its lower-case and upper-case ASCII
/// spellings, matching each position against either spelling.
pub open spec fn ci_eq_spec(s: Seq<char>, lo: Seq<char>, up: Seq<char>) -> bool {
    s.len() == lo.len() && forall|i: int| 0 <= i < s.len() ==> (s[i] == lo[i] || s[i] == up[i])
}

/// Case-insensitive match of `s` against an ASCII name spelled out in lower
/// case as `lo` and in upper case as `up`.
pub fn ci_eq(s: &str, lo: &str, up: &str) -> (r: bool)
    requires
        lo@.len() == up@.len(),
    ensures
        r == ci_eq_spec(s@, lo@, up@),
{
    let n = s.unicode_len();
    if n != lo.unicode_len() {
        return false;
    }
    let mut i: usize = 0;
    while i < n
        invariant
            0 <= i <= n == s@.len(),
            s@.len() == lo@.len() == up@.len(),
            forall|j: int| 0 <= j < i ==> (s@[j] == lo@[j] || s@[j] == up@[j]),
        decreases n - i,
    {
        let c = s.get_char(i);
        if !(c == lo.get_char(i) || c == up.get_char(i)) {
            assert(!(s@[i as int] == lo@[i as int] || s@[i as int] == up@[i as int]));
            return false;
        }
        i += 1;
    }
    true
}

} // verus!
