//! Text helpers: UTF-8 decoding, building strings character by character.
use vstd::prelude::*;
use vstd::utf8::*;

verus! {

/// `String::push` appends one character at the end (std documentation).
pub assume_specification[ String::push ](s: &mut String, ch: char)
    ensures
        final(s)@ == old(s)@.push(ch),
;

/// Every character takes at least one byte.
pub proof fn lemma_encode_utf8_at_least(chars: Seq<char>)
    ensures
        chars.len() <= encode_utf8(chars).len(),
    decreases chars.len(),
{
    if chars.len() > 0 {
        lemma_encode_utf8_at_least(chars.drop_first());
    }
}

/// Decoded UTF-8 has no more characters than bytes.
pub proof fn lemma_decode_utf8_len(bytes: Seq<u8>)
    requires
        valid_utf8(bytes),
    ensures
        decode_utf8(bytes).len() <= bytes.len(),
{
    decode_utf8_encode_utf8(bytes);
    lemma_encode_utf8_at_least(decode_utf8(bytes));
}

/// Decodes `bytes` as UTF-8 through `String::from_utf8`.
///
/// Trusted: std documents that `String::from_utf8` succeeds exactly when the
/// bytes are valid UTF-8, and that the string then holds the decoded characters.
#[verifier::external_body]
pub(crate) fn utf8_string(bytes: &[u8]) -> (res: Option<String>)
    ensures
        res is Some <==> valid_utf8(bytes@),
        res matches Some(s) ==> s@ == decode_utf8(bytes@),
{
    String::from_utf8(bytes.to_vec()).ok()
}

/// The characters of `s`, in order.
pub fn chars_of(s: &str) -> (res: Vec<char>)
    ensures
        res@ == s@,
{
    let mut res: Vec<char> = Vec::new();
    for c in it: s.chars()
        invariant
            res@ == it.seq().take(it.index() as int),
            it.seq() == s@,
    {
        res.push(c);
        assert(it.seq().take(it.index() as int).push(c) == it.seq().take(it.index() + 1));
    }
    res
}

/// Appends every character of `tail` to `s`.
pub fn push_all(s: &mut String, tail: &str)
    ensures
        final(s)@ == old(s)@ + tail@,
{
    let cs = chars_of(tail);
    let mut i: usize = 0;
    while i < cs.len()
        invariant
            i <= cs.len(),
            cs@ == tail@,
            s@ == old(s)@ + tail@.take(i as int),
        decreases cs.len() - i,
    {
        s.push(cs[i]);
        assert(old(s)@ + tail@.take(i as int) + seq![tail@[i as int]] == old(s)@ + tail@.take(i + 1));
        i = i + 1;
    }
    assert(tail@.take(cs.len() as int) == tail@);
}

/// Whether two byte strings are equal.
pub fn bytes_eq(a: &[u8], b: &[u8]) -> (res: bool)
    ensures
        res == (a@ == b@),
{
    if a.len() != b.len() {
        return false;
    }
    let mut i: usize = 0;
    while i < a.len()
        invariant
            a.len() == b.len(),
            i <= a.len(),
            forall|j: int| 0 <= j < i ==> a@[j] == b@[j],
        decreases a.len() - i,
    {
        if a[i] != b[i] {
            return false;
        }
        i = i + 1;
    }
    assert(a@ =~= b@);
    true
}

/// Whether `prefix` is a prefix of `s`.
pub fn starts_with(s: &str, prefix: &str) -> (res: bool)
    ensures
        res == prefix@.is_prefix_of(s@),
{
    let x = chars_of(s);
    let p = chars_of(prefix);
    if p.len() > x.len() {
        return false;
    }
    let mut i: usize = 0;
    while i < p.len()
        invariant
            x@ == s@,
            p@ == prefix@,
            p.len() <= x.len(),
            i <= p.len(),
            forall|j: int| 0 <= j < i ==> p@[j] == x@[j],
        decreases p.len() - i,
    {
        if p[i] != x[i] {
            return false;
        }
        i = i + 1;
    }
    true
}

/// Whether two strings hold the same characters.
pub fn str_eq(a: &str, b: &str) -> (res: bool)
    ensures
        res == (a@ == b@),
{
    let x = chars_of(a);
    let y = chars_of(b);
    if x.len() != y.len() {
        return false;
    }
    let mut i: usize = 0;
    while i < x.len()
        invariant
            x@ == a@,
            y@ == b@,
            x.len() == y.len(),
            i <= x.len(),
            forall|j: int| 0 <= j < i ==> x@[j] == y@[j],
        decreases x.len() - i,
    {
        if x[i] != y[i] {
            return false;
        }
        i = i + 1;
    }
    assert(a@ =~= b@);
    true
}

/// `s` with every occurrence of `pat` (taken left to right, without overlap)
/// replaced by `rep`, as `str::replace` does for a non-empty pattern.
pub open spec fn replaced(s: Seq<char>, pat: Seq<char>, rep: Seq<char>) -> Seq<char>
    decreases s.len(),
{
    if s.len() == 0 {
        s
    } else if pat.len() > 0 && pat.is_prefix_of(s) {
        rep + replaced(s.skip(pat.len() as int), pat, rep)
    } else {
        seq![s[0]] + replaced(s.drop_first(), pat, rep)
    }
}

/// Removing a pattern never makes text longer.
pub proof fn lemma_replaced_empty_len(s: Seq<char>, pat: Seq<char>)
    ensures
        replaced(s, pat, Seq::empty()).len() <= s.len(),
    decreases s.len(),
{
    if s.len() == 0 {
    } else if pat.len() > 0 && pat.is_prefix_of(s) {
        lemma_replaced_empty_len(s.skip(pat.len() as int), pat);
        assert(Seq::<char>::empty() + replaced(s.skip(pat.len() as int), pat, Seq::empty()) == replaced(s.skip(pat.len() as int), pat, Seq::empty()));
    } else {
        lemma_replaced_empty_len(s.drop_first(), pat);
    }
}

/// Whether `pat` occurs in `s` at position `i`.
fn occurs_at(s: &Vec<char>, i: usize, pat: &Vec<char>) -> (res: bool)
    requires
        i <= s.len(),
    ensures
        res == pat@.is_prefix_of(s@.skip(i as int)),
{
    if pat.len() > s.len() - i {
        return false;
    }
    let mut j: usize = 0;
    while j < pat.len()
        invariant
            i <= s.len(),
            pat.len() <= s.len() - i,
            j <= pat.len(),
            forall|k: int| 0 <= k < j ==> pat@[k] == s@[i + k],
        decreases pat.len() - j,
    {
        if pat[j] != s[i + j] {
            return false;
        }
        j = j + 1;
    }
    true
}

/// `s` with every occurrence of `pat` replaced by `rep` (`str::replace`).
pub fn replace_all(s: &str, pat: &str, rep: &str) -> (res: String)
    requires
        pat@.len() > 0,
    ensures
        res@ == replaced(s@, pat@, rep@),
{
    let cs = chars_of(s);
    let ps = chars_of(pat);
    let mut out = String::new();
    let mut i: usize = 0;
    assert(s@.skip(0) == s@);
    while i < cs.len()
        invariant
            cs@ == s@,
            ps@ == pat@,
            pat@.len() > 0,
            i <= cs.len(),
            replaced(s@, pat@, rep@) == out@ + replaced(s@.skip(i as int), pat@, rep@),
        decreases cs.len() - i,
    {
        let ghost rest = s@.skip(i as int);
        let ghost before = out@;
        if occurs_at(&cs, i, &ps) {
            push_all(&mut out, rep);
            assert(rest.skip(pat@.len() as int) == s@.skip(i + ps.len()));
            assert(before + (rep@ + replaced(rest.skip(pat@.len() as int), pat@, rep@)) == out@ + replaced(s@.skip(i + ps.len()), pat@, rep@));
            i = i + ps.len();
        } else {
            out.push(cs[i]);
            assert(rest.drop_first() == s@.skip(i + 1));
            assert(before + (seq![rest[0]] + replaced(rest.drop_first(), pat@, rep@)) == out@ + replaced(s@.skip(i + 1), pat@, rep@));
            i = i + 1;
        }
    }
    assert(s@.skip(i as int) == Seq::<char>::empty());
    assert(out@ + Seq::<char>::empty() == out@);
    out
}

/// The position of the first `c` in `s`, or `s.len()` when there is none.
pub open spec fn find_char(s: Seq<char>, c: char) -> int
    decreases s.len(),
{
    if s.len() == 0 {
        0
    } else if s[0] == c {
        0
    } else {
        1 + find_char(s.drop_first(), c)
    }
}

/// `find_char` is a position of `c`, or the length, and no `c` comes before it.
pub proof fn lemma_find_char(s: Seq<char>, c: char)
    ensures
        0 <= find_char(s, c) <= s.len(),
        find_char(s, c) < s.len() ==> s[find_char(s, c)] == c,
        forall|j: int| 0 <= j < find_char(s, c) ==> s[j] != c,
    decreases s.len(),
{
    if s.len() > 0 && s[0] != c {
        lemma_find_char(s.drop_first(), c);
        assert forall|j: int| 0 <= j < find_char(s, c) implies s[j] != c by {
            if j > 0 {
                assert(s[j] == s.drop_first()[j - 1]);
            }
        }
    }
}

/// The position of the first `c` in `s` at or after `start`, or `s.len()`.
pub fn find_char_from(s: &Vec<char>, start: usize, c: char) -> (res: usize)
    requires
        start <= s.len(),
    ensures
        res == start + find_char(s@.skip(start as int), c),
        start <= res <= s.len(),
{
    let mut i: usize = start;
    let ghost t = s@.skip(start as int);
    proof {
        lemma_find_char(t, c);
    }
    while i < s.len()
        invariant
            start <= i <= s.len(),
            t == s@.skip(start as int),
            0 <= find_char(t, c) <= t.len(),
            find_char(t, c) < t.len() ==> t[find_char(t, c)] == c,
            forall|j: int| 0 <= j < find_char(t, c) ==> t[j] != c,
            forall|j: int| start <= j < i ==> s@[j] != c,
        decreases s.len() - i,
    {
        if s[i] == c {
            proof {
                let f = find_char(t, c);
                assert(t[i - start] == s@[i as int]);
                if f < i - start {
                    assert(t[f] == s@[start + f]);
                }
            }
            return i;
        }
        i = i + 1;
    }
    proof {
        let f = find_char(t, c);
        if f < t.len() {
            assert(t[f] == s@[start + f]);
        }
    }
    i
}

/// The position of the first `c` in `s[start..end]`, or `end` when there is none.
pub fn find_char_between(s: &Vec<char>, start: usize, end: usize, c: char) -> (res: usize)
    requires
        start <= end <= s.len(),
    ensures
        res == start + find_char(s@.subrange(start as int, end as int), c),
        start <= res <= end,
{
    let mut i: usize = start;
    let ghost t = s@.subrange(start as int, end as int);
    proof {
        lemma_find_char(t, c);
    }
    while i < end
        invariant
            start <= i <= end <= s.len(),
            t == s@.subrange(start as int, end as int),
            0 <= find_char(t, c) <= t.len(),
            find_char(t, c) < t.len() ==> t[find_char(t, c)] == c,
            forall|j: int| 0 <= j < find_char(t, c) ==> t[j] != c,
            forall|j: int| start <= j < i ==> s@[j] != c,
        decreases end - i,
    {
        if s[i] == c {
            proof {
                let f = find_char(t, c);
                assert(t[i - start] == s@[i as int]);
                if f < i - start {
                    assert(t[f] == s@[start + f]);
                }
            }
            return i;
        }
        i = i + 1;
    }
    proof {
        let f = find_char(t, c);
        if f < t.len() {
            assert(t[f] == s@[start + f]);
        }
    }
    i
}

/// The pieces of `s` between the occurrences of `sep`, as `str::split` gives them.
pub open spec fn split_on(s: Seq<char>, sep: char) -> Seq<Seq<char>>
    decreases s.len(),
{
    let i = find_char(s, sep);
    if i >= s.len() {
        seq![s]
    } else {
        proof {
            lemma_find_char(s, sep);
        }
        seq![s.take(i)] + split_on(s.skip(i + 1), sep)
    }
}

/// The text of `s` from `start` up to (not including) `end`.
pub fn substring(s: &Vec<char>, start: usize, end: usize) -> (res: String)
    requires
        start <= end <= s.len(),
    ensures
        res@ == s@.subrange(start as int, end as int),
{
    let mut out = String::new();
    let mut i: usize = start;
    while i < end
        invariant
            start <= i <= end <= s.len(),
            out@ == s@.subrange(start as int, i as int),
        decreases end - i,
    {
        out.push(s[i]);
        assert(s@.subrange(start as int, i as int).push(s@[i as int]) == s@.subrange(start as int, i + 1));
        i = i + 1;
    }
    out
}

/// The pieces of `s` between the occurrences of `sep` (`str::split`).
pub fn split_char(s: &str, sep: char) -> (res: Vec<String>)
    ensures
        res@.map_values(|x: String| x@) == split_on(s@, sep),
{
    let cs = chars_of(s);
    let mut out: Vec<String> = Vec::new();
    let mut pos: usize = 0;
    assert(s@.skip(0) == s@);
    loop
        invariant
            cs@ == s@,
            pos <= cs.len(),
            split_on(s@, sep) == out@.map_values(|x: String| x@) + split_on(s@.skip(pos as int), sep),
        decreases cs.len() - pos,
    {
        let end = find_char_from(&cs, pos, sep);
        let piece = substring(&cs, pos, end);
        let ghost rest = s@.skip(pos as int);
        let ghost before = out@.map_values(|x: String| x@);
        proof {
            lemma_find_char(rest, sep);
            assert(rest.take(end - pos) == s@.subrange(pos as int, end as int));
        }
        out.push(piece);
        assert(out@.map_values(|x: String| x@) == before.push(piece@));
        if end == cs.len() {
            assert(split_on(rest, sep) == seq![rest]);
            assert(rest == s@.subrange(pos as int, end as int));
            assert(before + seq![rest] == before.push(piece@));
            assert(before.push(piece@) + split_on(s@.skip(pos as int), sep) == out@.map_values(|x: String| x@) + split_on(s@.skip(pos as int), sep)) by {
                assert(before + seq![rest] =~= before.push(piece@));
            }
            assert(split_on(s@, sep) == out@.map_values(|x: String| x@));
            return out;
        }
        assert(rest.skip(end - pos + 1) == s@.skip(end + 1));
        assert(before + (seq![piece@] + split_on(s@.skip(end + 1), sep)) == out@.map_values(|x: String| x@) + split_on(s@.skip(end + 1), sep));
        pos = end + 1;
    }
}

/// Whether `pat` occurs in `s` (`str::contains`).
pub open spec fn contains_seq(s: Seq<char>, pat: Seq<char>) -> bool {
    exists|i: int| 0 <= i <= s.len() - pat.len() && #[trigger] s.subrange(i, i + pat.len()) == pat
}

/// Whether `pat` occurs in `s`.
pub fn contains_str(s: &str, pat: &str) -> (res: bool)
    ensures
        res == contains_seq(s@, pat@),
{
    let cs = chars_of(s);
    let ps = chars_of(pat);
    if ps.len() > cs.len() {
        return false;
    }
    let mut i: usize = 0;
    while i <= cs.len() - ps.len()
        invariant
            cs@ == s@,
            ps@ == pat@,
            ps.len() <= cs.len(),
            i <= cs.len() - ps.len() + 1,
            forall|k: int| 0 <= k < i ==> #[trigger] s@.subrange(k, k + pat@.len()) != pat@,
        decreases cs.len() - ps.len() + 1 - i,
    {
        if occurs_at(&cs, i, &ps) {
            assert(s@.subrange(i as int, i + pat@.len()) =~= pat@);
            return true;
        }
        assert(s@.subrange(i as int, i + pat@.len()) != pat@) by {
            if s@.subrange(i as int, i + pat@.len()) == pat@ {
                assert(pat@.is_prefix_of(s@.skip(i as int))) by {
                    assert forall|k: int| 0 <= k < pat@.len() implies pat@[k] == s@.skip(i as int)[k] by {
                        assert(s@.subrange(i as int, i + pat@.len())[k] == s@[i + k]);
                    }
                }
            }
        }
        i = i + 1;
    }
    false
}

/// Text in which a pattern does not occur is left as it is by replacing it.
pub proof fn lemma_replaced_absent(s: Seq<char>, pat: Seq<char>, rep: Seq<char>)
    requires
        pat.len() > 0,
        !contains_seq(s, pat),
    ensures
        replaced(s, pat, rep) == s,
    decreases s.len(),
{
    if s.len() > 0 {
        if pat.is_prefix_of(s) {
            let i0: int = 0;
            assert(s.subrange(i0, i0 + pat.len()) =~= pat);
            assert(contains_seq(s, pat));
        }
        let t = s.drop_first();
        if contains_seq(t, pat) {
            let i = choose|i: int| 0 <= i <= t.len() - pat.len() && #[trigger] t.subrange(i, i + pat.len()) == pat;
            assert(s.subrange(i + 1, i + 1 + pat.len()) =~= t.subrange(i, i + pat.len()));
        }
        lemma_replaced_absent(t, pat, rep);
        assert(seq![s[0]] + t =~= s);
    }
}

/// Removing every occurrence of a character leaves none of it.
pub proof fn lemma_replaced_removes(s: Seq<char>, c: char)
    ensures
        !replaced(s, seq![c], Seq::empty()).contains(c),
    decreases s.len(),
{
    if s.len() > 0 {
        let pat = seq![c];
        if pat.is_prefix_of(s) {
            lemma_replaced_removes(s.skip(1), c);
            assert(Seq::<char>::empty() + replaced(s.skip(1), pat, Seq::empty()) =~= replaced(s.skip(1), pat, Seq::empty()));
        } else {
            assert(s[0] != c) by {
                if s[0] == c {
                    assert(s.subrange(0, 1) =~= pat);
                }
            }
            lemma_replaced_removes(s.drop_first(), c);
            let r = replaced(s.drop_first(), pat, Seq::empty());
            assert forall|i: int| 0 <= i < (seq![s[0]] + r).len() implies (seq![s[0]] + r)[i] != c by {
                if i > 0 {
                    assert((seq![s[0]] + r)[i] == r[i - 1]);
                    assert(!r.contains(c));
                }
            }
        }
    }
}

/// Whatever is in `a` or in `b` is in `a + b`.
pub proof fn lemma_concat_keeps<T>(a: Seq<T>, b: Seq<T>)
    ensures
        forall|x: T| #[trigger] a.contains(x) ==> (a + b).contains(x),
        forall|x: T| #[trigger] b.contains(x) ==> (a + b).contains(x),
{
    assert forall|x: T| #[trigger] a.contains(x) implies (a + b).contains(x) by {
        let i = choose|i: int| 0 <= i < a.len() && a[i] == x;
        assert((a + b)[i] == x);
    }
    assert forall|x: T| #[trigger] b.contains(x) implies (a + b).contains(x) by {
        let i = choose|i: int| 0 <= i < b.len() && b[i] == x;
        assert((a + b)[a.len() + i] == x);
    }
}

/// What is in `a + b` is what is in `a` or in `b`.
pub proof fn lemma_concat_contains<T>(a: Seq<T>, b: Seq<T>)
    ensures
        forall|x: T| #[trigger] (a + b).contains(x) <==> a.contains(x) || b.contains(x),
{
    lemma_concat_keeps(a, b);
    assert forall|x: T| #[trigger] (a + b).contains(x) implies a.contains(x) || b.contains(x) by {
        let i = choose|i: int| 0 <= i < (a + b).len() && (a + b)[i] == x;
        if i < a.len() {
            assert(a[i] == x);
        } else {
            assert(b[i - a.len()] == x);
        }
    }
}

} // verus!
