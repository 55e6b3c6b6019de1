//! Text as sequences of characters: conversion between strings and
//! character vectors, splitting on a delimiter and joining with one.

use vstd::prelude::*;

verus! {

/// `String::push` appends one character to the end of the string.
pub assume_specification[ String::push ](s: &mut String, c: char)
    ensures
        final(s)@ == old(s)@.push(c),
;

/// The characters of `s`, in order.
pub fn chars_of(s: &str) -> (v: Vec<char>)
    ensures
        v@ == s@,
{
    let mut v: Vec<char> = Vec::new();
    for c in it: s.chars()
        invariant
            v@ == it.seq().take(it.index() as int),
            it.seq() == s@,
    {
        v.push(c);
    }
    v
}

/// Appends the characters of `chars` from `from` up to `to` to `out`.
pub(crate) fn push_range(out: &mut String, chars: &Vec<char>, from: usize, to: usize)
    requires
        from <= to <= chars.len(),
    ensures
        final(out)@ == old(out)@ + chars@.subrange(from as int, to as int),
{
    let mut i: usize = from;
    proof {
        assert(out@ =~= old(out)@ + chars@.subrange(from as int, from as int));
    }
    while i < to
        invariant
            from <= i <= to <= chars.len(),
            out@ == old(out)@ + chars@.subrange(from as int, i as int),
        decreases to - i,
    {
        out.push(chars[i]);
        proof {
            assert(out@ =~= old(out)@ + chars@.subrange(from as int, i + 1));
        }
        i += 1;
    }
}

/// Whether two texts are the same.
pub fn same_text(a: &str, b: &str) -> (same: bool)
    ensures
        same == (a@ == b@),
{
    let x = chars_of(a);
    let y = chars_of(b);
    if x.len() != y.len() {
        return false;
    }
    let mut i: usize = 0;
    while i < x.len()
        invariant
            i <= x.len(),
            x.len() == y.len(),
            x@ == a@,
            y@ == b@,
            forall|j: int| 0 <= j < i ==> x@[j] == y@[j],
        decreases x.len() - i,
    {
        if x[i] != y[i] {
            assert(a@[i as int] != b@[i as int]);
            return false;
        }
        i += 1;
    }
    proof {
        assert(x@ =~= y@);
    }
    true
}

/// The texts held by a sequence of strings.
pub open spec fn texts(v: Seq<String>) -> Seq<Seq<char>> {
    Seq::new(v.len(), |i: int| v[i]@)
}

/// The position of the first `d` in `s`, or the length of `s` where it holds none.
pub open spec fn find(s: Seq<char>, d: char) -> int
    decreases s.len(),
{
    if s.len() == 0 || s[0] == d {
        0
    } else {
        1 + find(s.drop_first(), d)
    }
}

/// `find` returns a position at or before the end, before which no `d`
/// stands and at which, unless it is the end, a `d` stands.
pub proof fn lemma_find(s: Seq<char>, d: char)
    ensures
        0 <= find(s, d) <= s.len(),
        forall|j: int| 0 <= j < find(s, d) ==> s[j] != d,
        find(s, d) < s.len() ==> s[find(s, d)] == d,
    decreases s.len(),
{
    if s.len() == 0 || s[0] == d {
    } else {
        let t = s.drop_first();
        lemma_find(t, d);
        assert forall|j: int| 0 <= j < find(s, d) implies s[j] != d by {
            if j > 0 {
                assert(s[j] == t[j - 1]);
            }
        }
        if find(s, d) < s.len() {
            assert(s[find(s, d)] == t[find(t, d)]);
        }
    }
}

/// A position with no `d` before it, which is the end or holds a `d`, is
/// the one that `find` returns.
pub proof fn lemma_find_is(s: Seq<char>, d: char, i: int)
    requires
        0 <= i <= s.len(),
        forall|j: int| 0 <= j < i ==> s[j] != d,
        i < s.len() ==> s[i] == d,
    ensures
        find(s, d) == i,
{
    lemma_find(s, d);
    let k = find(s, d);
    if k < i {
        assert(s[k] == d);
    } else if k > i {
        assert(s[i] != d);
    }
}

/// Whether `d` occurs nowhere in `s`.
pub open spec fn free_of(s: Seq<char>, d: char) -> bool {
    forall|i: int| 0 <= i < s.len() ==> s[i] != d
}

/// The segments into which the occurrences of `d` cut `s`: one more than
/// there are occurrences, each free of `d`, empty ones included.
pub open spec fn split(s: Seq<char>, d: char) -> Seq<Seq<char>>
    decreases s.len(),
{
    let i = find(s, d);
    if 0 <= i < s.len() {
        seq![s.subrange(0, i)] + split(s.subrange(i + 1, s.len() as int), d)
    } else {
        seq![s]
    }
}

/// The segments of `segs` in order with one `d` between neighbours.
pub open spec fn join(segs: Seq<Seq<char>>, d: char) -> Seq<char>
    decreases segs.len(),
{
    if segs.len() == 0 {
        Seq::empty()
    } else if segs.len() == 1 {
        segs[0]
    } else {
        segs[0] + seq![d] + join(segs.drop_first(), d)
    }
}

/// Whether every segment is free of `d`.
pub open spec fn all_free_of(segs: Seq<Seq<char>>, d: char) -> bool {
    forall|i: int| 0 <= i < segs.len() ==> free_of(#[trigger] segs[i], d)
}

/// A split yields at least one segment, and no segment holds the delimiter.
pub proof fn lemma_split_segments(s: Seq<char>, d: char)
    ensures
        split(s, d).len() >= 1,
        all_free_of(split(s, d), d),
    decreases s.len(),
{
    lemma_find(s, d);
    let i = find(s, d);
    if 0 <= i < s.len() {
        let rest = s.subrange(i + 1, s.len() as int);
        lemma_split_segments(rest, d);
        let head = s.subrange(0, i);
        let out = split(s, d);
        assert forall|k: int| 0 <= k < out.len() implies free_of(#[trigger] out[k], d) by {
            if k == 0 {
                assert(out[0] == head);
            } else {
                assert(out[k] == split(rest, d)[k - 1]);
            }
        }
    } else {
        assert(split(s, d)[0] == s);
    }
}

/// Splitting the join of segments that are free of the delimiter gives
/// the segments back, where there is at least one.
pub proof fn lemma_split_join(segs: Seq<Seq<char>>, d: char)
    requires
        segs.len() >= 1,
        all_free_of(segs, d),
    ensures
        split(join(segs, d), d) == segs,
    decreases segs.len(),
{
    let s = join(segs, d);
    if segs.len() == 1 {
        assert(free_of(segs[0], d));
        lemma_find_is(s, d, s.len() as int);
        assert(split(s, d) =~= segs);
    } else {
        let rest = segs.drop_first();
        assert forall|i: int| 0 <= i < rest.len() implies free_of(#[trigger] rest[i], d) by {
            assert(rest[i] == segs[i + 1]);
        }
        lemma_split_join(rest, d);
        let head = segs[0];
        assert(free_of(head, d));
        let i = head.len() as int;
        assert(s == head + seq![d] + join(rest, d));
        assert forall|j: int| 0 <= j < i implies s[j] != d by {
            assert(s[j] == head[j]);
        }
        assert(s[i] == d);
        lemma_find_is(s, d, i);
        assert(s.subrange(0, i) =~= head);
        assert(s.subrange(i + 1, s.len() as int) =~= join(rest, d));
        assert(split(s, d) =~= segs);
    }
}

/// Appending a segment to at least one other appends the delimiter and
/// the segment to their join.
pub proof fn lemma_join_push(segs: Seq<Seq<char>>, last: Seq<char>, d: char)
    requires
        segs.len() >= 1,
    ensures
        join(segs.push(last), d) == join(segs, d) + seq![d] + last,
    decreases segs.len(),
{
    let all = segs.push(last);
    if segs.len() == 1 {
        assert(all.drop_first() =~= seq![last]);
        assert(join(all.drop_first(), d) == last);
    } else {
        let rest = segs.drop_first();
        lemma_join_push(rest, last, d);
        assert(all.drop_first() =~= rest.push(last));
        assert(join(all, d) =~= join(segs, d) + seq![d] + last);
    }
}

/// Cuts `text` at every `delimiter`.
pub fn split_text(text: &str, delimiter: char) -> (segments: Vec<String>)
    ensures
        texts(segments@) == split(text@, delimiter),
{
    let chars = chars_of(text);
    let n: usize = chars.len();
    let mut segments: Vec<String> = Vec::new();
    let mut current = String::new();
    let mut i: usize = 0;
    let ghost mut start: int = 0;
    proof {
        assert(chars@.subrange(0, n as int) =~= chars@);
        assert(texts(segments@) =~= Seq::<Seq<char>>::empty());
    }
    while i < n
        invariant
            n == chars.len(),
            0 <= start <= i <= n,
            current@ == chars@.subrange(start, i as int),
            forall|j: int| start <= j < i ==> chars@[j] != delimiter,
            texts(segments@) + split(chars@.subrange(start, n as int), delimiter) == split(
                chars@,
                delimiter,
            ),
        decreases n - i,
    {
        let c = chars[i];
        let ghost tail = chars@.subrange(start, n as int);
        if c == delimiter {
            proof {
                assert forall|j: int| 0 <= j < i - start implies tail[j] != delimiter by {
                    assert(tail[j] == chars@[start + j]);
                }
                lemma_find_is(tail, delimiter, i - start);
                assert(tail.subrange(0, i - start) =~= current@);
                assert(tail.subrange(i - start + 1, tail.len() as int) =~= chars@.subrange(
                    i + 1,
                    n as int,
                ));
                assert(texts(segments@.push(current)) =~= texts(segments@) + seq![current@]);
                assert(texts(segments@) + (seq![current@] + split(
                    chars@.subrange(i + 1, n as int),
                    delimiter,
                )) =~= texts(segments@) + seq![current@] + split(
                    chars@.subrange(i + 1, n as int),
                    delimiter,
                ));
            }
            segments.push(current);
            current = String::new();
            proof {
                start = i + 1;
                assert(current@ =~= chars@.subrange(start, i + 1));
            }
        } else {
            current.push(c);
            proof {
                assert(current@ =~= chars@.subrange(start, i + 1));
            }
        }
        i += 1;
    }
    proof {
        let tail = chars@.subrange(start, n as int);
        assert forall|j: int| 0 <= j < tail.len() implies tail[j] != delimiter by {
            assert(tail[j] == chars@[start + j]);
        }
        lemma_find_is(tail, delimiter, tail.len() as int);
        assert(texts(segments@.push(current)) =~= texts(segments@) + seq![current@]);
    }
    segments.push(current);
    segments
}

/// Writes the segments in order with one `delimiter` between neighbours.
pub fn join_text(segments: &Vec<String>, delimiter: char) -> (text: String)
    ensures
        text@ == join(texts(segments@), delimiter),
{
    let mut text = String::new();
    let mut i: usize = 0;
    while i < segments.len()
        invariant
            i <= segments.len(),
            text@ == join(texts(segments@).take(i as int), delimiter),
        decreases segments.len() - i,
    {
        proof {
            let done = texts(segments@).take(i as int);
            assert(texts(segments@).take(i + 1) =~= done.push(segments@[i as int]@));
            if i > 0 {
                lemma_join_push(done, segments@[i as int]@, delimiter);
            } else {
                assert(done.push(segments@[i as int]@) =~= seq![segments@[i as int]@]);
            }
        }
        if i > 0 {
            text.push(delimiter);
        }
        text.append(segments[i].as_str());
        proof {
            if i == 0 {
                assert(text@ =~= segments@[0]@);
            }
        }
        i += 1;
    }
    proof {
        assert(texts(segments@).take(i as int) =~= texts(segments@));
    }
    text
}

/// Whether `c` is one of the characters that part the segments of a
/// save at some level: `|`, `;`, `,`, `:` and the space.
pub open spec fn is_delimiter(c: char) -> bool {
    c == '|' || c == ';' || c == ',' || c == ':' || c == ' '
}

/// Whether `s` holds no delimiter of any level.
pub open spec fn plain(s: Seq<char>) -> bool {
    forall|i: int| 0 <= i < s.len() ==> !is_delimiter(#[trigger] s[i])
}

/// A text and another are plain if and only if the two in a row are.
pub proof fn lemma_plain_concat(a: Seq<char>, b: Seq<char>)
    ensures
        plain(a + b) <==> plain(a) && plain(b),
{
    let s = a + b;
    if plain(a) && plain(b) {
        assert forall|i: int| 0 <= i < s.len() implies !is_delimiter(#[trigger] s[i]) by {
            if i < a.len() {
                assert(s[i] == a[i]);
            } else {
                assert(s[i] == b[i - a.len()]);
            }
        }
    }
    if plain(s) {
        assert forall|i: int| 0 <= i < a.len() implies !is_delimiter(#[trigger] a[i]) by {
            assert(s[i] == a[i]);
        }
        assert forall|i: int| 0 <= i < b.len() implies !is_delimiter(#[trigger] b[i]) by {
            assert(s[a.len() + i] == b[i]);
        }
    }
}

/// A plain text is free of every delimiter.
pub proof fn lemma_plain_free_of(s: Seq<char>, d: char)
    requires
        plain(s),
        is_delimiter(d),
    ensures
        free_of(s, d),
{
    assert forall|i: int| 0 <= i < s.len() implies s[i] != d by {
        assert(!is_delimiter(s[i]));
    }
}

/// Segments that are free of a character stay so when joined with another.
pub proof fn lemma_join_free_of(segs: Seq<Seq<char>>, d: char, c: char)
    requires
        all_free_of(segs, c),
        c != d,
    ensures
        free_of(join(segs, d), c),
    decreases segs.len(),
{
    if segs.len() == 0 {
    } else if segs.len() == 1 {
        assert(free_of(segs[0], c));
    } else {
        let rest = segs.drop_first();
        assert forall|i: int| 0 <= i < rest.len() implies free_of(#[trigger] rest[i], c) by {
            assert(rest[i] == segs[i + 1]);
        }
        lemma_join_free_of(rest, d, c);
        assert(free_of(segs[0], c));
        let s = join(segs, d);
        let head = segs[0];
        let tail = join(rest, d);
        assert forall|i: int| 0 <= i < s.len() implies s[i] != c by {
            if i < head.len() {
                assert(s[i] == head[i]);
            } else if i == head.len() {
                assert(s[i] == d);
            } else {
                assert(s[i] == tail[i - head.len() - 1]);
            }
        }
    }
}

/// The first segments of a split, joined again, split into those segments.
pub proof fn lemma_split_truncated(s: Seq<char>, d: char, k: int)
    requires
        1 <= k <= split(s, d).len(),
    ensures
        split(join(split(s, d).take(k), d), d) == split(s, d).take(k),
{
    lemma_split_segments(s, d);
    let segs = split(s, d);
    let kept = segs.take(k);
    assert forall|i: int| 0 <= i < kept.len() implies free_of(#[trigger] kept[i], d) by {
        assert(kept[i] == segs[i]);
    }
    lemma_split_join(kept, d);
}

} // verus!
