//! Cutting text into pieces: white space at the ends, pieces between
//! separators, and lines.

use vstd::prelude::*;

verus! {

/// Whether `c` is white space in the sense of Unicode's `White_Space`
/// property.
pub open spec fn is_space(c: char) -> bool {
    let code = c as u32;
    ||| 0x09 <= code <= 0x0D
    ||| code == 0x20
    ||| code == 0x85
    ||| code == 0xA0
    ||| code == 0x1680
    ||| 0x2000 <= code <= 0x200A
    ||| code == 0x2028
    ||| code == 0x2029
    ||| code == 0x202F
    ||| code == 0x205F
    ||| code == 0x3000
}

/// `s` without the white space it begins with.
pub open spec fn trim_start(s: Seq<char>) -> Seq<char>
    decreases s.len(),
{
    if s.len() > 0 && is_space(s[0]) {
        trim_start(s.drop_first())
    } else {
        s
    }
}

/// `s` without the white space it ends with.
pub open spec fn trim_end(s: Seq<char>) -> Seq<char>
    decreases s.len(),
{
    if s.len() > 0 && is_space(s.last()) {
        trim_end(s.drop_last())
    } else {
        s
    }
}

/// `s` without the white space at either end.
pub open spec fn trim(s: Seq<char>) -> Seq<char> {
    trim_end(trim_start(s))
}

/// The pieces of `s` between occurrences of `sep`, in order. There is
/// always one piece more than there are separators, so the empty text has
/// one empty piece.
pub open spec fn split(s: Seq<char>, sep: char) -> Seq<Seq<char>>
    decreases s.len(),
{
    if s.len() == 0 {
        seq![Seq::<char>::empty()]
    } else {
        let before = split(s.drop_last(), sep);
        if s.last() == sep {
            before.push(Seq::<char>::empty())
        } else {
            before.update(before.len() - 1, before.last().push(s.last()))
        }
    }
}

/// `piece` without one carriage return at its end, if it has one there.
pub open spec fn strip_cr(piece: Seq<char>) -> Seq<char> {
    if piece.len() > 0 && piece.last() == '\r' {
        piece.drop_last()
    } else {
        piece
    }
}

/// The lines of `s`. A line ends with a line feed, or with a carriage
/// return and a line feed; neither belongs to the line. What stands behind
/// the last line feed is a line too, as it is, unless it is empty.
pub open spec fn lines(s: Seq<char>) -> Seq<Seq<char>> {
    let pieces = split(s, '\n');
    let ended = Seq::new((pieces.len() - 1) as nat, |i: int| strip_cr(pieces[i]));
    if pieces.last().len() == 0 {
        ended
    } else {
        ended.push(pieces.last())
    }
}

/// Splitting always yields at least one piece.
pub proof fn lemma_split_nonempty(s: Seq<char>, sep: char)
    ensures
        split(s, sep).len() > 0,
    decreases s.len(),
{
    if s.len() > 0 {
        lemma_split_nonempty(s.drop_last(), sep);
    }
}

/// The characters of `s`, one by one.
pub fn chars_of(s: &str) -> (chars: Vec<char>)
    ensures
        chars@ == s@,
{
    broadcast use vstd::string::group_string_axioms;

    let mut chars: Vec<char> = Vec::new();
    for c in it: s.chars()
        invariant
            it.seq() == s@,
            chars@ == s@.take(it.index()),
    {
        assert(s@.take(it.index()).push(c) =~= s@.take(it.index() + 1));
        chars.push(c);
    }
    assert(s@.take(s@.len() as int) =~= s@);
    chars
}

/// Whether `a` and `b` hold the same characters.
pub fn same_text(a: &str, b: &str) -> (same: bool)
    ensures
        same == (a@ == b@),
{
    let x = chars_of(a);
    let y = chars_of(b);
    if x.len() != y.len() {
        return false;
    }
    let mut i: usize = 0;
    while i < x.len()
        invariant
            x@ == a@,
            y@ == b@,
            x.len() == y.len(),
            i <= x.len(),
            forall|k: int| 0 <= k < i ==> x[k] == y[k],
        decreases x.len() - i,
    {
        if x[i] != y[i] {
            return false;
        }
        i += 1;
    }
    assert(x@ =~= y@);
    true
}

/// Whether `c` is white space.
pub fn is_whitespace(c: char) -> (space: bool)
    ensures
        space == is_space(c),
{
    let code = c as u32;
    (0x09 <= code && code <= 0x0D) || code == 0x20 || code == 0x85 || code == 0xA0 || code
        == 0x1680 || (0x2000 <= code && code <= 0x200A) || code == 0x2028 || code == 0x2029 || code
        == 0x202F || code == 0x205F || code == 0x3000
}

/// Where the part of `chars` between `from` and `to` begins and ends once
/// the white space at its ends is left out.
pub fn trim_bounds(chars: &Vec<char>, from: usize, to: usize) -> (bounds: (usize, usize))
    requires
        from <= to <= chars.len(),
    ensures
        from <= bounds.0 <= bounds.1 <= to,
        chars@.subrange(bounds.0 as int, bounds.1 as int) == trim(
            chars@.subrange(from as int, to as int),
        ),
{
    let mut a: usize = from;
    while a < to && is_whitespace(chars[a])
        invariant
            from <= a <= to <= chars.len(),
            trim_start(chars@.subrange(from as int, to as int)) == trim_start(
                chars@.subrange(a as int, to as int),
            ),
        decreases to - a,
    {
        assert(chars@.subrange(a as int, to as int).drop_first() =~= chars@.subrange(
            a + 1,
            to as int,
        ));
        a += 1;
    }
    let mut b: usize = to;
    while a < b && is_whitespace(chars[b - 1])
        invariant
            a <= b <= to <= chars.len(),
            trim_end(chars@.subrange(a as int, to as int)) == trim_end(
                chars@.subrange(a as int, b as int),
            ),
        decreases b - a,
    {
        assert(chars@.subrange(a as int, b as int).drop_last() =~= chars@.subrange(
            a as int,
            b - 1,
        ));
        b -= 1;
    }
    (a, b)
}

/// Where the pieces of `chars` between occurrences of `sep` begin and end.
pub fn split_bounds(chars: &Vec<char>, sep: char) -> (parts: Vec<(usize, usize)>)
    ensures
        parts.len() == split(chars@, sep).len(),
        forall|i: int|
            0 <= i < parts.len() ==> (#[trigger] parts[i]).0 <= parts[i].1 <= chars.len()
                && chars@.subrange(parts[i].0 as int, parts[i].1 as int) == split(chars@, sep)[i],
{
    let mut parts: Vec<(usize, usize)> = Vec::new();
    let mut start: usize = 0;
    let mut i: usize = 0;
    while i < chars.len()
        invariant
            start <= i <= chars.len(),
            parts.len() + 1 == split(chars@.take(i as int), sep).len(),
            forall|k: int|
                0 <= k < parts.len() ==> (#[trigger] parts[k]).0 <= parts[k].1 <= i
                    && chars@.subrange(parts[k].0 as int, parts[k].1 as int) == split(
                    chars@.take(i as int),
                    sep,
                )[k],
            chars@.subrange(start as int, i as int) == split(chars@.take(i as int), sep).last(),
        decreases chars.len() - i,
    {
        let ghost before = split(chars@.take(i as int), sep);
        assert(chars@.take(i + 1).drop_last() =~= chars@.take(i as int));
        assert(chars@.take(i + 1).last() == chars[i as int]);
        if chars[i] == sep {
            parts.push((start, i));
            start = i + 1;
            assert(chars@.subrange(start as int, i + 1) =~= Seq::<char>::empty());
        } else {
            assert(chars@.subrange(start as int, i + 1) =~= chars@.subrange(
                start as int,
                i as int,
            ).push(chars[i as int]));
        }
        i += 1;
    }
    assert(chars@.take(chars.len() as int) =~= chars@);
    parts.push((start, chars.len()));
    parts
}

/// Where the lines of `chars` begin and end.
pub fn line_bounds(chars: &Vec<char>) -> (parts: Vec<(usize, usize)>)
    ensures
        parts.len() == lines(chars@).len(),
        forall|i: int|
            0 <= i < parts.len() ==> (#[trigger] parts[i]).0 <= parts[i].1 <= chars.len()
                && chars@.subrange(parts[i].0 as int, parts[i].1 as int) == lines(chars@)[i],
{
    let pieces = split_bounds(chars, '\n');
    let ghost split_pieces = split(chars@, '\n');
    proof {
        lemma_split_nonempty(chars@, '\n');
    }
    let mut parts: Vec<(usize, usize)> = Vec::new();
    let mut i: usize = 0;
    while i + 1 < pieces.len()
        invariant
            pieces.len() == split_pieces.len(),
            split_pieces == split(chars@, '\n'),
            pieces.len() > 0,
            i + 1 <= pieces.len(),
            forall|k: int|
                0 <= k < pieces.len() ==> (#[trigger] pieces[k]).0 <= pieces[k].1 <= chars.len()
                    && chars@.subrange(pieces[k].0 as int, pieces[k].1 as int) == split_pieces[k],
            parts.len() == i,
            forall|k: int|
                0 <= k < i ==> (#[trigger] parts[k]).0 <= parts[k].1 <= chars.len()
                    && chars@.subrange(parts[k].0 as int, parts[k].1 as int) == strip_cr(
                    split_pieces[k],
                ),
        decreases pieces.len() - i,
    {
        let (from, to) = pieces[i];
        let ghost piece = chars@.subrange(from as int, to as int);
        if from < to && chars[to - 1] == '\r' {
            assert(piece.last() == '\r');
            assert(piece.drop_last() =~= chars@.subrange(from as int, to - 1));
            parts.push((from, to - 1));
        } else {
            assert(piece.len() > 0 ==> piece.last() == chars[to - 1]);
            parts.push((from, to));
        }
        i += 1;
    }
    let (from, to) = pieces[pieces.len() - 1];
    if from < to {
        parts.push((from, to));
    }
    assert(parts.len() == lines(chars@).len());
    assert forall|k: int| 0 <= k < parts.len() implies (#[trigger] parts[k]).0 <= parts[k].1
        <= chars.len() && chars@.subrange(parts[k].0 as int, parts[k].1 as int) == lines(
        chars@,
    )[k] by {
        if k < pieces.len() - 1 {
            assert(lines(chars@)[k] == strip_cr(split_pieces[k]));
        }
    }
    parts
}

} // verus!
