//! Whole numbers in decimal notation, as they stand in messages and in the
//! process environment.
//!
//! A number is written as an optional sign and one or more of the digits `0`
//! to `9`, with nothing before or after. The minus sign is taken only where
//! the range asked for reaches below zero.

use crate::text::{chars_of, split, split_bounds, trim, trim_bounds};
use vstd::prelude::*;
use vstd::string::StringExecFns;

verus! {

/// Whether `c` is one of the ten decimal digits.
pub open spec fn is_digit(c: char) -> bool {
    '0' <= c <= '9'
}

/// Whether `s` holds decimal digits only.
pub open spec fn all_digits(s: Seq<char>) -> bool {
    forall|i: int| 0 <= i < s.len() ==> is_digit(#[trigger] s[i])
}

/// The number that a digit stands for.
pub open spec fn digit_value(c: char) -> int {
    c as int - '0' as int
}

/// The number that a run of digits stands for; the empty run stands for 0.
pub open spec fn decimal_value(digits: Seq<char>) -> int
    decreases digits.len(),
{
    if digits.len() == 0 {
        0
    } else {
        decimal_value(digits.drop_last()) * 10 + digit_value(digits.last())
    }
}

/// Whether `s` begins with a sign that a number in a range from `min`
/// upwards may carry.
pub open spec fn has_sign(s: Seq<char>, min: int) -> bool {
    s.len() > 0 && (s[0] == '+' || (s[0] == '-' && min < 0))
}

/// The number written in `s`, if `s` is a number between `min` and `max`.
pub open spec fn int_of(s: Seq<char>, min: int, max: int) -> Option<int> {
    let digits = if has_sign(s, min) {
        s.drop_first()
    } else {
        s
    };
    let value = if has_sign(s, min) && s[0] == '-' {
        -decimal_value(digits)
    } else {
        decimal_value(digits)
    };
    if digits.len() > 0 && all_digits(digits) && min <= value <= max {
        Some(value)
    } else {
        None
    }
}

/// The unsigned 64-bit number written in `s`.
pub open spec fn u64_of(s: Seq<char>) -> Option<u64> {
    match int_of(s, 0, u64::MAX as int) {
        Some(value) => Some(value as u64),
        None => None,
    }
}

/// The unsigned 32-bit number written in `s`.
pub open spec fn u32_of(s: Seq<char>) -> Option<u32> {
    match int_of(s, 0, u32::MAX as int) {
        Some(value) => Some(value as u32),
        None => None,
    }
}

/// The signed 64-bit number written in `s`.
pub open spec fn i64_of(s: Seq<char>) -> Option<i64> {
    match int_of(s, i64::MIN as int, i64::MAX as int) {
        Some(value) => Some(value as i64),
        None => None,
    }
}

/// A run of digits stands for at least as much as each of its beginnings.
pub proof fn lemma_decimal_value_grows(digits: Seq<char>, n: int)
    requires
        all_digits(digits),
        0 <= n <= digits.len(),
    ensures
        0 <= decimal_value(digits.take(n)) <= decimal_value(digits),
    decreases digits.len() - n,
{
    if n == digits.len() {
        assert(digits.take(n) =~= digits);
        lemma_decimal_value_nonnegative(digits);
    } else {
        lemma_decimal_value_grows(digits, n + 1);
        assert(digits.take(n + 1).drop_last() =~= digits.take(n));
        assert(is_digit(digits.take(n + 1).last()));
        lemma_decimal_value_nonnegative(digits.take(n));
    }
}

/// A run of digits never stands for a negative number.
pub proof fn lemma_decimal_value_nonnegative(digits: Seq<char>)
    requires
        all_digits(digits),
    ensures
        decimal_value(digits) >= 0,
    decreases digits.len(),
{
    if digits.len() > 0 {
        assert(is_digit(digits.last()));
        lemma_decimal_value_nonnegative(digits.drop_last());
    }
}

/// Reads the number that stands in `chars` from `from` up to `to`, if it is
/// one between `min` and `max`.
#[verifier::loop_isolation(false)]
pub fn parse_int(chars: &Vec<char>, from: usize, to: usize, min: i128, max: i128) -> (value: Option<
    i128,
>)
    requires
        from <= to <= chars.len(),
        -0x8000_0000_0000_0000 <= min <= 0 <= max <= 0xFFFF_FFFF_FFFF_FFFF,
    ensures
        value matches Some(v) ==> int_of(chars@.subrange(from as int, to as int), min as int, max as int)
            == Some(v as int),
        value is None ==> int_of(chars@.subrange(from as int, to as int), min as int, max as int)
            is None,
{
    let ghost s = chars@.subrange(from as int, to as int);
    if from == to {
        return None;
    }
    let first = chars[from];
    assert(first == s[0]);
    let negative = first == '-' && min < 0;
    let signed = first == '+' || negative;
    let start = if signed {
        from + 1
    } else {
        from
    };
    let ghost digits = chars@.subrange(start as int, to as int);
    assert(signed == has_sign(s, min as int));
    assert(digits =~= if signed {
        s.drop_first()
    } else {
        s
    });
    if start == to {
        return None;
    }
    let limit: i128 = if negative {
        -min
    } else {
        max
    };
    let mut magnitude: i128 = 0;
    let mut i: usize = start;
    while i < to
        invariant
            start <= i <= to <= chars.len(),
            digits == chars@.subrange(start as int, to as int),
            all_digits(digits.take(i - start)),
            magnitude == decimal_value(digits.take(i - start)),
            0 <= magnitude <= limit <= 0xFFFF_FFFF_FFFF_FFFF,
        decreases to - i,
    {
        let c = chars[i];
        assert(c == digits[i - start]);
        if !('0' <= c && c <= '9') {
            assert(!all_digits(digits));
            return None;
        }
        let d: i128 = (c as u32 - '0' as u32) as i128;
        assert(d == digit_value(c));
        assert(digits.take(i - start + 1).drop_last() =~= digits.take(i - start));
        assert(digits.take(i - start + 1).last() == c);
        assert(all_digits(digits.take(i - start + 1))) by {
            assert forall|j: int| 0 <= j < i - start + 1 implies is_digit(
                #[trigger] digits.take(i - start + 1)[j],
            ) by {
                if j < i - start {
                    assert(digits.take(i - start + 1)[j] == digits.take(i - start)[j]);
                }
            }
        }
        if d > limit || magnitude > (limit - d) / 10 {
            proof {
                if all_digits(digits) {
                    lemma_decimal_value_grows(digits, i - start + 1);
                }
            }
            return None;
        }
        magnitude = magnitude * 10 + d;
        i += 1;
    }
    assert(digits.take(to - start) =~= digits);
    if negative {
        Some(-magnitude)
    } else {
        Some(magnitude)
    }
}

/// Reads an unsigned 64-bit number.
pub fn parse_u64(s: &str) -> (value: Option<u64>)
    ensures
        value == u64_of(s@),
{
    let chars = chars_of(s);
    assert(chars@.subrange(0, chars.len() as int) =~= s@);
    match parse_int(&chars, 0, chars.len(), 0, 0xFFFF_FFFF_FFFF_FFFF) {
        Some(v) => Some(v as u64),
        None => None,
    }
}

/// Reads an unsigned 32-bit number.
pub fn parse_u32(s: &str) -> (value: Option<u32>)
    ensures
        value == u32_of(s@),
{
    let chars = chars_of(s);
    assert(chars@.subrange(0, chars.len() as int) =~= s@);
    match parse_int(&chars, 0, chars.len(), 0, 0xFFFF_FFFF) {
        Some(v) => Some(v as u32),
        None => None,
    }
}

/// Reads a signed 64-bit number.
pub fn parse_i64(s: &str) -> (value: Option<i64>)
    ensures
        value == i64_of(s@),
{
    let chars = chars_of(s);
    assert(chars@.subrange(0, chars.len() as int) =~= s@);
    match parse_int(&chars, 0, chars.len(), -0x8000_0000_0000_0000, 0x7FFF_FFFF_FFFF_FFFF) {
        Some(v) => Some(v as i64),
        None => None,
    }
}

/// The numbers written in `s`, separated by commas, each between `min` and
/// `max`. White space around a number does not count. There is no list if
/// any piece between two commas is not such a number; the empty text has one
/// empty piece and so is no list.
pub open spec fn int_list_of(s: Seq<char>, min: int, max: int) -> Option<Seq<int>> {
    let items = split(s, ',');
    if forall|i: int| 0 <= i < items.len() ==> int_of(trim(#[trigger] items[i]), min, max) is Some {
        Some(Seq::new(items.len(), |i: int| int_of(trim(items[i]), min, max)->0))
    } else {
        None
    }
}

/// The unsigned 64-bit numbers written in `s`, separated by commas.
pub open spec fn u64_list_of(s: Seq<char>) -> Option<Seq<u64>> {
    match int_list_of(s, 0, u64::MAX as int) {
        Some(values) => Some(values.map_values(|v: int| v as u64)),
        None => None,
    }
}

/// The signed 64-bit numbers written in `s`, separated by commas.
pub open spec fn i64_list_of(s: Seq<char>) -> Option<Seq<i64>> {
    match int_list_of(s, i64::MIN as int, i64::MAX as int) {
        Some(values) => Some(values.map_values(|v: int| v as i64)),
        None => None,
    }
}

/// Reads a list of numbers between `min` and `max`, separated by commas.
pub fn parse_int_list(s: &str, min: i128, max: i128) -> (list: Option<Vec<i128>>)
    requires
        -0x8000_0000_0000_0000 <= min <= 0 <= max <= 0xFFFF_FFFF_FFFF_FFFF,
    ensures
        list matches Some(values) ==> int_list_of(s@, min as int, max as int) == Some(
            values@.map_values(|v: i128| v as int),
        ) && forall|k: int| 0 <= k < values.len() ==> min <= #[trigger] values[k] <= max,
        list is None ==> int_list_of(s@, min as int, max as int) is None,
{
    let chars = chars_of(s);
    let items = split_bounds(&chars, ',');
    let ghost pieces = split(s@, ',');
    let mut values: Vec<i128> = Vec::new();
    let mut i: usize = 0;
    while i < items.len()
        invariant
            chars@ == s@,
            pieces == split(s@, ','),
            items.len() == pieces.len(),
            forall|k: int|
                0 <= k < items.len() ==> (#[trigger] items[k]).0 <= items[k].1 <= chars.len()
                    && chars@.subrange(items[k].0 as int, items[k].1 as int) == pieces[k],
            i <= items.len(),
            values.len() == i,
            forall|k: int|
                0 <= k < i ==> int_of(trim(#[trigger] pieces[k]), min as int, max as int) == Some(
                    values[k] as int,
                ),
            -0x8000_0000_0000_0000 <= min <= 0 <= max <= 0xFFFF_FFFF_FFFF_FFFF,
        decreases items.len() - i,
    {
        let (from, to) = items[i];
        let (a, b) = trim_bounds(&chars, from, to);
        match parse_int(&chars, a, b, min, max) {
            Some(value) => {
                values.push(value);
            },
            None => {
                assert(int_of(trim(pieces[i as int]), min as int, max as int) is None);
                return None;
            },
        }
        i += 1;
    }
    assert(values@.map_values(|v: i128| v as int) =~= Seq::new(
        pieces.len(),
        |k: int| int_of(trim(pieces[k]), min as int, max as int)->0,
    ));
    assert forall|k: int| 0 <= k < values.len() implies min <= #[trigger] values[k] <= max by {
        assert(int_of(trim(pieces[k]), min as int, max as int) == Some(values[k] as int));
    }
    Some(values)
}

/// Reads a list of unsigned 64-bit numbers, separated by commas.
pub fn parse_u64_list(s: &str) -> (list: Option<Vec<u64>>)
    ensures
        list matches Some(values) ==> u64_list_of(s@) == Some(values@),
        list is None ==> u64_list_of(s@) is None,
{
    match parse_int_list(s, 0, 0xFFFF_FFFF_FFFF_FFFF) {
        Some(values) => {
            let mut list: Vec<u64> = Vec::new();
            let mut i: usize = 0;
            while i < values.len()
                invariant
                    i <= values.len(),
                    list.len() == i,
                    forall|k: int| 0 <= k < values.len() ==> 0 <= #[trigger] values[k] <= u64::MAX,
                    forall|k: int| 0 <= k < i ==> #[trigger] list[k] == values[k],
                decreases values.len() - i,
            {
                list.push(values[i] as u64);
                i += 1;
            }
            assert(list@ =~= values@.map_values(|v: i128| v as int).map_values(
                |v: int| v as u64,
            ));
            Some(list)
        },
        None => None,
    }
}

/// Reads a list of signed 64-bit numbers, separated by commas.
pub fn parse_i64_list(s: &str) -> (list: Option<Vec<i64>>)
    ensures
        list matches Some(values) ==> i64_list_of(s@) == Some(values@),
        list is None ==> i64_list_of(s@) is None,
{
    match parse_int_list(s, -0x8000_0000_0000_0000, 0x7FFF_FFFF_FFFF_FFFF) {
        Some(values) => {
            let mut list: Vec<i64> = Vec::new();
            let mut i: usize = 0;
            while i < values.len()
                invariant
                    i <= values.len(),
                    list.len() == i,
                    forall|k: int|
                        0 <= k < values.len() ==> i64::MIN <= #[trigger] values[k] <= i64::MAX,
                    forall|k: int| 0 <= k < i ==> #[trigger] list[k] == values[k],
                decreases values.len() - i,
            {
                list.push(values[i] as i64);
                i += 1;
            }
            assert(list@ =~= values@.map_values(|v: i128| v as int).map_values(
                |v: int| v as i64,
            ));
            Some(list)
        },
        None => None,
    }
}

/// The digit that stands for `d`, a number below ten.
pub open spec fn digit_char(d: int) -> char {
    if d == 0 {
        '0'
    } else if d == 1 {
        '1'
    } else if d == 2 {
        '2'
    } else if d == 3 {
        '3'
    } else if d == 4 {
        '4'
    } else if d == 5 {
        '5'
    } else if d == 6 {
        '6'
    } else if d == 7 {
        '7'
    } else if d == 8 {
        '8'
    } else {
        '9'
    }
}

/// The digits of `n` in decimal notation, without leading zeros.
pub open spec fn decimal_digits(n: nat) -> Seq<char>
    decreases n,
{
    if n < 10 {
        seq![digit_char(n as int)]
    } else {
        decimal_digits(n / 10).push(digit_char((n % 10) as int))
    }
}

/// `i` in decimal notation: a minus sign if it is negative, then its
/// digits.
pub open spec fn decimal(i: int) -> Seq<char> {
    if i < 0 {
        seq!['-'] + decimal_digits((-i) as nat)
    } else {
        decimal_digits(i as nat)
    }
}

/// The digit for `d` as a text of one character.
fn digit_text(d: u64) -> (text: &'static str)
    requires
        d < 10,
    ensures
        text@ == seq![digit_char(d as int)],
{
    proof {
        reveal_strlit("0");
        reveal_strlit("1");
        reveal_strlit("2");
        reveal_strlit("3");
        reveal_strlit("4");
        reveal_strlit("5");
        reveal_strlit("6");
        reveal_strlit("7");
        reveal_strlit("8");
        reveal_strlit("9");
    }
    let text = if d == 0 {
        "0"
    } else if d == 1 {
        "1"
    } else if d == 2 {
        "2"
    } else if d == 3 {
        "3"
    } else if d == 4 {
        "4"
    } else if d == 5 {
        "5"
    } else if d == 6 {
        "6"
    } else if d == 7 {
        "7"
    } else if d == 8 {
        "8"
    } else {
        "9"
    };
    assert(text@ =~= seq![digit_char(d as int)]);
    text
}

/// Writes `n` in decimal notation.
pub fn render_u64(n: u64) -> (text: String)
    ensures
        text@ == decimal(n as int),
    decreases n,
{
    if n < 10 {
        String::from_str(digit_text(n))
    } else {
        let mut text = render_u64(n / 10);
        text.append(digit_text(n % 10));
        assert(text@ =~= decimal_digits((n / 10) as nat).push(digit_char((n % 10) as int)));
        text
    }
}

/// Writes `i` in decimal notation.
pub fn render_i64(i: i64) -> (text: String)
    ensures
        text@ == decimal(i as int),
{
    if i < 0 {
        let magnitude: u64 = (-(i as i128)) as u64;
        let mut text = String::from_str("-");
        proof {
            reveal_strlit("-");
        }
        text.append(render_u64(magnitude).as_str());
        assert(text@ =~= seq!['-'] + decimal_digits((-i) as nat));
        text
    } else {
        render_u64(i as u64)
    }
}

/// A whole number of a fixed width that serves as an identifier.
pub trait Number: Copy {
    /// The number itself.
    spec fn value(self) -> int;

    /// Different identifiers are different numbers.
    proof fn lemma_value_tells_apart(a: Self, b: Self)
        ensures
            a.value() == b.value() ==> a == b,
    ;

    /// Whether `self` is the smaller number.
    fn below(self, other: Self) -> (smaller: bool)
        ensures
            smaller == (self.value() < other.value()),
    ;

    /// The number in decimal notation.
    fn render(self) -> (text: String)
        ensures
            text@ == decimal(self.value()),
    ;
}

impl Number for u64 {
    open spec fn value(self) -> int {
        self as int
    }

    proof fn lemma_value_tells_apart(a: Self, b: Self) {
    }

    fn below(self, other: Self) -> (smaller: bool) {
        self < other
    }

    fn render(self) -> (text: String) {
        render_u64(self)
    }
}

impl Number for i64 {
    open spec fn value(self) -> int {
        self as int
    }

    proof fn lemma_value_tells_apart(a: Self, b: Self) {
    }

    fn below(self, other: Self) -> (smaller: bool) {
        self < other
    }

    fn render(self) -> (text: String) {
        render_i64(self)
    }
}

/// The texts of `items` in a row, with `sep` between each two of them.
pub open spec fn join(items: Seq<Seq<char>>, sep: Seq<char>) -> Seq<char>
    decreases items.len(),
{
    if items.len() == 0 {
        Seq::<char>::empty()
    } else if items.len() == 1 {
        items[0]
    } else {
        join(items.drop_last(), sep) + sep + items.last()
    }
}

/// The numbers of `list` in decimal notation, one after the other.
pub open spec fn decimals<T: Number>(list: Seq<T>) -> Seq<Seq<char>> {
    Seq::new(list.len(), |i: int| decimal(list[i].value()))
}

/// Writes the numbers of `list` in decimal notation with commas between
/// them.
pub fn render_list<T: Number>(list: &Vec<T>) -> (text: String)
    ensures
        text@ == join(decimals(list@), seq![',']),
{
    let mut text = String::new();
    let mut i: usize = 0;
    assert(decimals(list@.take(0)) =~= Seq::<Seq<char>>::empty());
    while i < list.len()
        invariant
            i <= list.len(),
            text@ == join(decimals(list@.take(i as int)), seq![',']),
        decreases list.len() - i,
    {
        let ghost before = decimals(list@.take(i as int));
        let ghost now = decimals(list@.take(i + 1));
        assert(now.drop_last() =~= before);
        assert(now.last() == decimal(list[i as int].value()));
        if i > 0 {
            proof {
                reveal_strlit(",");
            }
            text.append(",");
        }
        text.append(list[i].render().as_str());
        assert(text@ =~= join(now, seq![',']));
        i += 1;
    }
    assert(list@.take(list.len() as int) =~= list@);
    text
}

} // verus!
