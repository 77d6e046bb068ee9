//! What is written can be read again: a number in decimal notation reads
//! back as itself, and so does a list of numbers between commas, as long as
//! the list is not empty.

use crate::number::{
    all_digits, decimal, decimal_digits, decimal_value, decimals, digit_char, digit_value, i64_list_of,
    int_list_of, int_of, is_digit, join, u64_list_of, Number,
};
use crate::text::{is_space, split, trim, trim_end, trim_start};
use vstd::prelude::*;

verus! {

/// Whether `s` is free of commas and has no white space at either end.
pub open spec fn is_plain(s: Seq<char>) -> bool {
    &&& s.len() > 0
    &&& !s.contains(',')
    &&& !is_space(s[0])
    &&& !is_space(s.last())
}

/// The digits of a number are digits, there is at least one, and they stand
/// for the number.
pub proof fn lemma_digits_read_back(n: nat)
    ensures
        decimal_digits(n).len() > 0,
        all_digits(decimal_digits(n)),
        decimal_value(decimal_digits(n)) == n,
    decreases n,
{
    let last = digit_char((n % 10) as int);
    assert(is_digit(last) && digit_value(last) == n % 10);
    if n < 10 {
        assert(seq![last].drop_last() =~= Seq::<char>::empty());
        assert(decimal_value(Seq::<char>::empty()) == 0);
        assert(decimal_value(seq![last]) == digit_value(last));
    } else {
        lemma_digits_read_back(n / 10);
        let before = decimal_digits(n / 10);
        assert(before.push(last).drop_last() =~= before);
        assert forall|i: int| 0 <= i < before.push(last).len() implies is_digit(
            #[trigger] before.push(last)[i],
        ) by {
            if i < before.len() {
                assert(before.push(last)[i] == before[i]);
            }
        }
    }
}

/// A number in decimal notation holds no comma and neither begins nor ends
/// with white space.
pub proof fn lemma_decimal_is_plain(i: int)
    ensures
        is_plain(decimal(i)),
        trim(decimal(i)) == decimal(i),
{
    let magnitude = if i < 0 {
        (-i) as nat
    } else {
        i as nat
    };
    lemma_digits_read_back(magnitude);
    let digits = decimal_digits(magnitude);
    let written = decimal(i);
    assert(is_digit(digits[0]) && is_digit(digits.last()));
    assert forall|k: int| 0 <= k < written.len() implies #[trigger] written[k] != ',' by {
        if i < 0 {
            if k > 0 {
                assert(written[k] == digits[k - 1]);
                assert(is_digit(digits[k - 1]));
            }
        } else {
            assert(is_digit(digits[k]));
        }
    }
    assert(trim_start(written) == written);
    assert(trim_end(written) == written);
}

/// A number written in decimal notation reads back as itself in every range
/// that holds it.
pub proof fn lemma_decimal_reads_back(i: int, min: int, max: int)
    requires
        min <= i <= max,
        min <= 0,
    ensures
        int_of(decimal(i), min, max) == Some(i),
{
    if i < 0 {
        lemma_digits_read_back((-i) as nat);
        let digits = decimal_digits((-i) as nat);
        assert(decimal(i).drop_first() =~= digits);
    } else {
        lemma_digits_read_back(i as nat);
        let digits = decimal_digits(i as nat);
        assert(is_digit(digits[0]));
    }
}

/// A text without the separator is one piece.
pub proof fn lemma_split_one_piece(s: Seq<char>, sep: char)
    requires
        !s.contains(sep),
    ensures
        split(s, sep) == seq![s],
    decreases s.len(),
{
    if s.len() == 0 {
        assert(s =~= Seq::<char>::empty());
    } else {
        let before = s.drop_last();
        assert forall|k: int| 0 <= k < before.len() implies before[k] != sep by {
            assert(before[k] == s[k]);
            assert(s.contains(s[k]));
        }
        lemma_split_one_piece(before, sep);
        assert(s.contains(s.last()));
        assert(before.push(s.last()) =~= s);
        assert(seq![before].update(0, s) =~= seq![s]);
    }
}

/// Behind a separator, a text without the separator is one more piece.
pub proof fn lemma_split_one_more(a: Seq<char>, b: Seq<char>, sep: char)
    requires
        !b.contains(sep),
    ensures
        split(a + seq![sep] + b, sep) == split(a, sep).push(b),
    decreases b.len(),
{
    let s = a + seq![sep] + b;
    if b.len() == 0 {
        assert(s.drop_last() =~= a);
        assert(b =~= Seq::<char>::empty());
    } else {
        let shorter = b.drop_last();
        assert forall|k: int| 0 <= k < shorter.len() implies shorter[k] != sep by {
            assert(shorter[k] == b[k]);
            assert(b.contains(b[k]));
        }
        lemma_split_one_more(a, shorter, sep);
        assert(s.drop_last() =~= a + seq![sep] + shorter);
        assert(s.last() == b.last());
        assert(b.contains(b.last()));
        let before = split(a, sep).push(shorter);
        assert(before.update(before.len() - 1, before.last().push(b.last())) =~= split(a, sep).push(
            b,
        )) by {
            assert(shorter.push(b.last()) =~= b);
        }
    }
}

/// Texts without the separator, joined with it, come apart again as they
/// were, if there is at least one of them.
pub proof fn lemma_split_of_join(items: Seq<Seq<char>>, sep: char)
    requires
        items.len() > 0,
        forall|i: int| 0 <= i < items.len() ==> !(#[trigger] items[i]).contains(sep),
    ensures
        split(join(items, seq![sep]), sep) == items,
    decreases items.len(),
{
    if items.len() == 1 {
        lemma_split_one_piece(items[0], sep);
        assert(seq![items[0]] =~= items);
    } else {
        let before = items.drop_last();
        assert forall|i: int| 0 <= i < before.len() implies !(#[trigger] before[i]).contains(
            sep,
        ) by {
            assert(before[i] == items[i]);
        }
        lemma_split_of_join(before, sep);
        lemma_split_one_more(join(before, seq![sep]), items.last(), sep);
        assert(before.push(items.last()) =~= items);
    }
}

/// A list of numbers that is not empty, written in decimal notation with
/// commas between the numbers, reads back as the same list in every range
/// that holds its numbers.
pub proof fn lemma_list_reads_back<T: Number>(list: Seq<T>, min: int, max: int)
    requires
        list.len() > 0,
        min <= 0,
        forall|i: int| 0 <= i < list.len() ==> min <= (#[trigger] list[i]).value() <= max,
    ensures
        int_list_of(join(decimals(list), seq![',']), min, max) == Some(
            Seq::new(list.len(), |i: int| list[i].value()),
        ),
{
    let written = decimals(list);
    assert forall|i: int| 0 <= i < written.len() implies !(#[trigger] written[i]).contains(',') by {
        lemma_decimal_is_plain(list[i].value());
    }
    lemma_split_of_join(written, ',');
    assert forall|i: int| 0 <= i < written.len() implies int_of(
        trim(#[trigger] written[i]),
        min,
        max,
    ) == Some(list[i].value()) by {
        lemma_decimal_is_plain(list[i].value());
        lemma_decimal_reads_back(list[i].value(), min, max);
    }
    assert(int_list_of(join(written, seq![',']), min, max)->0 =~= Seq::new(
        list.len(),
        |i: int| list[i].value(),
    ));
}

/// A list of user identifiers that is not empty reads back from what was
/// written of it. The empty list is written as the empty text, which holds
/// no number and does not read back.
pub proof fn lemma_u64_list_reads_back(list: Seq<u64>)
    requires
        list.len() > 0,
    ensures
        u64_list_of(join(decimals(list), seq![','])) == Some(list),
        u64_list_of(join(decimals(Seq::<u64>::empty()), seq![','])) is None,
{
    lemma_list_reads_back(list, 0, u64::MAX as int);
    assert(Seq::new(list.len(), |i: int| list[i].value()).map_values(|v: int| v as u64) =~= list);
    lemma_empty_text_is_no_list(0, u64::MAX as int);
    assert(decimals(Seq::<u64>::empty()) =~= Seq::<Seq<char>>::empty());
}

/// A list of chat identifiers that is not empty reads back from what was
/// written of it. The empty list is written as the empty text, which holds
/// no number and does not read back.
pub proof fn lemma_i64_list_reads_back(list: Seq<i64>)
    requires
        list.len() > 0,
    ensures
        i64_list_of(join(decimals(list), seq![','])) == Some(list),
        i64_list_of(join(decimals(Seq::<i64>::empty()), seq![','])) is None,
{
    lemma_list_reads_back(list, i64::MIN as int, i64::MAX as int);
    assert(Seq::new(list.len(), |i: int| list[i].value()).map_values(|v: int| v as i64) =~= list);
    lemma_empty_text_is_no_list(i64::MIN as int, i64::MAX as int);
    assert(decimals(Seq::<i64>::empty()) =~= Seq::<Seq<char>>::empty());
}

/// The empty text is no list of numbers.
pub proof fn lemma_empty_text_is_no_list(min: int, max: int)
    ensures
        int_list_of(Seq::<char>::empty(), min, max) is None,
{
    let pieces = split(Seq::<char>::empty(), ',');
    assert(pieces[0] =~= Seq::<char>::empty());
    assert(trim(pieces[0]) =~= Seq::<char>::empty());
    assert(int_of(trim(pieces[0]), min, max) is None);
}

} // verus!
