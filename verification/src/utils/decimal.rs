//! Numbers in decimal notation and the fields of a line of text, on bytes.
use vstd::prelude::*;

verus! {

pub open spec fn is_digit(byte: u8) -> bool {
    48 <= byte <= 57
}

pub open spec fn all_digits(text: Seq<u8>) -> bool {
    forall|i: int| 0 <= i < text.len() ==> is_digit(#[trigger] text[i])
}

/// The number that a text of digits stands for.
pub open spec fn digits_value(digits: Seq<u8>) -> nat
    decreases digits.len(),
{
    if digits.len() == 0 {
        0
    } else {
        digits_value(digits.drop_last()) * 10 + (digits.last() - 48) as nat
    }
}

/// The text without the plus sign that may stand in front of a number.
pub open spec fn unsigned_part(text: Seq<u8>) -> Seq<u8> {
    if text.len() > 0 && text[0] == 43 {
        text.skip(1)
    } else {
        text
    }
}

/// The number that `text` stands for: digits, at least one, which a plus
/// sign may precede. `None` for any other text.
pub open spec fn number(text: Seq<u8>) -> Option<nat> {
    let digits = unsigned_part(text);
    if digits.len() > 0 && all_digits(digits) {
        Some(digits_value(digits))
    } else {
        None
    }
}

/// The number that `text` stands for where it is a `u64`.
pub open spec fn number_u64(text: Seq<u8>) -> Option<u64> {
    match number(text) {
        Some(value) => if value <= u64::MAX {
            Some(value as u64)
        } else {
            None
        },
        None => None,
    }
}

/// The number that `text` stands for where it is a `usize`.
pub open spec fn number_usize(text: Seq<u8>) -> Option<usize> {
    match number(text) {
        Some(value) => if value <= usize::MAX {
            Some(value as usize)
        } else {
            None
        },
        None => None,
    }
}

pub proof fn lemma_digits_value_grows(digits: Seq<u8>, upto: int)
    requires
        0 <= upto <= digits.len(),
        all_digits(digits),
    ensures
        digits_value(digits.take(upto)) <= digits_value(digits),
    decreases digits.len() - upto,
{
    if upto < digits.len() {
        lemma_digits_value_grows(digits, upto + 1);
        assert(digits.take(upto + 1).drop_last() =~= digits.take(upto));
        assert(is_digit(digits[upto]));
    } else {
        assert(digits.take(upto) =~= digits);
    }
}

/// Reads the number that `bytes[begin..end]` stands for.
pub fn parse_u64(bytes: &Vec<u8>, begin: usize, end: usize) -> (value: Option<u64>)
    requires
        begin <= end <= bytes@.len(),
    ensures
        value == number_u64(bytes@.subrange(begin as int, end as int)),
{
    let ghost text = bytes@.subrange(begin as int, end as int);
    let mut i: usize = begin;
    if i < end && bytes[i] == 43 {
        i = i + 1;
    }
    let first: usize = i;
    let ghost digits = unsigned_part(text);
    assert(digits =~= bytes@.subrange(first as int, end as int));
    if first == end {
        return None;
    }
    let mut value: u64 = 0;
    while i < end
        invariant
            begin <= first <= i <= end <= bytes@.len(),
            first < end,
            text == bytes@.subrange(begin as int, end as int),
            digits == unsigned_part(text),
            digits == bytes@.subrange(first as int, end as int),
            all_digits(digits.take(i - first)),
            value == digits_value(digits.take(i - first)),
        decreases end - i,
    {
        let byte = bytes[i];
        if byte < 48 || byte > 57 {
            assert(!is_digit(digits[i - first]));
            return None;
        }
        let ghost longer = digits.take(i - first + 1);
        proof {
            assert(longer.drop_last() =~= digits.take(i - first));
            assert(longer.last() == byte);
            assert forall|j: int| 0 <= j < longer.len() implies is_digit(#[trigger] longer[j]) by {
                if j < i - first {
                    assert(digits.take(i - first)[j] == longer[j]);
                }
            }
        }
        let next = match value.checked_mul(10) {
            Some(tenfold) => tenfold.checked_add((byte - 48) as u64),
            None => None,
        };
        value = match next {
            Some(next) => next,
            None => {
                proof {
                    assert(digits_value(longer) > u64::MAX);
                    if all_digits(digits) {
                        lemma_digits_value_grows(digits, i - first + 1);
                    }
                }
                return None;
            },
        };
        i = i + 1;
    }
    proof {
        assert(digits.take(end - first) =~= digits);
    }
    Some(value)
}

/// Reads the number that `bytes[begin..end]` stands for.
pub fn parse_usize(bytes: &Vec<u8>, begin: usize, end: usize) -> (value: Option<usize>)
    requires
        begin <= end <= bytes@.len(),
    ensures
        value == number_usize(bytes@.subrange(begin as int, end as int)),
{
    match parse_u64(bytes, begin, end) {
        Some(value) => if value <= usize::MAX as u64 {
            Some(value as usize)
        } else {
            None
        },
        None => None,
    }
}

/// Where the field that begins at `from` ends: at the next separator, or
/// at the end of the line.
pub open spec fn field_end(line: Seq<u8>, separator: u8, from: int) -> int
    decreases line.len() - from,
{
    if from >= line.len() {
        line.len() as int
    } else if line[from] == separator {
        from
    } else {
        field_end(line, separator, from + 1)
    }
}

/// Where the `index`-th field of the line begins, the fields being what
/// single separators separate. `None` where the line has fewer fields.
pub open spec fn field_begin(line: Seq<u8>, separator: u8, index: nat) -> Option<int>
    decreases index,
{
    if index == 0 {
        Some(0)
    } else {
        match field_begin(line, separator, (index - 1) as nat) {
            Some(begin) => if field_end(line, separator, begin) < line.len() {
                Some(field_end(line, separator, begin) + 1)
            } else {
                None
            },
            None => None,
        }
    }
}

/// The `index`-th field of the line.
pub open spec fn field(line: Seq<u8>, separator: u8, index: nat) -> Option<Seq<u8>> {
    match field_begin(line, separator, index) {
        Some(begin) => Some(line.subrange(begin, field_end(line, separator, begin))),
        None => None,
    }
}

/// Finds the end of the field that begins at `from`.
pub fn find_field_end(line: &Vec<u8>, separator: u8, from: usize) -> (end: usize)
    requires
        from <= line@.len(),
    ensures
        end == field_end(line@, separator, from as int),
        from <= end <= line@.len(),
{
    let mut end = from;
    while end < line.len() && line[end] != separator
        invariant
            from <= end <= line@.len(),
            field_end(line@, separator, from as int) == field_end(line@, separator, end as int),
        decreases line@.len() - end,
    {
        end = end + 1;
    }
    end
}

/// Finds the `index`-th field of the line: where it begins and where it
/// ends.
pub fn find_field(line: &Vec<u8>, separator: u8, index: usize) -> (bounds: Option<(usize, usize)>)
    ensures
        match bounds {
            Some((begin, end)) => {
                &&& field_begin(line@, separator, index as nat) == Some(begin as int)
                &&& end == field_end(line@, separator, begin as int)
                &&& begin <= end <= line@.len()
                &&& field(line@, separator, index as nat) == Some(line@.subrange(begin as int, end as int))
            },
            None => field(line@, separator, index as nat) is None,
        },
{
    let mut begin: usize = 0;
    let mut k: usize = 0;
    while k < index
        invariant
            k <= index,
            begin <= line@.len(),
            field_begin(line@, separator, k as nat) == Some(begin as int),
        decreases index - k,
    {
        let end = find_field_end(line, separator, begin);
        if end >= line.len() {
            proof {
                lemma_no_later_field(line@, separator, (k + 1) as nat, index as nat);
            }
            return None;
        }
        begin = end + 1;
        k = k + 1;
    }
    let end = find_field_end(line, separator, begin);
    Some((begin, end))
}

/// A line that lacks a field lacks all later fields.
pub proof fn lemma_no_later_field(line: Seq<u8>, separator: u8, missing: nat, later: nat)
    requires
        field_begin(line, separator, missing) is None,
        missing <= later,
    ensures
        field_begin(line, separator, later) is None,
    decreases later,
{
    if missing < later {
        lemma_no_later_field(line, separator, missing, (later - 1) as nat);
    }
}

} // verus!
