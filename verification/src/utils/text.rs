//! Numbers as text.
use vstd::prelude::*;
use vstd::string::StringExecFns;

verus! {

/// The character of a digit.
pub open spec fn digit_char(digit: nat) -> char {
    if digit == 0 {
        '0'
    } else if digit == 1 {
        '1'
    } else if digit == 2 {
        '2'
    } else if digit == 3 {
        '3'
    } else if digit == 4 {
        '4'
    } else if digit == 5 {
        '5'
    } else if digit == 6 {
        '6'
    } else if digit == 7 {
        '7'
    } else if digit == 8 {
        '8'
    } else {
        '9'
    }
}

/// The decimal notation of a number, without leading zeros.
pub open spec fn decimal_text(number: nat) -> Seq<char>
    decreases number,
{
    if number < 10 {
        seq![digit_char(number)]
    } else {
        decimal_text(number / 10).push(digit_char(number % 10))
    }
}

/// The text of a digit.
pub fn digit_str(digit: u64) -> (text: &'static str)
    requires
        digit < 10,
    ensures
        text@ == seq![digit_char(digit as nat)],
{
    proof {
        reveal_strlit("0");
        reveal_strlit("1");
        reveal_strlit("2");
        reveal_strlit("3");
        reveal_strlit("4");
        reveal_strlit("5");
        reveal_strlit("6");
        reveal_strlit("7");
        reveal_strlit("8");
        reveal_strlit("9");
    }
    let text = if digit == 0 {
        "0"
    } else if digit == 1 {
        "1"
    } else if digit == 2 {
        "2"
    } else if digit == 3 {
        "3"
    } else if digit == 4 {
        "4"
    } else if digit == 5 {
        "5"
    } else if digit == 6 {
        "6"
    } else if digit == 7 {
        "7"
    } else if digit == 8 {
        "8"
    } else {
        "9"
    };
    assert(text@ =~= seq![digit_char(digit as nat)]);
    text
}

/// The digits in reverse order as text.
pub open spec fn reversed_text(digits: Seq<u64>) -> Seq<char> {
    Seq::new(digits.len(), |i: int| digit_char(digits[digits.len() - 1 - i] as nat))
}

/// Appends the decimal notation of `number` to `text`.
pub fn append_decimal(text: &mut String, number: u64)
    ensures
        final(text)@ == old(text)@ + decimal_text(number as nat),
{
    let mut digits: Vec<u64> = Vec::new();
    let mut rest = number;
    assert(decimal_text(number as nat) =~= decimal_text(rest as nat) + reversed_text(digits@));
    while rest >= 10
        invariant
            decimal_text(number as nat) == decimal_text(rest as nat) + reversed_text(digits@),
            forall|k: int| 0 <= k < digits@.len() ==> #[trigger] digits@[k] < 10,
        decreases rest,
    {
        let ghost before = digits@;
        digits.push(rest % 10);
        proof {
            assert(reversed_text(digits@) =~= seq![digit_char((rest % 10) as nat)] + reversed_text(before));
            assert(decimal_text(rest as nat) == decimal_text((rest / 10) as nat).push(
                digit_char((rest % 10) as nat),
            ));
            assert(decimal_text(number as nat) =~= decimal_text((rest / 10) as nat) + reversed_text(digits@));
        }
        rest = rest / 10;
    }
    text.append(digit_str(rest));
    let mut k: usize = digits.len();
    while k > 0
        invariant
            k <= digits@.len(),
            rest < 10,
            text@ == old(text)@ + decimal_text(rest as nat) + reversed_text(digits@).take(digits@.len() - k),
            forall|j: int| 0 <= j < digits@.len() ==> #[trigger] digits@[j] < 10,
        decreases k,
    {
        k = k - 1;
        text.append(digit_str(digits[k]));
        proof {
            let shown = reversed_text(digits@);
            assert(shown.take(digits@.len() - k) =~= shown.take(digits@.len() - k - 1).push(
                digit_char(digits@[k as int] as nat),
            ));
            assert(text@ =~= old(text)@ + decimal_text(rest as nat) + shown.take(digits@.len() - k));
        }
    }
    proof {
        let shown = reversed_text(digits@);
        assert(shown.take(digits@.len() as int) =~= shown);
        assert(text@ =~= old(text)@ + decimal_text(number as nat));
    }
}

/// The decimal notation of `number`.
pub fn decimal_string(number: u64) -> (text: String)
    ensures
        text@ == decimal_text(number as nat),
{
    let mut text = String::new();
    append_decimal(&mut text, number);
    assert(text@ =~= decimal_text(number as nat));
    text
}

/// The number of digits of a number.
pub fn decimal_len(number: u64) -> (len: usize)
    ensures
        len == decimal_text(number as nat).len(),
        1 <= len <= 20,
{
    let mut len: usize = 1;
    let mut rest = number;
    assert(rest * pow10(0) <= number) by (nonlinear_arith)
        requires
            rest == number,
            pow10(0) == 1,
    ;
    while rest >= 10
        invariant
            len + decimal_text(rest as nat).len() == decimal_text(number as nat).len() + 1,
            1 <= len <= 20,
            rest * pow10((len - 1) as nat) <= number,
        decreases rest,
    {
        proof {
            assert(decimal_text(rest as nat) == decimal_text((rest / 10) as nat).push(
                digit_char((rest % 10) as nat),
            ));
            assert((rest / 10) * pow10(len as nat) <= rest * pow10((len - 1) as nat)) by (nonlinear_arith)
                requires
                    (rest / 10) * 10 <= rest,
                    pow10(len as nat) == pow10((len - 1) as nat) * 10,
            ;
            if len == 20 {
                assert(pow10(19) == 10_000_000_000_000_000_000) by {
                    reveal_with_fuel(pow10, 20);
                }
                assert(rest * pow10(19) >= 10 * 10_000_000_000_000_000_000) by (nonlinear_arith)
                    requires
                        rest >= 10,
                        pow10(19) == 10_000_000_000_000_000_000,
                ;
            }
        }
        rest = rest / 10;
        len = len + 1;
    }
    len
}

/// Ten to a power.
pub open spec fn pow10(exponent: nat) -> nat
    decreases exponent,
{
    if exponent == 0 {
        1
    } else {
        pow10((exponent - 1) as nat) * 10
    }
}

/// A character so many times.
pub open spec fn repeated(character: char, times: int) -> Seq<char> {
    Seq::new(times as nat, |i: int| character)
}

/// The width of the bar that shows the progress of a run.
pub const LINE_LEN: usize = 100;

/// How many places the bar has behind the number of the treatment.
pub open spec fn bar_len(current: usize) -> int {
    LINE_LEN - 6 - decimal_text(current as nat).len()
}

/// How many of them are filled once the treatment is done.
pub open spec fn bar_done(current: usize, num_treatments: usize) -> int {
    bar_len(current) * (current + 1) / (num_treatments as int)
}

/// The bar that shows how far a run has come once the treatment
/// `current` of `num_treatments` is done: the number of the treatment and
/// a line of which as large a part is filled as is done of the run.
pub open spec fn progress_bar_text(current: usize, num_treatments: usize) -> Seq<char> {
    "[T-"@ + decimal_text(current as nat) + "]  "@ + repeated('#', bar_done(current, num_treatments)) + repeated(
        '-',
        bar_len(current) - bar_done(current, num_treatments),
    )
}

/// Makes the bar that shows the progress of a run.
pub fn print_treatment_completion_progress_bar(current_treatment_idx: usize, num_treatments: usize) -> (text: String)
    requires
        current_treatment_idx < num_treatments,
    ensures
        text@ == progress_bar_text(current_treatment_idx, num_treatments),
{
    proof {
        reveal_strlit("#");
        reveal_strlit("-");
    }
    let mut text = String::from_str("[T-");
    append_decimal(&mut text, current_treatment_idx as u64);
    text.append("]  ");
    let line_len: usize = LINE_LEN - 6 - decimal_len(current_treatment_idx as u64);
    let completed: u128 = current_treatment_idx as u128 + 1;
    assert(line_len * completed / (num_treatments as int) <= line_len) by (nonlinear_arith)
        requires
            0 < completed <= num_treatments,
            0 <= line_len,
    ;
    assert(line_len * completed <= 100 * 0x1_0000_0000_0000_0000) by (nonlinear_arith)
        requires
            0 <= line_len <= 100,
            0 <= completed <= 0x1_0000_0000_0000_0000,
    ;
    let done: usize = (line_len as u128 * completed / (num_treatments as u128)) as usize;
    let remaining: usize = line_len - done;
    let ghost head = text@;
    let mut i: usize = 0;
    while i < done
        invariant
            i <= done,
            text@ == head + repeated('#', i as int),
            "#"@ == seq!['#'],
        decreases done - i,
    {
        text.append("#");
        i = i + 1;
        assert(text@ =~= head + repeated('#', i as int));
    }
    let ghost filled = text@;
    let mut i: usize = 0;
    while i < remaining
        invariant
            i <= remaining,
            text@ == filled + repeated('-', i as int),
            "-"@ == seq!['-'],
        decreases remaining - i,
    {
        text.append("-");
        i = i + 1;
        assert(text@ =~= filled + repeated('-', i as int));
    }
    assert(text@ =~= progress_bar_text(current_treatment_idx, num_treatments));
    text
}

/// The strings as texts.
pub open spec fn texts(strings: Seq<String>) -> Seq<Seq<char>> {
    Seq::new(strings.len(), |i: int| strings[i]@)
}

/// The texts one after the other with the separator between them.
pub open spec fn joined_text(parts: Seq<Seq<char>>, separator: Seq<char>) -> Seq<char>
    decreases parts.len(),
{
    if parts.len() == 0 {
        Seq::empty()
    } else if parts.len() == 1 {
        parts[0]
    } else {
        joined_text(parts.drop_last(), separator) + separator + parts.last()
    }
}

/// Joins the strings with the separator between them.
pub fn joined(parts: &Vec<String>, separator: &str) -> (text: String)
    ensures
        text@ == joined_text(texts(parts@), separator@),
{
    let mut text = String::new();
    let mut i: usize = 0;
    while i < parts.len()
        invariant
            i <= parts@.len(),
            text@ == joined_text(texts(parts@).take(i as int), separator@),
        decreases parts@.len() - i,
    {
        if i > 0 {
            text.append(separator);
        }
        text.append(parts[i].as_str());
        proof {
            let shown = texts(parts@);
            assert(shown.take(i + 1).drop_last() =~= shown.take(i as int));
            assert(shown.take(i + 1).last() == parts@[i as int]@);
            if i == 0 {
                assert(text@ =~= shown.take(1)[0]);
            }
        }
        i = i + 1;
    }
    assert(texts(parts@).take(parts@.len() as int) =~= texts(parts@));
    text
}

/// Adds the string to the cells if the flag is set.
pub fn push_if(cells: &mut Vec<String>, flag: bool, cell: String)
    ensures
        final(cells)@ == if flag {
            old(cells)@.push(cell)
        } else {
            old(cells)@
        },
{
    if flag {
        cells.push(cell);
    }
}

/// Those of five texts whose flag is set.
pub open spec fn kept(flags: (bool, bool, bool, bool, bool), five: Seq<Seq<char>>) -> Seq<Seq<char>> {
    (if flags.0 {
        seq![five[0]]
    } else {
        Seq::empty()
    }) + (if flags.1 {
        seq![five[1]]
    } else {
        Seq::empty()
    }) + (if flags.2 {
        seq![five[2]]
    } else {
        Seq::empty()
    }) + (if flags.3 {
        seq![five[3]]
    } else {
        Seq::empty()
    }) + (if flags.4 {
        seq![five[4]]
    } else {
        Seq::empty()
    })
}

} // verus!
