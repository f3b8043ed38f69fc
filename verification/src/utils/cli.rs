//! What is made of the answers that are typed at the prompts.
use crate::utils::decimal::{
    field, field_begin, find_field_end, lemma_no_later_field, number_usize, parse_usize,
};
use vstd::prelude::*;

verus! {

/// The byte that separates the answers of a line.
pub const COMMA: u8 = 44;

/// Blanks, tabs and the ends of lines.
pub open spec fn is_blank(byte: u8) -> bool {
    byte == 32 || (9 <= byte <= 13)
}

/// Where the text begins once the blanks in front of it are left out.
pub open spec fn trim_begin(text: Seq<u8>, from: int) -> int
    decreases text.len() - from,
{
    if from >= text.len() {
        text.len() as int
    } else if is_blank(text[from]) {
        trim_begin(text, from + 1)
    } else {
        from
    }
}

/// Where the text ends once the blanks behind it are left out; `begin`
/// where only blanks lie behind `begin`.
pub open spec fn trim_end(text: Seq<u8>, begin: int, upto: int) -> int
    decreases upto - begin,
{
    if upto <= begin {
        begin
    } else if is_blank(text[upto - 1]) {
        trim_end(text, begin, upto - 1)
    } else {
        upto
    }
}

/// The text without the blanks in front of it and behind it.
pub open spec fn trimmed(text: Seq<u8>) -> Seq<u8> {
    let begin = trim_begin(text, 0);
    text.subrange(begin, trim_end(text, begin, text.len() as int))
}

/// Copies the text without the blanks in front of it and behind it.
pub fn trim(text: &Vec<u8>) -> (inner: Vec<u8>)
    ensures
        inner@ == trimmed(text@),
{
    let mut begin: usize = 0;
    while begin < text.len() && (text[begin] == 32 || (9 <= text[begin] && text[begin] <= 13))
        invariant
            begin <= text@.len(),
            trim_begin(text@, 0) == trim_begin(text@, begin as int),
        decreases text@.len() - begin,
    {
        begin = begin + 1;
    }
    let mut end: usize = text.len();
    while end > begin && (text[end - 1] == 32 || (9 <= text[end - 1] && text[end - 1] <= 13))
        invariant
            begin <= end <= text@.len(),
            trim_end(text@, begin as int, text@.len() as int) == trim_end(text@, begin as int, end as int),
        decreases end,
    {
        end = end - 1;
    }
    let mut inner: Vec<u8> = Vec::new();
    let mut i: usize = begin;
    while i < end
        invariant
            begin <= i <= end <= text@.len(),
            inner@ == text@.subrange(begin as int, i as int),
        decreases end - i,
    {
        inner.push(text[i]);
        i = i + 1;
        assert(inner@ =~= text@.subrange(begin as int, i as int));
    }
    inner
}

/// Whether a number is among the first `count` of a sequence.
pub fn contains(values: &Vec<usize>, value: usize) -> (found: bool)
    ensures
        found == values@.contains(value),
{
    let mut i: usize = 0;
    while i < values.len()
        invariant
            i <= values@.len(),
            forall|j: int| 0 <= j < i ==> values@[j] != value,
        decreases values@.len() - i,
    {
        if values[i] == value {
            return true;
        }
        i = i + 1;
    }
    false
}

/// The numbers from `low` to `high` among the first `count` answers of a
/// line, each once, in the order in which they come first. An answer
/// that is no number, or none from `low` to `high`, is left out.
pub open spec fn valid_answers(line: Seq<u8>, low: usize, high: usize, count: nat) -> Seq<usize>
    decreases count,
{
    if count == 0 {
        Seq::empty()
    } else {
        let before = valid_answers(line, low, high, (count - 1) as nat);
        match field(line, COMMA, (count - 1) as nat) {
            Some(answer) => match number_usize(answer) {
                Some(value) => if low <= value <= high && !before.contains(value) {
                    before.push(value)
                } else {
                    before
                },
                None => before,
            },
            None => before,
        }
    }
}

/// What a line of answers chooses: the valid answers of the line without
/// the blanks around it, and `default_level` where there is none.
pub open spec fn chosen(line: Seq<u8>, default_level: usize, low: usize, high: usize) -> Seq<usize> {
    let answers = valid_answers(trimmed(line), low, high, trimmed(line).len() + 1);
    if answers.len() == 0 {
        seq![default_level]
    } else {
        answers
    }
}

/// Past the last answer of a line nothing is added.
pub proof fn lemma_valid_answers_end(line: Seq<u8>, low: usize, high: usize, count: nat, more: nat)
    requires
        field_begin(line, COMMA, count) is None,
        count <= more,
    ensures
        valid_answers(line, low, high, more) == valid_answers(line, low, high, count),
    decreases more,
{
    if count < more {
        lemma_valid_answers_end(line, low, high, count, (more - 1) as nat);
        lemma_no_later_field(line, COMMA, count, (more - 1) as nat);
    }
}

/// Reads the answers of a line that are numbers from `low` to `high`.
/// The answers are what commas separate; blanks around the line do not
/// count. Each number is taken once. Where no answer is valid, the
/// default is the one answer.
pub fn print_scalar_query_get_answers(
    line: &Vec<u8>,
    default_level: usize,
    low: usize,
    high: usize,
) -> (answers: Vec<usize>)
    ensures
        answers@ == chosen(line@, default_level, low, high),
{
    let inputs = trim(line);
    let mut valid_inputs: Vec<usize> = Vec::new();
    let mut begin: usize = 0;
    let mut k: usize = 0;
    loop
        invariant_except_break
            begin <= inputs@.len(),
            k <= begin,
            field_begin(inputs@, COMMA, k as nat) == Some(begin as int),
            valid_inputs@ == valid_answers(inputs@, low, high, k as nat),
        invariant
            inputs@ == trimmed(line@),
        ensures
            valid_inputs@ == valid_answers(inputs@, low, high, inputs@.len() + 1),
        decreases inputs@.len() - begin,
    {
        let end = find_field_end(&inputs, COMMA, begin);
        match parse_usize(&inputs, begin, end) {
            Some(parsed) => {
                if low <= parsed && parsed <= high && !contains(&valid_inputs, parsed) {
                    valid_inputs.push(parsed);
                }
            },
            None => {},
        }
        assert(valid_inputs@ == valid_answers(inputs@, low, high, (k + 1) as nat));
        if end >= inputs.len() {
            proof {
                lemma_valid_answers_end(inputs@, low, high, (k + 1) as nat, inputs@.len() + 1);
            }
            break ;
        }
        begin = end + 1;
        k = k + 1;
    }
    if valid_inputs.len() == 0 {
        valid_inputs.push(default_level);
        assert(valid_inputs@ =~= seq![default_level]);
    }
    valid_inputs
}

/// What a line with one answer chooses: the number on the line, without
/// the blanks around it, if it is one from `low` to `high`, and
/// `default_level` else.
pub open spec fn chosen_one(line: Seq<u8>, default_level: usize, low: usize, high: usize) -> usize {
    match number_usize(trimmed(line)) {
        Some(value) => if low <= value <= high {
            value
        } else {
            default_level
        },
        None => default_level,
    }
}

/// Reads the one answer of a line.
pub fn print_scalar_query_get_answer(
    line: &Vec<u8>,
    default_level: usize,
    low: usize,
    high: usize,
) -> (answer: usize)
    ensures
        answer == chosen_one(line@, default_level, low, high),
{
    let input = trim(line);
    assert(input@.subrange(0, input@.len() as int) =~= input@);
    match parse_usize(&input, 0, input.len()) {
        Some(parsed) => if low <= parsed && parsed <= high {
            parsed
        } else {
            default_level
        },
        None => default_level,
    }
}

/// The levels at the given places.
pub open spec fn picked<T>(levels: Seq<T>, places: Seq<usize>) -> Seq<T> {
    Seq::new(places.len(), |k: int| levels[places[k] as int])
}

/// What a line of answers chooses of `levels`: the levels at the places
/// that it names, each once, and the level at `default_index` where it
/// names none.
pub open spec fn choices<T>(levels: Seq<T>, default_index: usize, line: Seq<u8>) -> Seq<T> {
    picked(levels, chosen(line, default_index, 0, (levels.len() - 1) as usize))
}

/// All items of the sequences, one sequence after the other.
pub open spec fn flattened<T>(parts: Seq<Seq<T>>) -> Seq<T>
    decreases parts.len(),
{
    if parts.len() == 0 {
        Seq::empty()
    } else {
        flattened(parts.drop_last()) + parts.last()
    }
}

/// Appends the items to the target.
pub fn append_all<T: Copy>(target: &mut Vec<T>, items: &Vec<T>)
    ensures
        final(target)@ == old(target)@ + items@,
{
    let mut k: usize = 0;
    while k < items.len()
        invariant
            k <= items@.len(),
            target@ == old(target)@ + items@.take(k as int),
        decreases items@.len() - k,
    {
        target.push(items[k]);
        k = k + 1;
        assert(target@ =~= old(target)@ + items@.take(k as int));
    }
    assert(items@.take(items@.len() as int) =~= items@);
}

/// The levels that a line of answers chooses of `available_levels`.
pub fn print_table_get_choices<T: Copy>(
    available_levels: &Vec<T>,
    default_index: usize,
    line: &Vec<u8>,
) -> (levels: Vec<T>)
    requires
        default_index < available_levels@.len(),
    ensures
        levels@ == choices(available_levels@, default_index, line@),
{
    let mut levels: Vec<T> = Vec::new();
    if available_levels.len() == 1 {
        proof {
            lemma_one_choice(line@, default_index);
        }
        levels.push(available_levels[0]);
        assert(levels@ =~= choices(available_levels@, default_index, line@));
        return levels;
    }
    let indices = print_scalar_query_get_answers(line, default_index, 0, available_levels.len() - 1);
    proof {
        lemma_chosen_in_range(line@, default_index, 0, (available_levels@.len() - 1) as usize);
    }
    let mut k: usize = 0;
    while k < indices.len()
        invariant
            k <= indices@.len(),
            levels@.len() == k,
            forall|j: int| 0 <= j < indices@.len() ==> #[trigger] indices@[j] < available_levels@.len(),
            forall|j: int| 0 <= j < k ==> #[trigger] levels@[j] == available_levels@[indices@[j] as int],
        decreases indices@.len() - k,
    {
        levels.push(available_levels[indices[k]]);
        k = k + 1;
    }
    assert(levels@ =~= choices(available_levels@, default_index, line@));
    levels
}

/// The level at the place that a line with one answer chooses.
pub fn print_table_get_choice<T: Copy>(
    available_levels: &Vec<T>,
    default_index: usize,
    line: &Vec<u8>,
) -> (level: T)
    requires
        default_index < available_levels@.len(),
    ensures
        level == available_levels@[chosen_one(line@, default_index, 0, (available_levels@.len() - 1) as usize) as int],
{
    let chosen = print_scalar_query_get_answer(line, default_index, 0, available_levels.len() - 1);
    available_levels[chosen]
}

pub proof fn lemma_valid_answers_in_range(line: Seq<u8>, low: usize, high: usize, count: nat)
    ensures
        forall|k: int|
            0 <= k < valid_answers(line, low, high, count).len() ==> low <= #[trigger] valid_answers(
                line,
                low,
                high,
                count,
            )[k] <= high,
    decreases count,
{
    if count > 0 {
        lemma_valid_answers_in_range(line, low, high, (count - 1) as nat);
        let before = valid_answers(line, low, high, (count - 1) as nat);
        let after = valid_answers(line, low, high, count);
        assert forall|k: int| 0 <= k < after.len() implies low <= #[trigger] after[k] <= high by {
            if k < before.len() {
                assert(after[k] == before[k]);
            }
        }
    }
}

/// What a line chooses lies from `low` to `high`, if the default does.
pub proof fn lemma_chosen_in_range(line: Seq<u8>, default_level: usize, low: usize, high: usize)
    requires
        low <= default_level <= high,
    ensures
        forall|k: int|
            0 <= k < chosen(line, default_level, low, high).len() ==> low <= #[trigger] chosen(
                line,
                default_level,
                low,
                high,
            )[k] <= high,
{
    lemma_valid_answers_in_range(trimmed(line), low, high, trimmed(line).len() + 1);
}

/// Of one level, every line chooses that level.
pub proof fn lemma_one_choice(line: Seq<u8>, default_level: usize)
    requires
        default_level == 0,
    ensures
        chosen(line, default_level, 0, 0) == seq![0usize],
{
    let answers = valid_answers(trimmed(line), 0, 0, trimmed(line).len() + 1);
    lemma_valid_answers_in_range(trimmed(line), 0, 0, trimmed(line).len() + 1);
    lemma_valid_answers_distinct(trimmed(line), 0, 0, trimmed(line).len() + 1);
    if answers.len() > 1 {
        assert(answers[0] == 0 && answers[1] == 0);
    }
    if answers.len() == 1 {
        assert(answers[0] == 0);
        assert(answers =~= seq![0usize]);
    }
}

pub proof fn lemma_valid_answers_distinct(line: Seq<u8>, low: usize, high: usize, count: nat)
    ensures
        valid_answers(line, low, high, count).no_duplicates(),
    decreases count,
{
    if count > 0 {
        lemma_valid_answers_distinct(line, low, high, (count - 1) as nat);
        let before = valid_answers(line, low, high, (count - 1) as nat);
        let after = valid_answers(line, low, high, count);
        assert forall|i: int, j: int| 0 <= i < after.len() && 0 <= j < after.len() && i != j implies after[i]
            != after[j] by {
            if i < before.len() && j < before.len() {
                assert(before[i] != before[j]);
            } else if i < before.len() {
                assert(before.contains(before[i]));
            } else if j < before.len() {
                assert(before.contains(before[j]));
            }
        }
    }
}

/// Whether the answer to the question whether to go on is anything but a
/// single `n`, in either case and with blanks around it or not.
pub open spec fn goes_on(answer: Seq<u8>) -> bool {
    !(trimmed(answer).len() == 1 && (trimmed(answer)[0] == 110 || trimmed(answer)[0] == 78))
}

/// Reads the answer to the question whether to go on.
pub fn query_continue(answer: &Vec<u8>) -> (go_on: bool)
    ensures
        go_on == goes_on(answer@),
{
    let query = trim(answer);
    !(query.len() == 1 && (query[0] == 110 || query[0] == 78))
}

/// Does `action` in an interactive run.
pub fn echo<A: Fn()>(interactive: bool, action: A)
    requires
        interactive ==> call_requires(action, ()),
    ensures
        interactive ==> call_ensures(action, (), ()),
{
    if interactive {
        action();
    }
}

/// Whether to go on: always in a run that is not interactive, and by the
/// answer in one that is.
pub fn echo_continue(interactive: bool, answer: &Vec<u8>) -> (go_on: bool)
    ensures
        go_on == (!interactive || goes_on(answer@)),
{
    !interactive || query_continue(answer)
}

} // verus!
