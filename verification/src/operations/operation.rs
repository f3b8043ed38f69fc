//! What every operation offers.
use vstd::prelude::*;

verus! {

/// The small letter of a capital letter, and every other byte as it is.
pub open spec fn lower(byte: u8) -> u8 {
    if 65 <= byte <= 90 {
        (byte + 32) as u8
    } else {
        byte
    }
}

/// The text with small letters for its capital letters.
pub open spec fn lowered(text: Seq<u8>) -> Seq<u8> {
    Seq::new(text.len(), |i: int| lower(text[i]))
}

/// Whether two texts are the same but for the case of their letters.
pub fn same_letters(first: &[u8], second: &Vec<u8>) -> (same: bool)
    ensures
        same == (lowered(first@) == lowered(second@)),
{
    if first.len() != second.len() {
        assert(lowered(first@).len() != lowered(second@).len());
        return false;
    }
    let mut i: usize = 0;
    while i < first.len()
        invariant
            i <= first@.len(),
            first@.len() == second@.len(),
            forall|j: int| 0 <= j < i ==> lower(first@[j]) == lower(second@[j]),
        decreases first@.len() - i,
    {
        let a = if 65 <= first[i] && first[i] <= 90 {
            first[i] + 32
        } else {
            first[i]
        };
        let b = if 65 <= second[i] && second[i] <= 90 {
            second[i] + 32
        } else {
            second[i]
        };
        if a != b {
            assert(lowered(first@)[i as int] != lowered(second@)[i as int]);
            return false;
        }
        i = i + 1;
    }
    assert(lowered(first@) =~= lowered(second@));
    true
}

/// Whether a text begins with another.
pub fn starts_with(text: &Vec<u8>, prefix: &[u8]) -> (starts: bool)
    ensures
        starts == (prefix@.len() <= text@.len() && text@.take(prefix@.len() as int) == prefix@),
{
    if prefix.len() > text.len() {
        return false;
    }
    let mut i: usize = 0;
    while i < prefix.len()
        invariant
            i <= prefix@.len() <= text@.len(),
            forall|j: int| 0 <= j < i ==> text@[j] == prefix@[j],
        decreases prefix@.len() - i,
    {
        if text[i] != prefix[i] {
            assert(text@.take(prefix@.len() as int)[i as int] != prefix@[i as int]);
            return false;
        }
        i = i + 1;
    }
    assert(text@.take(prefix@.len() as int) =~= prefix@);
    true
}

/// The capital letter of a small letter, and every other byte as it is.
pub open spec fn upper(byte: u8) -> u8 {
    if 97 <= byte <= 122 {
        (byte - 32) as u8
    } else {
        byte
    }
}

/// The width that the line of an operation is filled to.
pub const HEADER_LEN: usize = 120;

/// The byte that the line of an operation is filled with.
pub const LINE_CHAR: u8 = 35;

/// How often the filling byte stands on each side of a name.
pub open spec fn side_len(name_len: nat) -> nat {
    if name_len > HEADER_LEN {
        0
    } else {
        ((HEADER_LEN - name_len) / 2) as nat
    }
}

/// The line that announces an operation: its name in capital letters
/// between two runs of the filling byte, on a line of its own.
pub open spec fn operation_line_text(name: Seq<u8>) -> Seq<u8> {
    let side = Seq::new(side_len(name.len()), |i: int| LINE_CHAR);
    seq![10u8] + side + seq![32u8] + Seq::new(name.len(), |i: int| upper(name[i])) + seq![32u8] + side + seq![10u8]
}

/// Appends a byte so many times.
pub fn push_repeated(text: &mut Vec<u8>, byte: u8, times: usize)
    ensures
        final(text)@ == old(text)@ + Seq::new(times as nat, |i: int| byte),
{
    let mut i: usize = 0;
    while i < times
        invariant
            i <= times,
            text@ == old(text)@ + Seq::new(i as nat, |k: int| byte),
        decreases times - i,
    {
        text.push(byte);
        i = i + 1;
        assert(text@ =~= old(text)@ + Seq::new(i as nat, |k: int| byte));
    }
}

/// Makes the line that announces an operation.
pub fn get_operation_line(name: &[u8]) -> (line: Vec<u8>)
    ensures
        line@ == operation_line_text(name@),
{
    let side_len = if name.len() > HEADER_LEN {
        0
    } else {
        (HEADER_LEN - name.len()) / 2
    };
    let mut line: Vec<u8> = Vec::new();
    line.push(10);
    push_repeated(&mut line, LINE_CHAR, side_len);
    line.push(32);
    let ghost before = line@;
    let mut i: usize = 0;
    while i < name.len()
        invariant
            i <= name@.len(),
            line@ == before + Seq::new(i as nat, |k: int| upper(name@[k])),
        decreases name@.len() - i,
    {
        let byte = name[i];
        line.push(
            if 97 <= byte && byte <= 122 {
                byte - 32
            } else {
                byte
            },
        );
        i = i + 1;
        assert(line@ =~= before + Seq::new(i as nat, |k: int| upper(name@[k])));
    }
    line.push(32);
    push_repeated(&mut line, LINE_CHAR, side_len);
    line.push(10);
    assert(line@ =~= operation_line_text(name@));
    line
}

/// An operation of the command line.
pub trait Operation {
    /// The name of the operation.
    fn name() -> &'static str;

    /// Whether a command asks for the operation.
    spec fn asked_by(command: Seq<u8>) -> bool;

    fn matches(command: &Vec<u8>) -> (matches: bool)
        ensures
            matches == Self::asked_by(command@),
    ;
}

} // verus!
