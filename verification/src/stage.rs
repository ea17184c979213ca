//! Names of staging files.

use vstd::prelude::*;

verus! {

/// The character of a decimal digit.
pub open spec fn digit(value: nat) -> char {
    (0x30 + value) as char
}

/// A number in decimal digits, without leading zeros.
pub open spec fn decimal(value: nat) -> Seq<char>
    decreases value,
{
    if value < 10 {
        seq![digit(value)]
    } else {
        decimal(value / 10).push(digit(value % 10))
    }
}

/// The name of the staging file of one write of one process.
pub open spec fn staging_name(process: nat, sequence: nat) -> Seq<char> {
    ".herdr-opencode-"@ + decimal(process) + "-"@ + decimal(sequence) + ".tmp"@
}

/// The text of a decimal digit.
fn digit_text(value: u64) -> (text: &'static str)
    requires
        value < 10,
    ensures
        text@ == seq![digit(value as nat)],
{
    proof {
        reveal_strlit("0");
        reveal_strlit("1");
        reveal_strlit("2");
        reveal_strlit("3");
        reveal_strlit("4");
        reveal_strlit("5");
        reveal_strlit("6");
        reveal_strlit("7");
        reveal_strlit("8");
        reveal_strlit("9");
    }
    match value {
        0 => "0",
        1 => "1",
        2 => "2",
        3 => "3",
        4 => "4",
        5 => "5",
        6 => "6",
        7 => "7",
        8 => "8",
        _ => "9",
    }
}

/// The decimal digits of a number.
fn decimal_text(value: u64) -> (text: String)
    ensures
        text@ == decimal(value as nat),
    decreases value,
{
    if value < 10 {
        digit_text(value).to_owned()
    } else {
        let mut text: String = decimal_text(value / 10);
        text.append(digit_text(value % 10));
        text
    }
}

/// Names the staging file of a write: by the process, and by how many writes it began before.
pub fn stage_name(process: u32, sequence: u64) -> (name: String)
    ensures
        name@ == staging_name(process as nat, sequence as nat),
{
    let mut name: String = ".herdr-opencode-".to_owned();
    name.append(decimal_text(process as u64).as_str());
    name.append("-");
    name.append(decimal_text(sequence).as_str());
    name.append(".tmp");
    name
}

/// A decimal number is made of digits.
proof fn lemma_decimal_digits(value: nat)
    ensures
        decimal(value).len() > 0,
        forall|i: int|
            0 <= i < decimal(value).len() ==> 0x30 <= (#[trigger] decimal(value)[i]) as u32
                <= 0x39,
    decreases value,
{
    if value >= 10 {
        lemma_decimal_digits(value / 10);
    }
}

/// Numbers that read the same are the same.
proof fn lemma_decimal_injective(left: nat, right: nat)
    requires
        decimal(left) == decimal(right),
    ensures
        left == right,
    decreases left,
{
    lemma_decimal_digits(left / 10);
    lemma_decimal_digits(right / 10);
    if left >= 10 && right >= 10 {
        assert(decimal(left).drop_last() =~= decimal(left / 10));
        assert(decimal(right).drop_last() =~= decimal(right / 10));
        assert(decimal(left).last() == digit(left % 10));
        assert(decimal(right).last() == digit(right % 10));
        assert(digit(left % 10) as u32 == 0x30 + left % 10);
        assert(digit(right % 10) as u32 == 0x30 + right % 10);
        lemma_decimal_injective(left / 10, right / 10);
        assert(left == 10 * (left / 10) + left % 10);
        assert(right == 10 * (right / 10) + right % 10);
    } else if left < 10 && right < 10 {
        assert(decimal(left)[0] == digit(left));
        assert(decimal(right)[0] == digit(right));
        assert(digit(left) as u32 == 0x30 + left);
        assert(digit(right) as u32 == 0x30 + right);
    } else if left < 10 {
        assert(decimal(left).len() == 1);
        assert(decimal(right).len() == decimal(right / 10).len() + 1);
    } else {
        assert(decimal(left).len() == decimal(left / 10).len() + 1);
        assert(decimal(right).len() == 1);
    }
}

/// The number that some decimal digits stand for.
pub open spec fn number_of(digits: Seq<char>) -> int
    decreases digits.len(),
{
    if digits.len() == 0 {
        0
    } else {
        10 * number_of(digits.drop_last()) + (digits.last() as u32 - 0x30)
    }
}

/// A staging name holds the two numbers, and nothing else, between its fixed parts: each in
/// digits that stand for it, without a leading zero.
pub proof fn law_staging_name_holds_its_numbers(process: nat, sequence: nat) -> (parts: (
    Seq<char>,
    Seq<char>,
))
    ensures
        staging_name(process, sequence) == ".herdr-opencode-"@ + parts.0 + "-"@ + parts.1 + ".tmp"@,
        number_of(parts.0) == process,
        number_of(parts.1) == sequence,
        parts.0.len() > 0 && parts.1.len() > 0,
        forall|i: int| 0 <= i < parts.0.len() ==> 0x30 <= (#[trigger] parts.0[i]) as u32
            <= 0x39,
        forall|i: int| 0 <= i < parts.1.len() ==> 0x30 <= (#[trigger] parts.1[i]) as u32
            <= 0x39,
        parts.0[0] == '0' ==> parts.0.len() == 1,
        parts.1[0] == '0' ==> parts.1.len() == 1,
{
    lemma_decimal_digits(process);
    lemma_decimal_digits(sequence);
    lemma_decimal_stands_for(process);
    lemma_decimal_stands_for(sequence);
    (decimal(process), decimal(sequence))
}

/// Decimal digits stand for the number, and start with a zero only where that is all.
proof fn lemma_decimal_stands_for(value: nat)
    ensures
        number_of(decimal(value)) == value,
        decimal(value)[0] == '0' ==> value == 0 && decimal(value).len() == 1,
    decreases value,
{
    lemma_decimal_digits(value);
    if value < 10 {
        assert(decimal(value).drop_last() =~= Seq::empty());
        assert(number_of(Seq::<char>::empty()) == 0);
        assert(digit(value) as u32 == 0x30 + value);
        assert(decimal(value).last() == digit(value));
    } else {
        lemma_decimal_stands_for(value / 10);
        lemma_decimal_digits(value / 10);
        assert(decimal(value).drop_last() =~= decimal(value / 10));
        assert(decimal(value).last() == digit(value % 10));
        assert(digit(value % 10) as u32 == 0x30 + value % 10);
        assert(decimal(value)[0] == decimal(value / 10)[0]);
    }
}

/// No two writes share a staging file: names are the same only for the same write of the
/// same process.
pub proof fn law_staging_names_differ(
    process: nat,
    sequence: nat,
    other_process: nat,
    other_sequence: nat,
)
    requires
        staging_name(process, sequence) == staging_name(other_process, other_sequence),
    ensures
        process == other_process,
        sequence == other_sequence,
{
    reveal_strlit(".herdr-opencode-");
    reveal_strlit("-");
    reveal_strlit(".tmp");
    lemma_decimal_digits(process);
    lemma_decimal_digits(other_process);
    let start: int = ".herdr-opencode-"@.len() as int;
    let name = staging_name(process, sequence);
    let first = decimal(process);
    let other_first = decimal(other_process);
    let second = decimal(sequence);
    let other_second = decimal(other_sequence);
    assert(name[start + first.len()] == '-');
    assert(name[start + other_first.len()] == '-');
    if first.len() < other_first.len() {
        assert(name[start + first.len()] == other_first[first.len() as int]);
    }
    if other_first.len() < first.len() {
        assert(name[start + other_first.len()] == first[other_first.len() as int]);
    }
    assert(first.len() == other_first.len());
    assert(first =~= other_first) by {
        assert forall|i: int| 0 <= i < first.len() implies first[i] == other_first[i] by {
            assert(name[start + i] == first[i]);
            assert(name[start + i] == other_first[i]);
        }
    }
    assert(name.len() == start + first.len() + 1 + second.len() + ".tmp"@.len());
    assert(name.len() == start + other_first.len() + 1 + other_second.len() + ".tmp"@.len());
    assert(second.len() == other_second.len());
    assert(second =~= other_second) by {
        let from = start + first.len() + 1;
        assert forall|i: int| 0 <= i < second.len() implies second[i] == other_second[i] by {
            assert(name[from + i] == second[i]);
            assert(name[from + i] == other_second[i]);
        }
    }
    lemma_decimal_injective(process, other_process);
    lemma_decimal_injective(sequence, other_sequence);
}

} // verus!
