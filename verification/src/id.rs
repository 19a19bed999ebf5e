//! The names of sessions: 128-bit numbers, written as UUIDs.
use vstd::prelude::*;

verus! {

/// A hexadecimal digit, in lower case.
pub open spec fn hex_digit(digit: nat) -> char {
    if digit < 10 {
        (('0' as nat) + digit) as char
    } else {
        (('a' as nat) + digit - 10) as char
    }
}

/// The last `width` hexadecimal digits of a number.
pub open spec fn hex(number: nat, width: nat) -> Seq<char>
    decreases width,
{
    if width == 0 {
        Seq::empty()
    } else {
        hex(number / 16, (width - 1) as nat).push(hex_digit(number % 16))
    }
}

/// A number as a UUID: 32 hexadecimal digits in groups of 8, 4, 4, 4 and 12.
pub open spec fn id_name(id: u128) -> Seq<char> {
    let digits = hex(id as nat, 32);
    digits.subrange(0, 8) + "-"@ + digits.subrange(8, 12) + "-"@ + digits.subrange(12, 16) + "-"@
        + digits.subrange(16, 20) + "-"@ + digits.subrange(20, 32)
}

/// Formats the UUID that `uuid::Uuid::from_u128` makes of a number by its `Display`:
/// the bytes of the number, most significant first, as hyphenated hexadecimal
/// digits in lower case.
#[verifier::external_body]
pub(crate) fn name_text(id: u128) -> (res: String)
    ensures
        res@ == id_name(id),
{
    uuid::Uuid::from_u128(id).to_string()
}

/// What is left of a number without its last `width` hexadecimal digits.
spec fn without_digits(number: nat, width: nat) -> nat
    decreases width,
{
    if width == 0 {
        number
    } else {
        without_digits(number / 16, (width - 1) as nat)
    }
}

proof fn lemma_hex_len(number: nat, width: nat)
    ensures
        hex(number, width).len() == width,
    decreases width,
{
    if width > 0 {
        lemma_hex_len(number / 16, (width - 1) as nat);
    }
}

proof fn lemma_same_digits(left: nat, right: nat, width: nat)
    requires
        hex(left, width) == hex(right, width),
        without_digits(left, width) == without_digits(right, width),
    ensures
        left == right,
    decreases width,
{
    if width > 0 {
        let shorter = (width - 1) as nat;
        let l = hex(left / 16, shorter);
        let r = hex(right / 16, shorter);
        assert(hex(left, width) == l.push(hex_digit(left % 16)));
        assert(hex(right, width) == r.push(hex_digit(right % 16)));
        lemma_hex_len(left / 16, shorter);
        lemma_hex_len(right / 16, shorter);
        assert(l =~= l.push(hex_digit(left % 16)).drop_last());
        assert(r =~= r.push(hex_digit(right % 16)).drop_last());
        assert(hex(left, width).last() == hex_digit(left % 16));
        assert(hex(right, width).last() == hex_digit(right % 16));
        lemma_same_digits(left / 16, right / 16, shorter);
    }
}

proof fn lemma_no_digit_left(number: nat, width: nat)
    requires
        number < vstd::arithmetic::power::pow(16, width),
    ensures
        without_digits(number, width) == 0,
    decreases width,
{
    vstd::arithmetic::power::lemma_pow0(16);
    if width > 0 {
        let shorter = (width - 1) as nat;
        vstd::arithmetic::power::lemma_pow_positive(16, shorter);
        reveal(vstd::arithmetic::power::pow);
        assert(vstd::arithmetic::power::pow(16, width) == 16 * vstd::arithmetic::power::pow(16, shorter));
        lemma_no_digit_left(number / 16, shorter);
    }
}

/// Two sessions have the same name only where they are the same session.
pub proof fn law_names_differ(left: u128, right: u128)
    ensures
        id_name(left) == id_name(right) ==> left == right,
{
    let l = hex(left as nat, 32);
    let r = hex(right as nat, 32);
    lemma_hex_len(left as nat, 32);
    lemma_hex_len(right as nat, 32);
    if id_name(left) == id_name(right) {
        reveal_strlit("-");
        let n = id_name(left);
        assert(n.len() == 36);
        assert forall|i: int| 0 <= i < 32 implies l[i] == r[i] by {
            let at = if i < 8 {
                i
            } else if i < 12 {
                i + 1
            } else if i < 16 {
                i + 2
            } else if i < 20 {
                i + 3
            } else {
                i + 4
            };
            assert(id_name(left)[at] == l[i]);
            assert(id_name(right)[at] == r[i]);
        }
        assert(l =~= r);
        assert(vstd::arithmetic::power::pow(16, 32) == 0x1_0000_0000_0000_0000_0000_0000_0000_0000) by {
            reveal_with_fuel(vstd::arithmetic::power::pow, 33);
        }
        lemma_no_digit_left(left as nat, 32);
        lemma_no_digit_left(right as nat, 32);
        lemma_same_digits(left as nat, right as nat, 32);
    }
}

/// The number that hexadecimal digits stand for.
pub open spec fn hex_value(digits: Seq<char>) -> nat
    decreases digits.len(),
{
    if digits.len() == 0 {
        0
    } else {
        let digit = digits.last();
        16 * hex_value(digits.drop_last()) + if '0' as nat <= digit as nat <= '9' as nat {
            (digit as nat - '0' as nat) as nat
        } else {
            (digit as nat - 'a' as nat + 10) as nat
        }
    }
}

proof fn lemma_hex_reads_back(number: nat, width: nat)
    requires
        without_digits(number, width) == 0,
    ensures
        hex_value(hex(number, width)) == number,
    decreases width,
{
    if width > 0 {
        lemma_hex_reads_back(number / 16, (width - 1) as nat);
        let digits = hex(number, width);
        assert(digits.drop_last() =~= hex(number / 16, (width - 1) as nat));
        assert(digits.last() == hex_digit(number % 16));
    }
}

/// The name of a session is its number in 32 small hexadecimal digits, in five groups with
/// a dash between them.
pub proof fn law_names_are_grouped_digits(id: u128)
    ensures
        ({
            let name = id_name(id);
            let digits = name.subrange(0, 8) + name.subrange(9, 13) + name.subrange(14, 18)
                + name.subrange(19, 23) + name.subrange(24, 36);
            &&& name.len() == 36
            &&& name[8] == '-' && name[13] == '-' && name[18] == '-' && name[23] == '-'
            &&& hex_value(digits) == id
        }),
{
    let digits = hex(id as nat, 32);
    lemma_hex_len(id as nat, 32);
    reveal_strlit("-");
    let name = id_name(id);
    assert(vstd::arithmetic::power::pow(16, 32) == 0x1_0000_0000_0000_0000_0000_0000_0000_0000) by {
        reveal_with_fuel(vstd::arithmetic::power::pow, 33);
    }
    lemma_no_digit_left(id as nat, 32);
    lemma_hex_reads_back(id as nat, 32);
    assert(name.subrange(0, 8) + name.subrange(9, 13) + name.subrange(14, 18) + name.subrange(19, 23)
        + name.subrange(24, 36) =~= digits);
}

}
