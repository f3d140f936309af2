//! Numbers and messages as text.
use vstd::prelude::*;
use vstd::string::StringExecFns;

verus! {

/// The decimal digit of a number below ten.
pub open spec fn digit(value: nat) -> char {
    (48 + value) as char
}

/// The decimal digits of a number, without leading zeros.
pub open spec fn decimal(value: nat) -> Seq<char>
    decreases value,
{
    if value < 10 {
        seq![digit(value)]
    } else {
        decimal(value / 10).push(digit(value % 10))
    }
}

/// The decimal digits of a number, after a minus sign if it is negative.
pub open spec fn signed_decimal(value: int) -> Seq<char> {
    if value < 0 {
        seq!['-'] + decimal((-value) as nat)
    } else {
        decimal(value as nat)
    }
}

fn digit_text(value: u8) -> (text: &'static str)
    requires
        value < 10,
    ensures
        text@ == seq![digit(value as nat)],
{
    proof {
        reveal_strlit("0");
        reveal_strlit("1");
        reveal_strlit("2");
        reveal_strlit("3");
        reveal_strlit("4");
        reveal_strlit("5");
        reveal_strlit("6");
        reveal_strlit("7");
        reveal_strlit("8");
        reveal_strlit("9");
    }
    let text: &'static str = match value {
        0 => "0",
        1 => "1",
        2 => "2",
        3 => "3",
        4 => "4",
        5 => "5",
        6 => "6",
        7 => "7",
        8 => "8",
        _ => "9",
    };
    assert(text@ =~= seq![digit(value as nat)]);
    text
}

/// A number in decimal.
pub fn decimal_text(value: u64) -> (text: String)
    ensures
        text@ == decimal(value as nat),
    decreases value,
{
    if value < 10 {
        digit_text(value as u8).to_owned()
    } else {
        let mut text: String = decimal_text(value / 10);
        text.append(digit_text((value % 10) as u8));
        assert(text@ =~= decimal(value as nat));
        text
    }
}

/// A number in decimal, with a minus sign if it is negative.
pub fn signed_decimal_text(value: i64) -> (text: String)
    ensures
        text@ == signed_decimal(value as int),
{
    if value < 0 {
        proof {
            reveal_strlit("-");
        }
        let mut text: String = "-".to_owned();
        let magnitude: u64 = (-(value as i128)) as u64;
        let digits: String = decimal_text(magnitude);
        text.append(digits.as_str());
        assert(text@ =~= signed_decimal(value as int));
        text
    } else {
        decimal_text(value as u64)
    }
}

/// Two texts, one after the other.
pub(crate) fn joined(first: &str, second: &str) -> (text: String)
    ensures
        text@ == first@ + second@,
{
    let mut text: String = first.to_owned();
    text.append(second);
    text
}

/// Decimal text is made of digits, is not empty, and is as long as its leading digit asks.
pub(crate) proof fn lemma_decimal_digits(value: nat)
    ensures
        decimal(value).len() >= 1,
        value >= 10 ==> decimal(value).len() >= 2,
        value >= 10000 ==> decimal(value).len() >= 5,
        forall|i: int|
            0 <= i < decimal(value).len() ==> '0' <= #[trigger] decimal(value)[i] <= '9',
    decreases value,
{
    if value >= 10 {
        lemma_decimal_digits(value / 10);
        if value >= 10000 {
            reveal_with_fuel(decimal, 5);
        }
    }
}

/// Different numbers have different decimal texts.
pub proof fn law_decimal_is_injective(a: nat, b: nat)
    requires
        decimal(a) == decimal(b),
    ensures
        a == b,
    decreases a,
{
    lemma_decimal_digits(a);
    lemma_decimal_digits(b);
    if a >= 10 && b >= 10 {
        assert(decimal(a).drop_last() =~= decimal(a / 10));
        assert(decimal(b).drop_last() =~= decimal(b / 10));
        assert(decimal(a).last() == digit(a % 10));
        assert(decimal(b).last() == digit(b % 10));
        law_decimal_is_injective(a / 10, b / 10);
        assert(a % 10 == b % 10);
    } else {
        assert(decimal(a).len() == decimal(b).len());
        assert(a < 10 && b < 10);
        assert(decimal(a)[0] == digit(a) && decimal(b)[0] == digit(b));
    }
}

/// Different signed numbers have different decimal texts.
pub proof fn law_signed_decimal_is_injective(a: int, b: int)
    requires
        signed_decimal(a) == signed_decimal(b),
    ensures
        a == b,
{
    let magnitude_a = if a < 0 { (-a) as nat } else { a as nat };
    let magnitude_b = if b < 0 { (-b) as nat } else { b as nat };
    lemma_decimal_digits(magnitude_a);
    lemma_decimal_digits(magnitude_b);
    if a < 0 && b < 0 {
        assert(signed_decimal(a).skip(1) =~= decimal(magnitude_a));
        assert(signed_decimal(b).skip(1) =~= decimal(magnitude_b));
        law_decimal_is_injective(magnitude_a, magnitude_b);
    } else if a >= 0 && b >= 0 {
        law_decimal_is_injective(magnitude_a, magnitude_b);
    } else {
        let (negative, magnitude) = if a < 0 { (a, magnitude_b) } else { (b, magnitude_a) };
        assert(signed_decimal(negative)[0] == '-');
        assert(decimal(magnitude)[0] == '-');
        assert(false);
    }
}

/// The number that decimal digits stand for.
pub open spec fn number(digits: Seq<char>) -> int
    decreases digits.len(),
{
    if digits.len() == 0 {
        0
    } else {
        10 * number(digits.drop_last()) + (digits.last() as int - '0' as int)
    }
}

/// Decimal text reads as the number that it was made of, consists of digits, and begins with a zero
/// only if it is nothing but that zero.
pub proof fn law_decimal_reads_back(value: nat)
    ensures
        number(decimal(value)) == value,
        decimal(value).len() >= 1,
        forall|i: int|
            0 <= i < decimal(value).len() ==> '0' <= #[trigger] decimal(value)[i] <= '9',
        value > 0 ==> decimal(value)[0] != '0',
        value == 0 ==> decimal(value).len() == 1,
    decreases value,
{
    lemma_decimal_digits(value);
    reveal_with_fuel(number, 2);
    if value >= 10 {
        law_decimal_reads_back(value / 10);
        assert(decimal(value).drop_last() =~= decimal(value / 10));
        assert(decimal(value)[0] == decimal(value / 10)[0]);
    } else {
        assert(decimal(value).drop_last() =~= Seq::<char>::empty());
    }
}

/// A number that is not negative has no sign, and a negative one a minus sign before its magnitude.
pub proof fn law_signed_decimal_reads_back(value: int)
    ensures
        value >= 0 ==> number(signed_decimal(value)) == value && signed_decimal(value)[0] != '-',
        value < 0 ==> {
            &&& signed_decimal(value).len() >= 2
            &&& signed_decimal(value)[0] == '-'
            &&& number(signed_decimal(value).skip(1)) == -value
            &&& signed_decimal(value)[1] != '0'
            &&& forall|i: int|
                1 <= i < signed_decimal(value).len() ==> '0' <= #[trigger] signed_decimal(value)[i]
                    <= '9'
        },
{
    if value >= 0 {
        law_decimal_reads_back(value as nat);
    } else {
        law_decimal_reads_back((-value) as nat);
        assert(signed_decimal(value).skip(1) =~= decimal((-value) as nat));
        assert(signed_decimal(value)[1] == decimal((-value) as nat)[0]);
        assert forall|i: int| 1 <= i < signed_decimal(value).len() implies '0'
            <= #[trigger] signed_decimal(value)[i] <= '9' by {
            assert(signed_decimal(value)[i] == decimal((-value) as nat)[i - 1]);
        }
    }
}

} // verus!
