//! The TAO extension's initialisation: every instance that the database
//! initialises gets the next number, and logs a greeting with it.

use vstd::prelude::*;
use vstd::string::StringExecFns;

verus! {

/// The decimal digits of `n`, most significant first, with no leading zero.
pub open spec fn decimal(n: nat) -> Seq<char>
    decreases n,
{
    if n < 10 {
        seq![((n + 48) as char)]
    } else {
        decimal(n / 10).push(((n % 10 + 48) as char))
    }
}

/// The greeting logged by instance number `n`.
pub open spec fn init_message(n: u32) -> Seq<char> {
    "TAO Initialized! "@ + decimal(n as nat)
}

/// The value of a string of decimal digits, most significant first.
pub open spec fn decimal_value(digits: Seq<char>) -> int
    decreases digits.len(),
{
    if digits.len() == 0 {
        0
    } else {
        decimal_value(digits.drop_last()) * 10 + (digits.last() as int - 48)
    }
}

/// Whether `c` is one of the digits `0` to `9`.
pub open spec fn is_digit(c: char) -> bool {
    '0' <= c <= '9'
}

/// `decimal(n)` is the canonical decimal numeral of `n`: a non-empty string
/// of digits whose value is `n`, with no leading zero unless `n` is 0.
pub proof fn lemma_decimal_is_numeral(n: nat)
    ensures
        decimal(n).len() > 0,
        forall|i: int| 0 <= i < decimal(n).len() ==> is_digit(#[trigger] decimal(n)[i]),
        decimal_value(decimal(n)) == n,
        decimal(n)[0] == '0' ==> n == 0,
        n < 10 <==> decimal(n).len() == 1,
    decreases n,
{
    if n >= 10 {
        lemma_decimal_is_numeral(n / 10);
        assert(decimal(n).drop_last() =~= decimal(n / 10));
        assert forall|i: int| 0 <= i < decimal(n).len() implies is_digit(#[trigger] decimal(n)[i]) by {
            if i < decimal(n / 10).len() {
                assert(decimal(n)[i] == decimal(n / 10)[i]);
            }
        }
        assert(decimal(n)[0] == decimal(n / 10)[0]);
        assert(decimal(n).last() as int == n % 10 + 48);
        assert(decimal_value(decimal(n)) == decimal_value(decimal(n / 10)) * 10 + (n % 10));
        assert(n == (n / 10) * 10 + n % 10) by (nonlinear_arith);
    } else {
        assert(decimal(n).drop_last() =~= Seq::<char>::empty());
        assert(decimal(n).last() as int == n + 48);
        assert(decimal_value(decimal(n)) == decimal_value(Seq::<char>::empty()) * 10 + n);
    }
}

/// Different instances log different greetings: the greeting gives the
/// instance number back.
pub proof fn lemma_greetings_distinct(n: u32, m: u32)
    requires
        n != m,
    ensures
        init_message(n) != init_message(m),
{
    lemma_decimal_is_numeral(n as nat);
    lemma_decimal_is_numeral(m as nat);
    let prefix = "TAO Initialized! "@;
    if init_message(n) == init_message(m) {
        assert(decimal(n as nat) =~= init_message(n).subrange(prefix.len() as int, init_message(n).len() as int));
        assert(decimal(m as nat) =~= init_message(m).subrange(prefix.len() as int, init_message(m).len() as int));
    }
}

/// The one-character string of the digit `d`.
fn digit_str(d: u32) -> (s: &'static str)
    requires
        d < 10,
    ensures
        s@ == seq![((d + 48) as char)],
{
    proof {
        reveal_strlit("0");
        reveal_strlit("1");
        reveal_strlit("2");
        reveal_strlit("3");
        reveal_strlit("4");
        reveal_strlit("5");
        reveal_strlit("6");
        reveal_strlit("7");
        reveal_strlit("8");
        reveal_strlit("9");
    }
    match d {
        0 => "0",
        1 => "1",
        2 => "2",
        3 => "3",
        4 => "4",
        5 => "5",
        6 => "6",
        7 => "7",
        8 => "8",
        _ => "9",
    }
}

/// Appends the decimal digits of `n` to `s`.
fn append_decimal(s: &mut String, n: u32)
    ensures
        final(s)@ == old(s)@ + decimal(n as nat),
    decreases n,
{
    if n >= 10 {
        append_decimal(s, n / 10);
    }
    s.append(digit_str(n % 10));
    proof {
        if n >= 10 {
            assert(old(s)@ + decimal(n as nat) =~= (old(s)@ + decimal((n / 10) as nat)) + seq![
                ((n % 10 + 48) as char),
            ]);
        } else {
            assert(decimal(n as nat) =~= seq![((n % 10 + 48) as char)]);
        }
    }
}

/// The greeting of instance number `n`.
fn format_init_message(n: u32) -> (message: String)
    ensures
        message@ == init_message(n),
{
    let mut message = String::from_str("TAO Initialized! ");
    append_decimal(&mut message, n);
    message
}

/// Initialises one more instance: `instances` counts the instances so far,
/// shared by all of them. Returns the message to log.
pub fn init(instances: &mut u32) -> (message: String)
    requires
        *old(instances) < u32::MAX,
    ensures
        *final(instances) == *old(instances) + 1,
        message@ == init_message(*old(instances)),
{
    let m: u32 = *instances;
    *instances = m + 1;
    format_init_message(m)
}

} // verus!
