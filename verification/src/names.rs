//! Names under which the coordinator knows its peers.
//!
//! Clients register as `client_<n>` and participants as `<n>`, with `<n>`
//! written in decimal; the coordinator addresses them by these names.

use vstd::prelude::*;

verus! {

/// The character of a decimal digit.
pub open spec fn digit_char(d: nat) -> char {
    if d == 0 {
        '0'
    } else if d == 1 {
        '1'
    } else if d == 2 {
        '2'
    } else if d == 3 {
        '3'
    } else if d == 4 {
        '4'
    } else if d == 5 {
        '5'
    } else if d == 6 {
        '6'
    } else if d == 7 {
        '7'
    } else if d == 8 {
        '8'
    } else {
        '9'
    }
}

/// `n` written in decimal, without leading zeros.
pub open spec fn decimal(n: nat) -> Seq<char>
    decreases n,
{
    if n < 10 {
        seq![digit_char(n)]
    } else {
        decimal(n / 10).push(digit_char(n % 10))
    }
}

/// The name of the client with number `n`.
pub open spec fn client_name(n: nat) -> Seq<char> {
    "client_"@ + decimal(n)
}

/// The name of the participant with number `n`.
pub open spec fn participant_name(n: nat) -> Seq<char> {
    decimal(n)
}

/// The transaction id of the greeting sent to client `n`.
pub open spec fn greeting_txid(n: nat) -> Seq<char> {
    "coordinator_init_"@ + decimal(n)
}

/// The value of a decimal digit character.
pub open spec fn digit_value(c: char) -> int {
    c as int - '0' as int
}

/// A character is a decimal digit.
pub open spec fn is_digit(c: char) -> bool {
    '0' as int <= c as int <= '9' as int
}

/// The number that a string of decimal digits denotes.
pub open spec fn numeral_value(s: Seq<char>) -> int
    decreases s.len(),
{
    if s.len() == 0 {
        0
    } else {
        numeral_value(s.drop_last()) * 10 + digit_value(s.last())
    }
}

/// The digit characters are `'0'` to `'9'` in code order: digit `d` is the
/// character whose code is that of `'0'` plus `d`.
pub proof fn lemma_digit_char_code(d: nat)
    requires
        d < 10,
    ensures
        digit_char(d) as int == '0' as int + d,
        is_digit(digit_char(d)),
        digit_value(digit_char(d)) == d,
{
}

/// `decimal(n)` is the base-10 numeral of `n`: a non-empty string of
/// digits, without a leading zero unless `n` is zero, that denotes `n`.
pub proof fn lemma_decimal_is_numeral(n: nat)
    ensures
        decimal(n).len() >= 1,
        forall|i: int| 0 <= i < decimal(n).len() ==> is_digit(#[trigger] decimal(n)[i]),
        decimal(n)[0] == '0' ==> n == 0,
        numeral_value(decimal(n)) == n,
    decreases n,
{
    lemma_digit_char_code(n % 10);
    if n >= 10 {
        lemma_decimal_is_numeral(n / 10);
        let p = decimal(n / 10);
        assert(decimal(n) == p.push(digit_char(n % 10)));
        assert(decimal(n).drop_last() =~= p);
        assert forall|i: int| 0 <= i < decimal(n).len() implies is_digit(#[trigger] decimal(n)[i]) by {
            if i < p.len() {
                assert(decimal(n)[i] == p[i]);
            }
        }
        assert(decimal(n)[0] == p[0]);
        assert(decimal(n).last() == digit_char(n % 10));
        assert(n == (n / 10) * 10 + n % 10) by (nonlinear_arith);
        assert(numeral_value(decimal(n)) == numeral_value(p) * 10 + digit_value(
            digit_char(n % 10),
        ));
    } else {
        assert(decimal(n).drop_last() =~= Seq::<char>::empty());
        assert(numeral_value(decimal(n).drop_last()) == 0);
        assert(decimal(n).last() == digit_char(n));
    }
}

/// Distinct numbers have distinct numerals, so distinct peers have
/// distinct names.
pub proof fn lemma_decimal_injective(a: nat, b: nat)
    requires
        decimal(a) == decimal(b),
    ensures
        a == b,
{
    lemma_decimal_is_numeral(a);
    lemma_decimal_is_numeral(b);
}

/// Distinct client numbers give distinct client names, and distinct
/// participant numbers distinct participant names.
pub proof fn lemma_names_injective(a: nat, b: nat)
    ensures
        client_name(a) == client_name(b) ==> a == b,
        participant_name(a) == participant_name(b) ==> a == b,
{
    if client_name(a) == client_name(b) {
        let k = "client_"@.len() as int;
        assert(decimal(a) =~= client_name(a).subrange(k, client_name(a).len() as int));
        assert(decimal(b) =~= client_name(b).subrange(k, client_name(b).len() as int));
        lemma_decimal_injective(a, b);
    }
    if participant_name(a) == participant_name(b) {
        lemma_decimal_injective(a, b);
    }
}

fn digit_str(d: u64) -> (s: &'static str)
    requires
        d < 10,
    ensures
        s@ == seq![digit_char(d as nat)],
{
    proof {
        reveal_strlit("0");
        reveal_strlit("1");
        reveal_strlit("2");
        reveal_strlit("3");
        reveal_strlit("4");
        reveal_strlit("5");
        reveal_strlit("6");
        reveal_strlit("7");
        reveal_strlit("8");
        reveal_strlit("9");
    }
    if d == 0 {
        "0"
    } else if d == 1 {
        "1"
    } else if d == 2 {
        "2"
    } else if d == 3 {
        "3"
    } else if d == 4 {
        "4"
    } else if d == 5 {
        "5"
    } else if d == 6 {
        "6"
    } else if d == 7 {
        "7"
    } else if d == 8 {
        "8"
    } else {
        "9"
    }
}

/// `n` written in decimal.
pub fn decimal_string(n: u64) -> (s: String)
    ensures
        s@ == decimal(n as nat),
    decreases n,
{
    if n < 10 {
        String::from_str(digit_str(n))
    } else {
        let mut s = decimal_string(n / 10);
        s.append(digit_str(n % 10));
        s
    }
}

/// The name of the client with number `n`.
pub fn client_name_string(n: u64) -> (s: String)
    ensures
        s@ == client_name(n as nat),
{
    let mut s = String::from_str("client_");
    let d = decimal_string(n);
    s.append(d.as_str());
    s
}

/// The name of the participant with number `n`.
pub fn participant_name_string(n: u64) -> (s: String)
    ensures
        s@ == participant_name(n as nat),
{
    decimal_string(n)
}

/// The transaction id of the greeting sent to client `n`.
pub fn greeting_txid_string(n: u64) -> (s: String)
    ensures
        s@ == greeting_txid(n as nat),
{
    let mut s = String::from_str("coordinator_init_");
    let d = decimal_string(n);
    s.append(d.as_str());
    s
}

} // verus!
