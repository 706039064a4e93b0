use vstd::prelude::*;
use vstd::string::*;

verus! {

/// The character of a decimal digit.
pub open spec fn digit_char(d: nat) -> char {
    if d == 0 { '0' }
    else if d == 1 { '1' }
    else if d == 2 { '2' }
    else if d == 3 { '3' }
    else if d == 4 { '4' }
    else if d == 5 { '5' }
    else if d == 6 { '6' }
    else if d == 7 { '7' }
    else if d == 8 { '8' }
    else { '9' }
}

/// The decimal notation of `n`, most significant digit first, without
/// leading zeros ("0" for zero).
pub open spec fn decimal(n: nat) -> Seq<char>
    decreases n,
{
    if n < 10 {
        seq![digit_char(n)]
    } else {
        decimal(n / 10).push(digit_char(n % 10))
    }
}

pub fn digit_str(d: u64) -> (s: &'static str)
    requires
        d < 10,
    ensures
        s@ == seq![digit_char(d as nat)],
{
    if d == 0 { proof { reveal_strlit("0"); } "0" }
    else if d == 1 { proof { reveal_strlit("1"); } "1" }
    else if d == 2 { proof { reveal_strlit("2"); } "2" }
    else if d == 3 { proof { reveal_strlit("3"); } "3" }
    else if d == 4 { proof { reveal_strlit("4"); } "4" }
    else if d == 5 { proof { reveal_strlit("5"); } "5" }
    else if d == 6 { proof { reveal_strlit("6"); } "6" }
    else if d == 7 { proof { reveal_strlit("7"); } "7" }
    else if d == 8 { proof { reveal_strlit("8"); } "8" }
    else { proof { reveal_strlit("9"); } "9" }
}

/// Writes `n` in decimal.
pub fn decimal_string(n: u64) -> (s: String)
    ensures
        s@ == decimal(n as nat),
    decreases n,
{
    if n < 10 {
        String::from_str(digit_str(n))
    } else {
        let mut s = decimal_string(n / 10);
        s.append(digit_str(n % 10));
        s
    }
}


/// The decimal digits of `n`, as numbers.
pub open spec fn digit_values(n: nat) -> Seq<nat>
    decreases n,
{
    if n < 10 {
        seq![n]
    } else {
        digit_values(n / 10).push(n % 10)
    }
}

proof fn lemma_digits_match(n: nat)
    ensures
        digit_values(n).len() == decimal(n).len(),
        forall|i: int|
            0 <= i < decimal(n).len() ==> digit_char(#[trigger] digit_values(n)[i]) == decimal(n)[i]
                && digit_values(n)[i] < 10,
        decimal(n).len() >= 1,
    decreases n,
{
    if n >= 10 {
        lemma_digits_match(n / 10);
    }
}

/// The decimal digits of `n`, most significant first.
pub fn decimal_digits(n: u64) -> (v: Vec<u8>)
    ensures
        v@.len() == decimal(n as nat).len(),
        v@.len() >= 1,
        forall|i: int|
            0 <= i < v@.len() ==> #[trigger] v@[i] < 10 && digit_char(v@[i] as nat) == decimal(n as nat)[i],
    decreases n,
{
    proof {
        lemma_digits_match(n as nat);
    }
    if n < 10 {
        vec![n as u8]
    } else {
        let mut v = decimal_digits(n / 10);
        v.push((n % 10) as u8);
        v
    }
}

/// `n` written with at least two digits, a leading zero below ten.
pub open spec fn two_digits(n: nat) -> Seq<char> {
    if n < 10 {
        seq!['0'] + decimal(n)
    } else {
        decimal(n)
    }
}

pub fn two_digit_string(n: u64) -> (s: String)
    ensures
        s@ == two_digits(n as nat),
{
    if n < 10 {
        let mut s = String::from_str(digit_str(0));
        let d = decimal_string(n);
        s.append(d.as_str());
        s
    } else {
        decimal_string(n)
    }
}

/// Digits grouped by thousands: the first `k` characters of `d`, with a comma
/// before every character that starts a group of three counted from the end.
pub open spec fn grouped_prefix(d: Seq<char>, k: int) -> Seq<char>
    decreases k,
{
    if k <= 0 {
        Seq::empty()
    } else {
        let i = k - 1;
        grouped_prefix(d, i) + (if i > 0 && (d.len() - i) % 3 == 0 {
            seq![',']
        } else {
            Seq::empty()
        }) + seq![d[i]]
    }
}

/// `d` with a comma between each group of three digits, counted from the end.
pub open spec fn thousands(d: Seq<char>) -> Seq<char> {
    grouped_prefix(d, d.len() as int)
}

/// The magnitude of `x`.
pub open spec fn magnitude(x: int) -> nat {
    if x < 0 {
        (-x) as nat
    } else {
        x as nat
    }
}

/// `x` as a whole number in decimal, a minus sign before negatives.
pub open spec fn signed_decimal(x: int) -> Seq<char> {
    (if x < 0 {
        seq!['-']
    } else {
        Seq::empty()
    }) + decimal(magnitude(x))
}

/// The magnitude of an `i64`, which always fits a `u64`.
pub fn unsigned_magnitude(x: i64) -> (m: u64)
    ensures
        m == magnitude(x as int),
{
    if x < 0 {
        ((-(x + 1)) as u64) + 1
    } else {
        x as u64
    }
}

pub fn signed_decimal_string(x: i64) -> (s: String)
    ensures
        s@ == signed_decimal(x as int),
{
    let m = unsigned_magnitude(x);
    let mut s = if x < 0 {
        proof {
            reveal_strlit("-");
        }
        String::from_str("-")
    } else {
        proof {
            reveal_strlit("");
        }
        String::from_str("")
    };
    let d = decimal_string(m);
    s.append(d.as_str());
    s
}

} // verus!
