use vstd::prelude::*;
use vstd::string::*;

use crate::utils::numtext::{
    decimal, decimal_digits, digit_char, digit_str, magnitude, thousands, grouped_prefix,
    unsigned_magnitude,
};

verus! {

/// A chip count in full: a minus sign before negatives, then the digits of
/// the magnitude with commas between the thousands.
pub open spec fn chips_long(amount: int) -> Seq<char> {
    (if amount < 0 {
        seq!['-']
    } else {
        Seq::empty()
    }) + thousands(decimal(magnitude(amount)))
}

pub fn format_chips_long(amount: i64) -> (s: String)
    ensures
        s@ == chips_long(amount as int),
{
    let abs = unsigned_magnitude(amount);
    let digits = decimal_digits(abs);
    let ghost d = decimal(abs as nat);
    let mut result = if amount < 0 {
        proof {
            reveal_strlit("-");
        }
        String::from_str("-")
    } else {
        proof {
            reveal_strlit("");
        }
        String::from_str("")
    };
    let ghost sign = result@;
    let len = digits.len();
    let mut i: usize = 0;
    while i < len
        invariant
            0 <= i <= len,
            len == digits@.len(),
            len == d.len(),
            forall|j: int| 0 <= j < len ==> #[trigger] digits@[j] < 10 && digit_char(digits@[j] as nat) == d[j],
            result@ == sign + grouped_prefix(d, i as int),
        decreases len - i,
    {
        if i > 0 && (len - i) % 3 == 0 {
            proof {
                reveal_strlit(",");
            }
            result.append(",");
        }
        result.append(digit_str(digits[i] as u64));
        proof {
            let g = grouped_prefix(d, i as int);
            let comma: Seq<char> = if i > 0 && (d.len() - i) % 3 == 0 {
                seq![',']
            } else {
                Seq::empty()
            };
            assert(grouped_prefix(d, i + 1) == g + comma + seq![d[i as int]]);
            assert(sign + g + comma + seq![d[i as int]] =~= sign + (g + comma + seq![d[i as int]]));
            if !(i > 0 && (len - i) % 3 == 0) {
                assert(sign + g + seq![d[i as int]] =~= sign + (g + comma + seq![d[i as int]]));
            }
        }
        i += 1;
    }
    result
}

/// The number a decimal digit character stands for.
pub open spec fn digit_of(c: char) -> int {
    c as int - '0' as int
}

/// The number written in decimal digits.
pub open spec fn read_digits(s: Seq<char>) -> int
    decreases s.len(),
{
    if s.len() == 0 {
        0
    } else {
        read_digits(s.drop_last()) * 10 + digit_of(s.last())
    }
}

/// `s` with its commas taken out.
pub open spec fn without_commas(s: Seq<char>) -> Seq<char>
    decreases s.len(),
{
    if s.len() == 0 {
        s
    } else {
        without_commas(s.drop_last()) + if s.last() == ',' {
            Seq::empty()
        } else {
            seq![s.last()]
        }
    }
}

/// A chip count read back: an optional minus sign, then digits with
/// commas between them.
pub open spec fn read_chips(s: Seq<char>) -> int {
    if s.len() > 0 && s[0] == '-' {
        -read_digits(without_commas(s.drop_first()))
    } else {
        read_digits(without_commas(s))
    }
}

proof fn lemma_without_commas_add(a: Seq<char>, b: Seq<char>)
    ensures
        without_commas(a + b) == without_commas(a) + without_commas(b),
    decreases b.len(),
{
    if b.len() == 0 {
        assert(a + b =~= a);
        assert(without_commas(a) + without_commas(b) =~= without_commas(a));
    } else {
        lemma_without_commas_add(a, b.drop_last());
        assert((a + b).drop_last() =~= a + b.drop_last());
        assert((a + b).last() == b.last());
        let tail: Seq<char> = if b.last() == ',' { Seq::empty() } else { seq![b.last()] };
        assert(without_commas(a) + without_commas(b.drop_last()) + tail =~= without_commas(a) + (
        without_commas(b.drop_last()) + tail));
    }
}

proof fn lemma_decimal_digits_only(n: nat)
    ensures
        forall|i: int| 0 <= i < decimal(n).len() ==> '0' <= #[trigger] decimal(n)[i] <= '9',
        read_digits(decimal(n)) == n,
        decimal(n).len() >= 1,
    decreases n,
{
    lemma_digit_of_char(n % 10);
    if n >= 10 {
        lemma_decimal_digits_only(n / 10);
        assert(decimal(n).drop_last() =~= decimal(n / 10));
        assert(decimal(n).last() == digit_char(n % 10));
        assert(read_digits(decimal(n)) == read_digits(decimal(n / 10)) * 10 + digit_of(digit_char(n % 10)));
    } else {
        assert(decimal(n).drop_last() =~= Seq::<char>::empty());
        assert(read_digits(Seq::<char>::empty()) == 0);
        assert(read_digits(decimal(n)) == read_digits(decimal(n).drop_last()) * 10 + digit_of(decimal(n).last()));
    }
}

proof fn lemma_digit_of_char(d: nat)
    requires
        d < 10,
    ensures
        digit_of(digit_char(d)) == d,
        '0' <= digit_char(d) <= '9',
{
    assert('0' as int == 48 && '1' as int == 49 && '2' as int == 50 && '3' as int == 51 && '4' as int
        == 52 && '5' as int == 53 && '6' as int == 54 && '7' as int == 55 && '8' as int == 56 && '9' as int
        == 57);
}

proof fn lemma_grouped_without_commas(d: Seq<char>, k: int)
    requires
        0 <= k <= d.len(),
        forall|i: int| 0 <= i < d.len() ==> #[trigger] d[i] != ',',
    ensures
        without_commas(grouped_prefix(d, k)) == d.take(k),
    decreases k,
{
    if k > 0 {
        let i = k - 1;
        lemma_grouped_without_commas(d, i);
        let comma: Seq<char> = if i > 0 && (d.len() - i) % 3 == 0 { seq![','] } else { Seq::empty() };
        lemma_without_commas_add(grouped_prefix(d, i), comma);
        lemma_without_commas_add(grouped_prefix(d, i) + comma, seq![d[i]]);
        assert(without_commas(comma) =~= Seq::<char>::empty()) by {
            reveal_with_fuel(without_commas, 2);
            if comma.len() > 0 {
                assert(comma.drop_last() =~= Seq::<char>::empty());
            }
        }
        assert(without_commas(seq![d[i]]) =~= seq![d[i]]) by {
            reveal_with_fuel(without_commas, 2);
            assert(seq![d[i]].drop_last() =~= Seq::<char>::empty());
        }
        assert(d.take(k) =~= d.take(i).push(d[i]));
    }
}

/// The full chip count reads back as the amount: the sign is a minus
/// exactly for negatives, and the digits with the commas taken out are the
/// amount's decimal digits, without leading zeros.
pub proof fn law_chips_long_reads_back(amount: int)
    ensures
        read_chips(chips_long(amount)) == amount,
        (chips_long(amount)[0] == '-') == (amount < 0),
        without_commas(chips_long(amount)) == (if amount < 0 {
            seq!['-']
        } else {
            Seq::empty()
        }) + decimal(magnitude(amount)),
{
    let d = decimal(magnitude(amount));
    lemma_decimal_digits_only(magnitude(amount));
    assert forall|i: int| 0 <= i < d.len() implies #[trigger] d[i] != ',' by {
        assert('0' <= d[i] <= '9');
    }
    lemma_grouped_without_commas(d, d.len() as int);
    assert(d.take(d.len() as int) =~= d);
    let t = thousands(d);
    assert(t.len() > 0 && t[0] == d[0]) by {
        lemma_grouped_first(d, d.len() as int);
    }
    assert('0' <= d[0] <= '9');
    if amount < 0 {
        assert(chips_long(amount).drop_first() =~= t);
        lemma_without_commas_add(seq!['-'], t);
        assert(without_commas(seq!['-']) =~= seq!['-']) by {
            reveal_with_fuel(without_commas, 2);
            assert(seq!['-'].drop_last() =~= Seq::<char>::empty());
        }
    } else {
        assert(chips_long(amount) =~= t);
    }
}

proof fn lemma_grouped_first(d: Seq<char>, k: int)
    requires
        1 <= k <= d.len(),
    ensures
        grouped_prefix(d, k).len() > 0,
        grouped_prefix(d, k)[0] == d[0],
    decreases k,
{
    if k > 1 {
        lemma_grouped_first(d, k - 1);
    } else {
        assert(grouped_prefix(d, 0) =~= Seq::<char>::empty());
    }
}

/// A decimal digit.
pub open spec fn is_digit(c: char) -> bool {
    '0' <= c <= '9'
}

/// Digit groups joined by commas: a first group of one to three digits,
/// then groups of exactly three, each after a comma.
pub open spec fn digit_groups(s: Seq<char>) -> bool
    decreases s.len(),
{
    if s.len() <= 3 {
        &&& 1 <= s.len()
        &&& forall|i: int| 0 <= i < s.len() ==> is_digit(#[trigger] s[i])
    } else {
        &&& s[s.len() - 4] == ','
        &&& is_digit(s[s.len() - 3])
        &&& is_digit(s[s.len() - 2])
        &&& is_digit(s[s.len() - 1])
        &&& digit_groups(s.take(s.len() - 4))
    }
}

proof fn lemma_grouped_prefix_take(d: Seq<char>, k: int)
    requires
        d.len() >= 3,
        0 <= k <= d.len() - 3,
    ensures
        grouped_prefix(d.take(d.len() - 3), k) == grouped_prefix(d, k),
    decreases k,
{
    if k > 0 {
        lemma_grouped_prefix_take(d, k - 1);
        let e = d.take(d.len() - 3);
        assert(e[k - 1] == d[k - 1]);
        assert((e.len() - (k - 1)) % 3 == (d.len() - (k - 1)) % 3);
    }
}

proof fn lemma_thousands_short(d: Seq<char>, k: int)
    requires
        0 <= k <= d.len() <= 3,
    ensures
        grouped_prefix(d, k) == d.take(k),
    decreases k,
{
    if k > 0 {
        lemma_thousands_short(d, k - 1);
        assert(d.take(k) =~= d.take(k - 1).push(d[k - 1]));
    }
}

proof fn lemma_thousands_groups(d: Seq<char>)
    requires
        d.len() >= 1,
        forall|i: int| 0 <= i < d.len() ==> is_digit(#[trigger] d[i]),
    ensures
        digit_groups(thousands(d)),
    decreases d.len(),
{
    let n = d.len() as int;
    if n <= 3 {
        lemma_thousands_short(d, n);
        assert(d.take(n) =~= d);
    } else {
        let e = d.take(n - 3);
        lemma_thousands_groups(e);
        lemma_grouped_prefix_take(d, n - 3);
        let t = thousands(d);
        let g = grouped_prefix(d, n - 3);
        assert(grouped_prefix(d, n - 2) == g + seq![','] + seq![d[n - 3]]);
        assert(grouped_prefix(d, n - 1) == grouped_prefix(d, n - 2) + Seq::<char>::empty() + seq![d[n - 2]]);
        assert(t == grouped_prefix(d, n - 1) + Seq::<char>::empty() + seq![d[n - 1]]);
        assert(t =~= g + seq![',', d[n - 3], d[n - 2], d[n - 1]]);
        assert(t.take(t.len() - 4) =~= g);
    }
}

proof fn lemma_decimal_lead(n: nat)
    ensures
        (decimal(n)[0] == '0') == (n == 0),
    decreases n,
{
    lemma_digit_of_char(n % 10);
    if n >= 10 {
        lemma_decimal_lead(n / 10);
        lemma_decimal_digits_only(n / 10);
        assert(decimal(n)[0] == decimal(n / 10)[0]);
    }
}

/// The full chip count is written in groups: after the sign, digit groups
/// joined by commas, the first of one to three digits and each later one of
/// exactly three, with no leading zero unless the amount is zero.
pub proof fn law_chips_long_groups(amount: int)
    ensures
        ({
            let s = chips_long(amount);
            let body = if amount < 0 { s.drop_first() } else { s };
            &&& digit_groups(body)
            &&& (body[0] == '0') == (amount == 0)
        }),
{
    let d = decimal(magnitude(amount));
    lemma_decimal_digits_only(magnitude(amount));
    assert forall|i: int| 0 <= i < d.len() implies is_digit(#[trigger] d[i]) by {
        assert('0' <= d[i] <= '9');
    }
    lemma_thousands_groups(d);
    lemma_grouped_first(d, d.len() as int);
    lemma_decimal_lead(magnitude(amount));
    let s = chips_long(amount);
    if amount < 0 {
        assert(s.drop_first() =~= thousands(d));
    } else {
        assert(s =~= thousands(d));
    }
}

} // verus!
