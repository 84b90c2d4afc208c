//! File sizes in human units: choosing the unit, and the integer parts of the text.
use vstd::prelude::*;
use crate::strs::{decimal_spec, push_str, u64_to_string};

verus! {

broadcast use vstd::string::group_string_axioms;

/// A product held at `u64::MAX` when it would not fit.
pub open spec fn sat_mul(a: nat, b: nat) -> nat {
    if a * b > u64::MAX { u64::MAX as nat } else { a * b }
}

/// The unit and suffix index reached from `unit` and `index`: while a further suffix is
/// left and the value is at least the next unit, step up a unit.
pub open spec fn pick_from(value: nat, n: nat, base: nat, unit: nat, index: nat) -> (nat, nat)
    decreases n - index,
{
    if index + 1 < n && value >= sat_mul(unit, base) {
        pick_from(value, n, base, sat_mul(unit, base), index + 1)
    } else {
        (unit, index)
    }
}

/// A product held at `u64::MAX` (see `sat_mul`).
fn sat_mul_exec(a: u64, b: u64) -> (r: u64)
    ensures
        r as nat == sat_mul(a as nat, b as nat),
{
    match a.checked_mul(b) {
        Some(x) => x,
        None => u64::MAX,
    }
}

/// The largest unit (a power of `base`, one per suffix) that is at most the value, with
/// its suffix; `(1, "")` when there are no suffixes or the base is below 2.
pub fn pick_unit_and_suffix<'a>(value: u64, suffixes: &'a [&'a str], base: u64) -> (r: (u64, &'a str))
    ensures
        suffixes@.len() == 0 || base < 2 ==> r.0 == 1 && r.1@ == Seq::<char>::empty(),
        suffixes@.len() > 0 && base >= 2 ==> ({
            let p = pick_from(value as nat, suffixes@.len(), base as nat, 1, 0);
            r.0 as nat == p.0 && p.1 < suffixes@.len() && r.1 == suffixes@[p.1 as int]
        }),
{
    if suffixes.len() == 0 || base < 2 {
        proof {
            reveal_strlit("");
        }
        return (1, "");
    }
    let mut unit: u64 = 1;
    let mut index: usize = 0;
    while index < suffixes.len() - 1 && value >= sat_mul_exec(unit, base)
        invariant
            index < suffixes@.len(),
            base >= 2,
            pick_from(value as nat, suffixes@.len(), base as nat, unit as nat, index as nat)
                == pick_from(value as nat, suffixes@.len(), base as nat, 1, 0),
        decreases suffixes@.len() - index,
    {
        unit = sat_mul_exec(unit, base);
        index = index + 1;
    }
    (unit, suffixes[index])
}

/// A number below a thousand in three digits, zeros in front.
pub open spec fn three_digits(k: nat) -> Seq<char> {
    if k < 10 { seq!['0', '0'] + decimal_spec(k) } else if k < 100 { seq!['0'] + decimal_spec(k) } else { decimal_spec(k) }
}

/// A number in decimal with its digits grouped in threes by the separator.
pub open spec fn grouped(n: nat, sep: Seq<char>) -> Seq<char>
    decreases n,
{
    if n < 1000 { decimal_spec(n) } else { grouped(n / 1000, sep) + sep + three_digits(n % 1000) }
}

/// A number below a thousand in three digits (see `three_digits`).
fn three_digits_exec(k: u64) -> (r: String)
    requires
        k < 1000,
    ensures
        r@ == three_digits(k as nat),
{
    let mut r = String::new();
    if k < 10 {
        r.push('0');
        r.push('0');
    } else if k < 100 {
        r.push('0');
    }
    let d = u64_to_string(k);
    push_str(&mut r, d.as_str());
    assert(r@ =~= three_digits(k as nat));
    r
}

/// A number with its digits grouped in threes by the separator (see `grouped`).
pub fn format_grouped_u64(n: u64, separator: &str) -> (r: String)
    ensures
        r@ == grouped(n as nat, separator@),
    decreases n,
{
    if n < 1000 {
        u64_to_string(n)
    } else {
        let mut r = format_grouped_u64(n / 1000, separator);
        push_str(&mut r, separator);
        let t = three_digits_exec(n % 1000);
        push_str(&mut r, t.as_str());
        r
    }
}

/// The text of a size below a thousand bytes: `1 byte`, or the count and `bytes`;
/// none for larger sizes, which are given in a larger unit.
pub fn small_size_text(size: u64, separator: &str) -> (r: Option<String>)
    ensures
        size == 1 ==> r is Some && r->0@ == seq!['1', ' ', 'b', 'y', 't', 'e'],
        size != 1 && size < 1000 ==> r is Some && r->0@ == grouped(size as nat, separator@) + seq![' ', 'b', 'y', 't', 'e', 's'],
        size >= 1000 ==> r is None,
{
    if size == 1 {
        let mut r = String::new();
        push_str(&mut r, "1 byte");
        proof {
            reveal_strlit("1 byte");
        }
        assert(r@ =~= seq!['1', ' ', 'b', 'y', 't', 'e']);
        Some(r)
    } else if size < 1000 {
        let mut r = format_grouped_u64(size, separator);
        push_str(&mut r, " bytes");
        proof {
            reveal_strlit(" bytes");
        }
        assert(r@ =~= grouped(size as nat, separator@) + seq![' ', 'b', 'y', 't', 'e', 's']);
        Some(r)
    } else {
        None
    }
}


proof fn lemma_pick_from(value: nat, n: nat, base: nat, unit: nat, index: nat)
    requires
        index < n,
        unit <= value || index == 0,
    ensures
        ({
            let p = pick_from(value, n, base, unit, index);
            &&& p.1 < n
            &&& index <= p.1
            &&& (p.1 == index ==> p.0 == unit)
            &&& (p.0 <= value || p.1 == index)
            &&& (p.1 + 1 == n || value < sat_mul(p.0, base))
        }),
    decreases n - index,
{
    if index + 1 < n && value >= sat_mul(unit, base) {
        lemma_pick_from(value, n, base, sat_mul(unit, base), index + 1);
    }
}

/// The unit picked is the largest one that the value reaches: at most the value (or the
/// first unit), and either the last suffix's or more than the value once multiplied by
/// the base; its suffix is one of those given.
pub proof fn law_pick_largest_unit(value: nat, n: nat, base: nat)
    requires
        n > 0,
    ensures
        ({
            let p = pick_from(value, n, base, 1, 0);
            &&& p.1 < n
            &&& (p.0 <= value || p.1 == 0)
            &&& (p.1 + 1 == n || value < sat_mul(p.0, base))
        }),
{
    lemma_pick_from(value, n, base, 1, 0);
}

proof fn lemma_decimal_thousands(n: nat)
    requires
        n >= 1000,
    ensures
        decimal_spec(n) == decimal_spec(n / 1000) + three_digits(n % 1000),
{
    let a = n / 10;
    let b = a / 10;
    assert(b / 10 == n / 1000);
    assert(decimal_spec(n) == decimal_spec(a).push(crate::strs::digit_char(n % 10)));
    assert(decimal_spec(a) == decimal_spec(b).push(crate::strs::digit_char(a % 10)));
    assert(decimal_spec(b) == decimal_spec(b / 10).push(crate::strs::digit_char(b % 10)));
    let k = n % 1000;
    assert(k == 100 * (b % 10) + 10 * (a % 10) + n % 10);
    if k < 10 {
        assert(decimal_spec(k) == seq![crate::strs::digit_char(k)]);
        assert(b % 10 == 0 && a % 10 == 0 && k == n % 10);
    } else if k < 100 {
        assert(k / 10 == a % 10 && k % 10 == n % 10 && b % 10 == 0);
        assert(decimal_spec(k) == decimal_spec(k / 10).push(crate::strs::digit_char(k % 10)));
        assert(decimal_spec(k / 10) == seq![crate::strs::digit_char(k / 10)]);
    } else {
        assert(k / 10 == 10 * (b % 10) + a % 10 && k % 10 == n % 10);
        assert((k / 10) / 10 == b % 10 && (k / 10) % 10 == a % 10);
        assert(decimal_spec(k) == decimal_spec(k / 10).push(crate::strs::digit_char(k % 10)));
        assert(decimal_spec(k / 10) == decimal_spec((k / 10) / 10).push(crate::strs::digit_char((k / 10) % 10)));
        assert(decimal_spec((k / 10) / 10) == seq![crate::strs::digit_char((k / 10) / 10)]);
    }
    assert(decimal_spec(n) =~= decimal_spec(n / 1000) + three_digits(k));
}

/// With an empty separator, grouped digits are the number's plain decimal digits.
pub proof fn law_grouped_without_separator(n: nat)
    ensures
        grouped(n, Seq::empty()) == decimal_spec(n),
    decreases n,
{
    if n >= 1000 {
        law_grouped_without_separator(n / 1000);
        lemma_decimal_thousands(n);
        assert(grouped(n, Seq::empty()) =~= decimal_spec(n / 1000) + three_digits(n % 1000));
    }
}

} // verus!
