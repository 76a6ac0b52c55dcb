//! Numbers as text.
use crate::decimal::{
    abs, divide_half_even, law_round_half_even_is_nearest, round_half_even, Decimal, SCALE,
};
use vstd::arithmetic::div_mod::lemma_mod_breakdown;
use vstd::arithmetic::power::pow;
use vstd::prelude::*;

verus! {

/// The character for a digit.
pub open spec fn digit(d: int) -> char {
    (48 + d) as char
}

/// The decimal digits of a number.
pub open spec fn digits(n: int) -> Seq<char>
    decreases n,
{
    if n < 10 {
        seq![digit(n)]
    } else {
        digits(n / 10).push(digit(n % 10))
    }
}

/// The last `width` decimal digits of a number, with leading zeros.
pub open spec fn last_digits(n: int, width: nat) -> Seq<char>
    decreases width,
{
    if width == 0 {
        Seq::empty()
    } else {
        last_digits(n / 10, (width - 1) as nat).push(digit(n % 10))
    }
}

pub open spec fn power_of_ten(k: nat) -> int
    decreases k,
{
    if k == 0 {
        1
    } else {
        10 * power_of_ten((k - 1) as nat)
    }
}

pub open spec fn minus_sign(negative: bool) -> Seq<char> {
    if negative {
        "-"@
    } else {
        Seq::empty()
    }
}

/// A count of `10^-places` as a decimal number.
pub open spec fn point_text(count: int, places: nat) -> Seq<char> {
    if places == 0 {
        digits(count)
    } else {
        digits(count / power_of_ten(places)) + "."@ + last_digits(count, places)
    }
}

/// A count of `10^-scale`, rounded to `places` decimal places. A negative number keeps its sign
/// even where it rounds to zero.
pub open spec fn fixed(value: int, scale: nat, places: nat) -> Seq<char> {
    minus_sign(value < 0) + point_text(
        round_half_even(abs(value), power_of_ten((scale - places) as nat)),
        places,
    )
}

/// A number rounded to `places` decimal places.
pub open spec fn decimal_text(d: Decimal, places: nat) -> Seq<char> {
    fixed(d.units as int, 8, places)
}

/// A number rounded to `places` decimal places, with its sign in any case.
pub open spec fn signed_text(d: Decimal, places: nat) -> Seq<char> {
    if d.units < 0 {
        decimal_text(d, places)
    } else {
        "+"@ + decimal_text(d, places)
    }
}

/// The text without the zeros at its end.
pub open spec fn without_end_zeros(s: Seq<char>) -> Seq<char>
    decreases s.len(),
{
    if s.len() > 0 && s.last() == '0' {
        without_end_zeros(s.drop_last())
    } else {
        s
    }
}

/// A number with just the decimal places that it needs.
pub open spec fn plain_text(d: Decimal) -> Seq<char> {
    let size = abs(d.units as int);
    minus_sign(d.units < 0) + digits(size / (SCALE as int)) + (if size % (SCALE as int) == 0 {
        Seq::empty()
    } else {
        "."@ + without_end_zeros(last_digits(size, 8))
    })
}

/// Digits with a comma before each group of three from the right.
pub open spec fn grouped(s: Seq<char>) -> Seq<char>
    decreases s.len(),
{
    if s.len() <= 3 {
        s
    } else {
        grouped(s.take(s.len() - 3)) + ","@ + s.skip(s.len() - 3)
    }
}

/// An integer with a comma before each group of three digits.
pub open spec fn grouped_integer(n: int) -> Seq<char> {
    minus_sign(n < 0) + grouped(digits(abs(n)))
}

/// An integer in decimal.
pub open spec fn integer(n: int) -> Seq<char> {
    minus_sign(n < 0) + digits(abs(n))
}

fn append_digits(out: &mut String, n: u128)
    ensures
        final(out)@ == old(out)@ + digits(n as int),
    decreases n,
{
    if n >= 10 {
        append_digits(out, n / 10);
    }
    let d: u8 = (n % 10) as u8;
    out.push((48 + d) as char);
    assert(out@ =~= old(out)@ + digits(n as int));
}

fn append_last_digits(out: &mut String, n: u128, width: u32)
    ensures
        final(out)@ == old(out)@ + last_digits(n as int, width as nat),
    decreases width,
{
    if width > 0 {
        append_last_digits(out, n / 10, width - 1);
        let d: u8 = (n % 10) as u8;
        out.push((48 + d) as char);
    }
    assert(out@ =~= old(out)@ + last_digits(n as int, width as nat));
}

proof fn lemma_power_of_ten_grows(a: nat, b: nat)
    requires
        a <= b,
    ensures
        0 < power_of_ten(a) <= power_of_ten(b),
    decreases b,
{
    if a < b {
        lemma_power_of_ten_grows(a, (b - 1) as nat);
    } else if a > 0 {
        lemma_power_of_ten_grows((a - 1) as nat, (b - 1) as nat);
    }
}

proof fn lemma_power_of_ten_16()
    ensures
        power_of_ten(16) == 10_000_000_000_000_000,
{
    reveal_with_fuel(power_of_ten, 17);
}

fn ten_to_the(k: u32) -> (p: u128)
    requires
        k <= 16,
    ensures
        p == power_of_ten(k as nat),
        1 <= p <= 10_000_000_000_000_000,
        k > 0 ==> p > 1,
{
    let mut p: u128 = 1;
    let mut i: u32 = 0;
    while i < k
        invariant
            i <= k <= 16,
            p == power_of_ten(i as nat),
            1 <= p,
            i > 0 ==> p > 1,
        decreases k - i,
    {
        proof {
            lemma_power_of_ten_16();
            lemma_power_of_ten_grows(i as nat + 1, 16);
        }
        p = p * 10;
        i = i + 1;
    }
    proof {
        lemma_power_of_ten_16();
        lemma_power_of_ten_grows(k as nat, 16);
    }
    p
}

fn append_point(out: &mut String, count: u128, places: u32)
    requires
        places <= 16,
    ensures
        final(out)@ == old(out)@ + point_text(count as int, places as nat),
{
    if places == 0 {
        append_digits(out, count);
    } else {
        append_digits(out, count / ten_to_the(places));
        out.append(".");
        append_last_digits(out, count, places);
    }
    assert(out@ =~= old(out)@ + point_text(count as int, places as nat));
}

/// A count of `10^-scale`, rounded to `places` decimal places.
pub(crate) fn fixed_text(value: i128, scale: u32, places: u32) -> (r: String)
    requires
        places <= scale <= 16,
    ensures
        r@ == fixed(value as int, scale as nat, places as nat),
{
    let mut r: String = String::new();
    let size: u128 = if value < 0 {
        r.append("-");
        (-(value + 1)) as u128 + 1
    } else {
        value as u128
    };
    assert(r@ =~= minus_sign(value < 0));
    append_point(&mut r, divide_half_even(size, ten_to_the(scale - places)), places);
    r
}

/// A number rounded to `places` decimal places.
pub fn to_fixed(d: Decimal, places: u32) -> (r: String)
    requires
        places <= 8,
    ensures
        r@ == decimal_text(d, places as nat),
{
    fixed_text(d.units as i128, 8, places)
}

/// A number rounded to `places` decimal places, with its sign in any case.
pub fn to_signed(d: Decimal, places: u32) -> (r: String)
    requires
        places <= 8,
    ensures
        r@ == signed_text(d, places as nat),
{
    let body: String = to_fixed(d, places);
    if d.units < 0 {
        body
    } else {
        let mut r: String = String::new();
        r.append("+");
        r.append(body.as_str());
        assert(r@ =~= signed_text(d, places as nat));
        r
    }
}

/// A number with just the decimal places that it needs.
pub fn to_plain(d: Decimal) -> (r: String)
    ensures
        r@ == plain_text(d),
{
    let mut r: String = String::new();
    let size: u128 = d.magnitude();
    if d.units < 0 {
        r.append("-");
    }
    assert(r@ =~= minus_sign(d.units < 0));
    append_digits(&mut r, size / SCALE as u128);
    if size % SCALE as u128 != 0 {
        let mut n: u128 = size;
        let mut width: u32 = 8;
        let ghost all = last_digits(size as int, 8);
        while width > 0 && n % 10 == 0
            invariant
                width <= 8,
                without_end_zeros(all) == without_end_zeros(last_digits(n as int, width as nat)),
            decreases width,
        {
            assert(last_digits(n as int, width as nat).drop_last() =~= last_digits(
                n as int / 10,
                (width - 1) as nat,
            ));
            n = n / 10;
            width = width - 1;
        }
        assert(without_end_zeros(last_digits(n as int, width as nat)) == last_digits(
            n as int,
            width as nat,
        ));
        r.append(".");
        append_last_digits(&mut r, n, width);
    }
    assert(r@ =~= plain_text(d));
    r
}

/// A count in decimal.
pub(crate) fn to_count_text(n: usize) -> (r: String)
    ensures
        r@ == digits(n as int),
{
    let mut r: String = String::new();
    append_digits(&mut r, n as u128);
    assert(r@ =~= digits(n as int));
    r
}

/// An integer in decimal.
pub fn to_integer_text(n: i64) -> (r: String)
    ensures
        r@ == integer(n as int),
{
    let mut r: String = String::new();
    if n < 0 {
        r.append("-");
    }
    assert(r@ =~= minus_sign(n < 0));
    append_digits(&mut r, Decimal::from_units(n).magnitude());
    r
}

/// An integer with a comma before each group of three digits.
pub fn format_int(value: i64) -> (r: String)
    requires
        value > i64::MIN,
    ensures
        r@ == grouped_integer(value as int),
{
    grouped_text(value)
}

/// An integer with a comma before each group of three digits.
pub(crate) fn grouped_text(value: i64) -> (r: String)
    ensures
        r@ == grouped_integer(value as int),
{
    let mut all: String = String::new();
    append_digits(&mut all, Decimal::from_units(value).magnitude());
    assert(all@ =~= digits(abs(value as int)));
    let body: String = group_digits(all.as_str());
    let mut r: String = String::new();
    if value < 0 {
        r.append("-");
    }
    r.append(body.as_str());
    assert(r@ =~= grouped_integer(value as int));
    r
}

fn group_digits(s: &str) -> (r: String)
    ensures
        r@ == grouped(s@),
    decreases s@.len(),
{
    let n: usize = s.unicode_len();
    if n <= 3 {
        s.to_owned()
    } else {
        let mut r: String = group_digits(s.substring_char(0, n - 3));
        r.append(",");
        r.append(s.substring_char(n - 3, n));
        assert(s@.subrange(0, n - 3) =~= s@.take(n - 3));
        assert(s@.subrange(n - 3, n as int) =~= s@.skip(n - 3));
        r
    }
}

/// Taking out the commas of a grouped text without commas gives the text back.
pub proof fn law_grouping_only_adds_commas(s: Seq<char>)
    requires
        !s.contains(','),
    ensures
        grouped(s).filter(|c: char| c != ',') == s,
    decreases s.len(),
{
    let keep = |c: char| c != ',';
    if s.len() <= 3 {
        lemma_filter_keeps_all(s, keep);
    } else {
        let head = s.take(s.len() - 3);
        let tail = s.skip(s.len() - 3);
        assert(!head.contains(',')) by {
            if head.contains(',') {
                let i = choose|i: int| 0 <= i < head.len() && head[i] == ',';
                assert(s[i] == ',');
            }
        }
        law_grouping_only_adds_commas(head);
        reveal_strlit(",");
        Seq::filter_distributes_over_add(grouped(head) + ","@, tail, keep);
        Seq::filter_distributes_over_add(grouped(head), ","@, keep);
        assert(","@ =~= seq![',']);
        assert(seq![','].filter(keep) =~= Seq::<char>::empty()) by {
            reveal_with_fuel(Seq::filter, 2);
            assert(seq![','].drop_last() =~= Seq::<char>::empty());
        }
        lemma_filter_keeps_all(tail, keep);
        assert(head + tail =~= s);
    }
}

proof fn lemma_filter_keeps_all(s: Seq<char>, keep: spec_fn(char) -> bool)
    requires
        keep == (|c: char| c != ','),
        !s.contains(','),
    ensures
        s.filter(keep) == s,
    decreases s.len(),
{
    reveal(Seq::filter);
    if s.len() > 0 {
        assert(s[s.len() - 1] != ',');
        let t = s.drop_last();
        assert(!t.contains(',')) by {
            if t.contains(',') {
                let i = choose|i: int| 0 <= i < t.len() && t[i] == ',';
                assert(s[i] == ',');
            }
        }
        lemma_filter_keeps_all(t, keep);
        assert(t.push(s.last()) =~= s);
    } else {
        assert(s.filter(keep) =~= s);
    }
}

/// The number that a run of digits stands for, the last digit counting once and each one before it
/// ten times as much as its neighbour.
pub open spec fn worth(s: Seq<char>) -> int
    decreases s.len(),
{
    if s.len() == 0 {
        0
    } else {
        worth(s.drop_last()) * 10 + (s.last() as int - '0' as int)
    }
}

/// Whether the text holds digits alone.
pub open spec fn all_digits(s: Seq<char>) -> bool {
    forall|i: int| 0 <= i < s.len() ==> '0' <= #[trigger] s[i] <= '9'
}

proof fn lemma_pushed_digit(s: Seq<char>, d: int)
    requires
        all_digits(s),
        0 <= d <= 9,
    ensures
        all_digits(s.push(digit(d))),
        worth(s.push(digit(d))) == worth(s) * 10 + d,
{
    assert(s.push(digit(d)).drop_last() =~= s);
    assert(digit(d) as int == 48 + d);
    assert('0' <= digit(d) <= '9');
}

/// A number is written with the digits that stand for it, at least one, and with no zero in front
/// unless it is zero.
pub proof fn law_digits_read_back(n: int)
    requires
        n >= 0,
    ensures
        digits(n).len() > 0,
        all_digits(digits(n)),
        worth(digits(n)) == n,
        digits(n)[0] == '0' ==> n == 0,
        n < 10 ==> digits(n).len() == 1,
    decreases n,
{
    if n < 10 {
        lemma_pushed_digit(Seq::empty(), n);
        assert(Seq::<char>::empty().push(digit(n)) =~= digits(n));
        assert(digit(n) as int == 48 + n);
    } else {
        law_digits_read_back(n / 10);
        lemma_pushed_digit(digits(n / 10), n % 10);
    }
}

/// A power of ten is ten times itself so often.
pub proof fn law_power_of_ten(k: nat)
    ensures
        power_of_ten(k) == pow(10, k),
        power_of_ten(k) > 0,
    decreases k,
{
    reveal(pow);
    if k > 0 {
        law_power_of_ten((k - 1) as nat);
    }
}

/// The last digits of a number stand for what is left of it below the power of ten, with zeros in
/// front as needed.
pub proof fn law_last_digits_read_back(n: int, width: nat)
    requires
        n >= 0,
    ensures
        last_digits(n, width).len() == width,
        all_digits(last_digits(n, width)),
        worth(last_digits(n, width)) == n % pow(10, width),
    decreases width,
{
    law_power_of_ten(width);
    if width == 0 {
    } else {
        let less = (width - 1) as nat;
        law_power_of_ten(less);
        law_last_digits_read_back(n / 10, less);
        lemma_pushed_digit(last_digits(n / 10, less), n % 10);
        lemma_mod_breakdown(n, 10, power_of_ten(less));
    }
}

/// A rounded number starts with a minus sign just where it is below zero. The rest is the nearest
/// count of the last place, an even one at a tie, with the point before that many digits.
pub proof fn law_fixed_is_nearest(value: int, scale: nat, places: nat)
    requires
        0 < places <= scale,
    ensures
        ({
            let text = fixed(value, scale, places);
            let start = if value < 0 {
                1int
            } else {
                0
            };
            let size = if value < 0 {
                -value
            } else {
                value
            };
            let point = text.len() - places - 1;
            let head = text.subrange(start, point);
            let tail = text.subrange(point + 1, text.len() as int);
            let count = worth(head) * pow(10, places) + worth(tail);
            let step = pow(10, (scale - places) as nat);
            &&& start < point
            &&& value < 0 ==> text[0] == '-'
            &&& text[point] == '.'
            &&& all_digits(head)
            &&& all_digits(tail)
            &&& head[0] == '0' ==> head.len() == 1
            &&& -step <= 2 * (count * step - size) <= step
            &&& 2 * (count * step - size) == step || 2 * (size - count * step) == step ==> count % 2
                == 0
        }),
{
    let text = fixed(value, scale, places);
    let size = abs(value);
    law_power_of_ten((scale - places) as nat);
    law_power_of_ten(places);
    let step = power_of_ten((scale - places) as nat);
    let p = power_of_ten(places);
    let count = round_half_even(size, step);
    law_round_half_even_is_nearest(size, step);
    assert(count >= 0) by (nonlinear_arith)
        requires
            -step <= 2 * (count * step - size),
            size >= 0,
            step > 0,
    ;
    vstd::arithmetic::div_mod::lemma_div_pos_is_pos(count, p);
    vstd::arithmetic::div_mod::lemma_fundamental_div_mod(count, p);
    let h = digits(count / p);
    let t = last_digits(count, places);
    law_digits_read_back(count / p);
    law_last_digits_read_back(count, places);
    reveal_strlit("-");
    reveal_strlit(".");
    let sign = minus_sign(value < 0);
    assert(text =~= sign + ((h + "."@) + t));
    let start = sign.len() as int;
    let point = text.len() - places - 1;
    assert(text.subrange(start, point) =~= h);
    assert(text.subrange(point + 1, text.len() as int) =~= t);
    assert((count / p) * p + count % p == count) by (nonlinear_arith)
        requires
            count == p * (count / p) + count % p,
    ;
}

/// A rounded number without places is a minus sign, just where it is below zero, and the digits of
/// the nearest integer, an even one at a tie.
pub proof fn law_rounded_integer_is_nearest(value: int, scale: nat)
    ensures
        ({
            let text = fixed(value, scale, 0);
            let start = if value < 0 {
                1int
            } else {
                0
            };
            let size = if value < 0 {
                -value
            } else {
                value
            };
            let body = text.subrange(start, text.len() as int);
            let step = pow(10, scale);
            &&& start < text.len()
            &&& value < 0 ==> text[0] == '-'
            &&& all_digits(body)
            &&& body[0] == '0' ==> body.len() == 1
            &&& -step <= 2 * (worth(body) * step - size) <= step
            &&& 2 * (worth(body) * step - size) == step || 2 * (size - worth(body) * step) == step
                ==> worth(body) % 2 == 0
        }),
{
    let text = fixed(value, scale, 0);
    let size = abs(value);
    law_power_of_ten(scale);
    let step = power_of_ten(scale);
    let count = round_half_even(size, step);
    law_round_half_even_is_nearest(size, step);
    assert(count >= 0) by (nonlinear_arith)
        requires
            -step <= 2 * (count * step - size),
            size >= 0,
            step > 0,
    ;
    law_digits_read_back(count);
    reveal_strlit("-");
    let sign = minus_sign(value < 0);
    assert(text =~= sign + digits(count));
    assert(text.subrange(sign.len() as int, text.len() as int) =~= digits(count));
}

/// An amount is written in hundred-millionths; with its sign in any case, a plus sign stands before
/// one that is not below zero.
pub proof fn law_signs_are_shown(d: Decimal, places: nat)
    ensures
        decimal_text(d, places) == fixed(d.units as int, 8, places),
        d.units < 0 ==> signed_text(d, places) == fixed(d.units as int, 8, places),
        d.units >= 0 ==> signed_text(d, places) == "+"@ + fixed(d.units as int, 8, places),
{
}

proof fn lemma_without_end_zeros(s: Seq<char>)
    requires
        all_digits(s),
    ensures
        ({
            let w = without_end_zeros(s);
            &&& w.len() <= s.len()
            &&& all_digits(w)
            &&& w.len() > 0 ==> w.last() != '0'
            &&& worth(s) == worth(w) * pow(10, (s.len() - w.len()) as nat)
        }),
    decreases s.len(),
{
    reveal(pow);
    if s.len() > 0 && s.last() == '0' {
        let t = s.drop_last();
        assert forall|i: int| 0 <= i < t.len() implies '0' <= #[trigger] t[i] <= '9' by {
            assert(t[i] == s[i]);
        }
        lemma_without_end_zeros(t);
        let w = without_end_zeros(t);
        let k = (t.len() - w.len()) as nat;
        assert(pow(10, (k + 1) as nat) == 10 * pow(10, k));
        assert(worth(w) * pow(10, k) * 10 == worth(w) * (10 * pow(10, k))) by (nonlinear_arith);
    }
}

/// Whether the text, with its point at that place, stands for so many hundred-millionths: with no
/// zero in front that is not needed, and none at the end.
pub open spec fn stands_for(text: Seq<char>, point: int, size: int) -> bool {
    let whole = text.take(point);
    let rest = text.skip(point + 1);
    &&& 0 < point < text.len() - 1
    &&& text[point] == '.'
    &&& all_digits(whole)
    &&& whole[0] == '0' ==> whole.len() == 1
    &&& all_digits(rest)
    &&& rest.len() <= 8
    &&& rest.last() != '0'
    &&& worth(whole) * 100_000_000 + worth(rest) * pow(10, (8 - rest.len()) as nat) == size
}

/// A number in full reads back as itself: a minus sign just where it is below zero, its whole part,
/// and where there is more a point and the further digits, the last of them no zero.
pub proof fn law_plain_text_reads_back(d: Decimal)
    ensures
        ({
            let text = plain_text(d);
            let start = if d.units < 0 {
                1int
            } else {
                0
            };
            let size = if d.units < 0 {
                -(d.units as int)
            } else {
                d.units as int
            };
            &&& d.units < 0 ==> text[0] == '-'
            &&& start < text.len()
            &&& text[start] != '-'
            &&& size % 100_000_000 == 0 ==> {
                let whole = text.subrange(start, text.len() as int);
                &&& all_digits(whole)
                &&& whole[0] == '0' ==> whole.len() == 1
                &&& worth(whole) * 100_000_000 == size
            }
            &&& size % 100_000_000 != 0 && d.units < 0 ==> exists|point: int| #[trigger]
                stands_for(text.skip(1), point, -(d.units as int))
            &&& size % 100_000_000 != 0 && d.units >= 0 ==> exists|point: int| #[trigger]
                stands_for(text, point, d.units as int)
        }),
{
    let text = plain_text(d);
    let size = abs(d.units as int);
    let whole = digits(size / 100_000_000);
    law_digits_read_back(size / 100_000_000);
    reveal_strlit("-");
    reveal_strlit(".");
    let sign = minus_sign(d.units < 0);
    let start = sign.len() as int;
    if size % 100_000_000 == 0 {
        assert(text =~= sign + whole);
        assert(text.subrange(start, text.len() as int) =~= whole);
        assert(text[start] == whole[0]);
    } else {
        let all = last_digits(size, 8);
        law_last_digits_read_back(size, 8);
        lemma_without_end_zeros(all);
        let rest = without_end_zeros(all);
        assert(pow(10, 8) == 100_000_000) by {
            reveal_with_fuel(pow, 9);
        }
        if rest.len() == 0 {
            assert(worth(rest) * pow(10, 8) == 0);
        }
        let point = whole.len() as int;
        assert(text =~= sign + whole + ("."@ + rest));
        let body = text.subrange(start, text.len() as int);
        assert(body =~= whole + ("."@ + rest));
        assert(body.take(point) =~= whole);
        assert(body.skip(point + 1) =~= rest);
        assert(text[start] == whole[0]);
        assert(stands_for(body, point, size));
        if d.units < 0 {
            assert(body =~= text.skip(1));
        } else {
            assert(body =~= text);
        }
    }
}

/// A comma stands before each group of three from the right, and nowhere else.
pub proof fn law_commas_stand_by_threes(s: Seq<char>, i: int)
    requires
        s.len() > 0,
        !s.contains(','),
    ensures
        grouped(s).len() == s.len() + (s.len() - 1) / 3,
        0 <= i < grouped(s).len() ==> (grouped(s)[i] == ',' <==> (grouped(s).len() - i) % 4 == 0),
    decreases s.len(),
{
    reveal_strlit(",");
    let g = grouped(s);
    if s.len() <= 3 {
        if 0 <= i < g.len() {
            assert(s[i] != ',') by {
                if s[i] == ',' {
                    assert(s.contains(','));
                }
            }
        }
    } else {
        let head = s.take(s.len() - 3);
        let tail = s.skip(s.len() - 3);
        assert(!head.contains(',')) by {
            if head.contains(',') {
                let j = choose|j: int| 0 <= j < head.len() && head[j] == ',';
                assert(s[j] == ',');
            }
        }
        law_commas_stand_by_threes(head, i);
        let h = grouped(head);
        assert(g =~= (h + ","@) + tail);
        if h.len() < i < g.len() {
            let j = i - h.len() - 1 + (s.len() - 3);
            assert(g[i] == s[j]);
            assert(s[j] != ',') by {
                if s[j] == ',' {
                    assert(s.contains(','));
                }
            }
        }
    }
}

/// An integer is written as a minus sign, just where it is below zero, and the digits of its size;
/// grouped, with the commas among those digits.
pub proof fn law_integers_read_back(n: int)
    ensures
        ({
            let text = integer(n);
            let start = if n < 0 {
                1int
            } else {
                0
            };
            let body = text.subrange(start, text.len() as int);
            &&& start < text.len()
            &&& n < 0 ==> text[0] == '-'
            &&& all_digits(body)
            &&& body[0] == '0' ==> body.len() == 1
            &&& n < 0 ==> worth(body) == -n
            &&& n >= 0 ==> worth(body) == n
            &&& n < 0 ==> grouped_integer(n) == "-"@ + grouped(body)
            &&& n >= 0 ==> grouped_integer(n) == grouped(body)
        }),
{
    let text = integer(n);
    law_digits_read_back(abs(n));
    reveal_strlit("-");
    let sign = minus_sign(n < 0);
    let body = digits(abs(n));
    assert(text =~= sign + body);
    assert(text.subrange(sign.len() as int, text.len() as int) =~= body);
    assert(sign =~= if n < 0 {
        "-"@
    } else {
        Seq::empty()
    });
    assert(Seq::<char>::empty() + grouped(body) =~= grouped(body));
}

} // verus!
