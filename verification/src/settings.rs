//! Where the gateway of Interactive Brokers is found.
use crate::format::{all_digits, integer, law_integers_read_back, to_integer_text, worth};
use crate::text::{chars_of, opt_text};
use vstd::prelude::*;

verus! {

pub const DEFAULT_PORT: u16 = 4002;

pub const DEFAULT_CLIENT_ID: i32 = 0;

/// The number that a run of digits stands for.
pub open spec fn digits_value(s: Seq<char>) -> int
    decreases s.len(),
{
    if s.len() == 0 {
        0
    } else {
        10 * digits_value(s.drop_last()) + (s.last() as int - 48)
    }
}

pub open spec fn is_digit(c: char) -> bool {
    '0' <= c && c <= '9'
}

/// Whether the text is one digit or more, and nothing else.
pub open spec fn is_digits(s: Seq<char>) -> bool {
    s.len() > 0 && forall|i: int| 0 <= i < s.len() ==> is_digit(#[trigger] s[i])
}

/// The integer from `low` to `high` that the text stands for, if any. It may start with a plus
/// sign, and with a minus sign where `low` is below zero.
pub open spec fn integer_value(s: Seq<char>, low: int, high: int) -> Option<int> {
    let negative = low < 0 && s.len() > 0 && s[0] == '-';
    let signed = negative || (s.len() > 0 && s[0] == '+');
    let body = if signed {
        s.drop_first()
    } else {
        s
    };
    let value = if negative {
        -digits_value(body)
    } else {
        digits_value(body)
    };
    if is_digits(body) && low <= value <= high {
        Some(value)
    } else {
        None
    }
}

/// The integer that a setting gives, or else the default.
pub open spec fn setting_value(
    setting: Option<Seq<char>>,
    low: int,
    high: int,
    default: int,
) -> int {
    match setting {
        Some(s) => match integer_value(s, low, high) {
            Some(value) => value,
            None => default,
        },
        None => default,
    }
}

proof fn lemma_digits_value_grows(s: Seq<char>, k: int)
    requires
        0 <= k <= s.len(),
        forall|i: int| 0 <= i < s.len() ==> is_digit(#[trigger] s[i]),
    ensures
        0 <= digits_value(s.take(k)) <= digits_value(s),
    decreases s.len(),
{
    if k == s.len() {
        assert(s.take(k) =~= s);
        if s.len() > 0 {
            let t = s.drop_last();
            assert forall|i: int| 0 <= i < t.len() implies is_digit(#[trigger] t[i]) by {
                assert(t[i] == s[i]);
            }
            assert(is_digit(s[s.len() - 1]));
            lemma_digits_value_grows(t, t.len() as int);
            assert(t.take(t.len() as int) =~= t);
        }
    } else {
        let t = s.drop_last();
        assert forall|i: int| 0 <= i < t.len() implies is_digit(#[trigger] t[i]) by {
            assert(t[i] == s[i]);
        }
        assert(is_digit(s[s.len() - 1]));
        lemma_digits_value_grows(t, k);
        assert(t.take(k) =~= s.take(k));
    }
}

/// The integer from `low` to `high` that the text stands for, if any.
fn parse_integer(text: &str, low: i64, high: i64) -> (r: Option<i64>)
    requires
        -0x1_0000_0000 <= low <= 0 <= high <= 0x1_0000_0000,
    ensures
        match integer_value(text@, low as int, high as int) {
            Some(value) => r matches Some(v) && v == value,
            None => r is None,
        },
{
    let chars: Vec<char> = chars_of(text);
    let n: usize = chars.len();
    let negative: bool = low < 0 && n > 0 && chars[0] == '-';
    let signed: bool = negative || (n > 0 && chars[0] == '+');
    let start: usize = if signed {
        1
    } else {
        0
    };
    let ghost body = if signed {
        text@.drop_first()
    } else {
        text@
    };
    assert(body =~= text@.skip(start as int));
    if start == n {
        return None;
    }
    let mut value: i64 = 0;
    let mut i: usize = start;
    while i < n
        invariant
            start <= i <= n,
            n == chars@.len(),
            chars@ == text@,
            body == text@.skip(start as int),
            0 <= value <= 0x1_0000_0000,
            value == digits_value(body.take(i - start)),
            forall|j: int| 0 <= j < i - start ==> is_digit(#[trigger] body[j]),
            integer_value(text@, low as int, high as int) is Some ==> is_digits(body)
                && digits_value(body) <= 0x1_0000_0000,
        decreases n - i,
    {
        let c: char = chars[i];
        assert(body[i - start] == c);
        if c < '0' || c > '9' {
            assert(!is_digits(body));
            return None;
        }
        let ghost part = body.take(i - start + 1);
        assert(part.drop_last() =~= body.take(i - start));
        let d: i64 = (c as u32 - 48) as i64;
        value = value * 10 + d;
        assert(value == digits_value(part));
        if value > 0x1_0000_0000 {
            proof {
                if is_digits(body) {
                    lemma_digits_value_grows(body, i - start + 1);
                }
            }
            return None;
        }
        i = i + 1;
    }
    assert(body.take(n - start) =~= body);
    let total: i64 = if negative {
        -value
    } else {
        value
    };
    if low <= total && total <= high {
        Some(total)
    } else {
        None
    }
}

/// The port of the gateway.
pub fn ib_port(setting: &Option<String>) -> (r: u16)
    ensures
        r == setting_value(opt_text(*setting), 0, u16::MAX as int, DEFAULT_PORT as int),
{
    match setting {
        Some(text) => match parse_integer(text.as_str(), 0, 65535) {
            Some(value) => value as u16,
            None => DEFAULT_PORT,
        },
        None => DEFAULT_PORT,
    }
}

/// The number under which the bot connects to the gateway.
pub fn ib_client_id(setting: &Option<String>) -> (r: i32)
    ensures
        r == setting_value(
            opt_text(*setting),
            i32::MIN as int,
            i32::MAX as int,
            DEFAULT_CLIENT_ID as int,
        ),
{
    match setting {
        Some(text) => match parse_integer(text.as_str(), -2147483648, 2147483647) {
            Some(value) => value as i32,
            None => DEFAULT_CLIENT_ID,
        },
        None => DEFAULT_CLIENT_ID,
    }
}

/// The address of the gateway: by default on the same machine.
pub fn ib_endpoint(host: &Option<String>, port: &Option<String>) -> (r: String)
    ensures
        r@ == (match opt_text(*host) {
            Some(name) => name,
            None => "127.0.0.1"@,
        }) + ":"@ + integer(
            setting_value(opt_text(*port), 0, u16::MAX as int, DEFAULT_PORT as int),
        ),
{
    let mut r: String = match host {
        Some(name) => name.clone(),
        None => "127.0.0.1".to_owned(),
    };
    r.append(":");
    r.append(to_integer_text(ib_port(port) as i64).as_str());
    r
}

/// Digits are read from the left, each one counting ten times as much as the next; a text is read
/// as a number just where it is one digit or more, behind a sign or not, and the number lies in the
/// range.
pub proof fn law_settings_are_read(s: Seq<char>, c: char, low: int, high: int)
    ensures
        digits_value(Seq::empty()) == 0,
        digits_value(s.push(c)) == 10 * digits_value(s) + (c as int - '0' as int),
        is_digit(c) <==> '0' <= c <= '9',
        is_digits(s) ==> (integer_value(s, low, high) == if low <= digits_value(s) <= high {
            Some(digits_value(s))
        } else {
            None
        }),
        is_digits(s) ==> integer_value("+"@ + s, low, high) == integer_value(s, low, high),
        is_digits(s) && low < 0 ==> (integer_value("-"@ + s, low, high) == if low <= -digits_value(
            s,
        ) <= high {
            Some(-digits_value(s))
        } else {
            None
        }),
        is_digits(s) && low >= 0 ==> integer_value("-"@ + s, low, high) is None,
        integer_value(Seq::empty(), low, high) is None,
        !is_digits(s) && !(s.len() > 0 && (s[0] == '+' || s[0] == '-')) ==> integer_value(
            s,
            low,
            high,
        ) is None,
        !is_digits(s) ==> integer_value("+"@ + s, low, high) is None && integer_value(
            "-"@ + s,
            low,
            high,
        ) is None,
{
    reveal_strlit("+");
    reveal_strlit("-");
    assert(s.push(c).drop_last() =~= s);
    assert(("+"@ + s).drop_first() =~= s);
    assert(("-"@ + s).drop_first() =~= s);
    assert(!is_digit('-'));
    assert(!is_digit('+'));
    if is_digits(s) {
        assert(is_digit(s[0]));
    }
    assert(!is_digits("-"@ + s)) by {
        assert(("-"@ + s)[0] == '-');
    }
}

/// Digits are what a text holds where nothing else stands in it, and there is at least one.
pub proof fn law_digits_are_told_apart(s: Seq<char>)
    ensures
        is_digits(s) <==> s.len() > 0 && forall|i: int|
            0 <= i < s.len() ==> '0' <= #[trigger] s[i] <= '9',
{
}

/// A number that was written as a setting is read back, and one out of range, an odd text or none
/// leaves the default.
pub proof fn law_written_setting_is_read(n: int, text: Seq<char>, low: int, high: int, default: int)
    requires
        low <= 0 <= high,
    ensures
        low <= n <= high ==> setting_value(Some(integer(n)), low, high, default) == n,
        n < low || high < n ==> setting_value(Some(integer(n)), low, high, default) == default,
        integer_value(text, low, high) is None ==> setting_value(Some(text), low, high, default)
            == default,
        setting_value(None, low, high, default) == default,
{
    law_integers_read_back(n);
    let t = integer(n);
    let start = if n < 0 {
        1int
    } else {
        0
    };
    let body = t.subrange(start, t.len() as int);
    lemma_same_worth(body);
    if n < 0 {
        assert(t.drop_first() =~= body);
        if low == 0 {
            assert(!is_digit(t[0]));
        }
    } else {
        assert(t =~= body);
        assert(is_digit(body[0]));
    }
}

proof fn lemma_same_worth(s: Seq<char>)
    requires
        all_digits(s),
    ensures
        digits_value(s) == worth(s),
        s.len() > 0 ==> is_digits(s),
    decreases s.len(),
{
    if s.len() > 0 {
        let t = s.drop_last();
        assert forall|i: int| 0 <= i < t.len() implies '0' <= #[trigger] t[i] <= '9' by {
            assert(t[i] == s[i]);
        }
        lemma_same_worth(t);
    }
}

/// Without settings the gateway is found at port 4002, under the number 0.
pub proof fn law_defaults_of_settings()
    ensures
        DEFAULT_PORT == 4002,
        DEFAULT_CLIENT_ID == 0,
{
}

} // verus!
