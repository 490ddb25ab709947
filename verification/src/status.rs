//! How the provider's rate-limit headers and error statuses are read.

use vstd::prelude::*;

use crate::ports::ProviderError;
use crate::text::{chars_of, str_eq};
use crate::time::Duration;

verus! {

/// The character is an ASCII digit.
pub open spec fn is_digit(c: char) -> bool {
    '0' <= c <= '9'
}

/// The number that a run of decimal digits spells.
pub open spec fn digits_value(s: Seq<char>) -> int
    decreases s.len(),
{
    if s.len() == 0 {
        0
    } else {
        digits_value(s.drop_last()) * 10 + (s.last() as int - '0' as int)
    }
}

/// Every character is an ASCII digit.
pub open spec fn all_digits(s: Seq<char>) -> bool {
    forall|i: int| 0 <= i < s.len() ==> is_digit(#[trigger] s[i])
}

/// The text after an optional leading `+`.
pub open spec fn unsigned_body(s: Seq<char>) -> Seq<char> {
    if s.len() > 0 && s[0] == '+' {
        s.drop_first()
    } else {
        s
    }
}

/// What `str::parse::<u64>` gives: an optional `+`, then one or more decimal digits whose
/// value fits in a `u64`.
pub open spec fn parse_u64(s: Seq<char>) -> Option<u64> {
    let body = unsigned_body(s);
    if body.len() > 0 && all_digits(body) && digits_value(body) <= u64::MAX {
        Some(digits_value(body) as u64)
    } else {
        None
    }
}

proof fn lemma_digits_value_grows(s: Seq<char>, k: int)
    requires
        0 <= k <= s.len(),
        forall|i: int| 0 <= i < s.len() ==> is_digit(#[trigger] s[i]),
    ensures
        digits_value(s.take(k)) <= digits_value(s),
        0 <= digits_value(s.take(k)),
    decreases s.len(),
{
    if s.len() > 0 {
        if k == s.len() {
            assert(s.take(k) =~= s);
            lemma_digits_value_grows(s.drop_last(), k - 1);
            assert(s.drop_last().take(k - 1) =~= s.drop_last());
        } else {
            assert(s.take(k) =~= s.drop_last().take(k));
            lemma_digits_value_grows(s.drop_last(), k);
            assert(s.drop_last().take(s.len() - 1) =~= s.drop_last());
            lemma_digits_value_grows(s.drop_last(), s.len() - 1);
        }
    }
}

/// Reads a decimal `u64` as `str::parse` does.
pub fn parse_decimal_u64(s: &str) -> (r: Option<u64>)
    ensures
        r == parse_u64(s@),
{
    let v = chars_of(s);
    let n = v.len();
    let start: usize = if n > 0 && v[0] == '+' {
        1
    } else {
        0
    };
    let ghost body = v@.skip(start as int);
    assert(body == unsigned_body(s@));
    if start == n {
        return None;
    }
    let mut value: u64 = 0;
    let mut i = start;
    assert(body.take(0) =~= Seq::<char>::empty());
    while i < n
        invariant
            start <= i <= n == v@.len(),
            v@ == s@,
            body == unsigned_body(s@),
            body == v@.skip(start as int),
            forall|k: int| start <= k < i ==> is_digit(#[trigger] v@[k]),
            value == digits_value(body.take(i - start)),
        decreases n - i,
    {
        let c = v[i];
        assert(body[i - start] == v@[i as int]);
        if !('0' <= c && c <= '9') {
            assert(!is_digit(body[i - start]));
            assert(!all_digits(body));
            return None;
        }
        let d = (c as u32 - '0' as u32) as u64;
        proof {
            assert(body.take(i - start + 1).drop_last() =~= body.take(i - start));
            assert(body.take(i - start + 1).last() == c);
        }
        if value > 1_844_674_407_370_955_161 || (value == 1_844_674_407_370_955_161 && d > 5) {
            proof {
                if all_digits(body) {
                    lemma_digits_value_grows(body, i - start + 1);
                    assert(digits_value(body.take(i - start + 1)) == value * 10 + d);
                }
            }
            return None;
        }
        value = value * 10 + d;
        i = i + 1;
    }
    assert(body.take(n - start) =~= body);
    Some(value)
}

/// Whether the remaining-requests header says the quota is used up.
pub fn is_rate_limited(remaining: Option<&str>) -> (r: bool)
    ensures
        r == (remaining.deep_view() == Some("0"@)),
{
    match remaining {
        Some(value) => str_eq(value, "0"),
        None => false,
    }
}

/// How long to wait, in seconds: the `retry-after` header where it is a number, else the
/// time until the `x-ratelimit-reset` epoch (none where it has passed), else a minute.
pub open spec fn retry_after_secs(retry_after: Option<Seq<char>>, reset_epoch: Option<Seq<char>>, now_secs: u64) -> int {
    let after = match retry_after {
        Some(t) => parse_u64(t),
        None => None,
    };
    let reset = match reset_epoch {
        Some(t) => parse_u64(t),
        None => None,
    };
    match after {
        Some(secs) => secs as int,
        None => match reset {
            Some(at) => if at >= now_secs {
                at - now_secs
            } else {
                0
            },
            None => 60,
        },
    }
}

/// How long the provider asks to wait.
pub fn retry_after_hint(retry_after: Option<&str>, reset_epoch: Option<&str>, now_secs: u64) -> (d: Duration)
    ensures
        d.total() == retry_after_secs(retry_after.deep_view(), reset_epoch.deep_view(), now_secs)
            * 1_000_000_000,
{
    let after = match retry_after {
        Some(value) => parse_decimal_u64(value),
        None => None,
    };
    if let Some(secs) = after {
        return Duration::from_secs(secs);
    }
    let reset = match reset_epoch {
        Some(value) => parse_decimal_u64(value),
        None => None,
    };
    if let Some(at) = reset {
        return Duration::from_secs(at.saturating_sub(now_secs));
    }
    Duration::from_secs(60)
}

/// The error for a 403 answer: rate limited where the quota is used up, else `Other`
/// with the provider's message.
pub fn map_forbidden(
    rate_limited: bool,
    retry_after: Option<&str>,
    reset_epoch: Option<&str>,
    now_secs: u64,
    message: String,
) -> (e: ProviderError)
    ensures
        rate_limited ==> (e matches ProviderError::RateLimited { retry_after: d } && d.total()
            == retry_after_secs(retry_after.deep_view(), reset_epoch.deep_view(), now_secs)
            * 1_000_000_000),
        !rate_limited ==> (e matches ProviderError::Other(m) && m@ == message@),
{
    if rate_limited {
        ProviderError::RateLimited {
            retry_after: retry_after_hint(retry_after, reset_epoch, now_secs),
        }
    } else {
        ProviderError::Other(message)
    }
}

/// Without a usable `retry-after`, the wait is exactly the time left until the reset epoch
/// (zero once it has passed), however long that is; with one, it is that number of seconds;
/// with neither, a minute.
pub proof fn lemma_wait_until_reset(
    retry_after: Option<Seq<char>>,
    reset_epoch: Option<Seq<char>>,
    now_secs: u64,
)
    ensures
        retry_after is Some && parse_u64(retry_after->0) is Some ==> retry_after_secs(
            retry_after,
            reset_epoch,
            now_secs,
        ) == parse_u64(retry_after->0)->0,
        (retry_after is None || parse_u64(retry_after->0) is None) && reset_epoch is Some
            && parse_u64(reset_epoch->0) is Some ==> retry_after_secs(retry_after, reset_epoch, now_secs)
            == ({
            let at = parse_u64(reset_epoch->0)->0;
            if at >= now_secs {
                at - now_secs
            } else {
                0
            }
        }),
        (retry_after is None || parse_u64(retry_after->0) is None) && (reset_epoch is None
            || parse_u64(reset_epoch->0) is None) ==> retry_after_secs(
            retry_after,
            reset_epoch,
            now_secs,
        ) == 60,
{
}

} // verus!
