//! Cron-style schedule parsing for update-check intervals.
//!
//! Supports `@every <duration>`, `@hourly`, `@daily`, `@weekly`, `@monthly`
//! (30 days), `@yearly` (365 days), and five-field cron expressions whose
//! minute field is `*/N`.
use crate::text::{
    all_ascii, ascii_lower,
    chars_eq, chars_of, chars_start_with, has_prefix, lowercase, parse_u64, parse_u64_spec,
    split_whitespace, to_lowercase, trim, trim_bounds, trimmed, words,
};
use vstd::prelude::*;
use vstd::slice::slice_subrange;

verus! {

/// Seconds for an interval: `<n>s`, `<n>m`, `<n>h`, or a bare number of
/// seconds. An unparsable seconds count is 0; an unparsable minute or hour
/// count, or a bare count under 60, is one hour. `None` where the product
/// does not fit in a `u64`.
pub open spec fn interval_value(val: Seq<char>) -> Option<u64> {
    let v = trimmed(val);
    if v.len() > 0 && v.last() == 's' {
        Some(
            match parse_u64_spec(v.drop_last()) {
                Some(n) => n,
                None => 0,
            },
        )
    } else if v.len() > 0 && v.last() == 'm' {
        match parse_u64_spec(v.drop_last()) {
            Some(n) => if n * 60 <= u64::MAX {
                Some((n * 60) as u64)
            } else {
                None
            },
            None => Some(3600),
        }
    } else if v.len() > 0 && v.last() == 'h' {
        match parse_u64_spec(v.drop_last()) {
            Some(n) => if n * 3600 <= u64::MAX {
                Some((n * 3600) as u64)
            } else {
                None
            },
            None => Some(3600),
        }
    } else {
        match parse_u64_spec(v) {
            Some(n) => if n < 60 {
                Some(3600)
            } else {
                Some(n)
            },
            None => Some(3600),
        }
    }
}

/// Seconds for a schedule already trimmed and lowercased. A five-field cron
/// expression runs every `N` minutes when its minute field is `*/N`, else
/// every minute; anything unrecognised runs every minute. `None` where the
/// result does not fit in a `u64`.
pub open spec fn schedule_value(t: Seq<char>) -> Option<u64> {
    if has_prefix(t, "@every "@) {
        interval_value(t.skip(7))
    } else if t == "@hourly"@ {
        Some(3600)
    } else if t == "@daily"@ {
        Some(86400)
    } else if t == "@weekly"@ {
        Some(604800)
    } else if t == "@monthly"@ {
        Some(2592000)
    } else if t == "@yearly"@ {
        Some(31536000)
    } else if words(t).len() == 5 {
        let m = words(t)[0];
        if has_prefix(m, "*/"@) && parse_u64_spec(m.skip(2)) is Some {
            let v = parse_u64_spec(m.skip(2))->0;
            if v * 60 <= u64::MAX {
                Some((v * 60) as u64)
            } else {
                None
            }
        } else {
            Some(60)
        }
    } else {
        Some(60)
    }
}

/// What `parse_schedule` computes for `schedule`.
pub open spec fn schedule_spec(schedule: Seq<char>) -> Option<u64> {
    schedule_value(lowercase(trimmed(schedule)))
}

/// Interval parsing over characters.
fn interval_of(val: &[char]) -> (r: Option<u64>)
    ensures
        r == interval_value(val@),
{
    let (a, b) = trim_bounds(val);
    let v = slice_subrange(val, a, b);
    let n = v.len();
    if n > 0 && (v[n - 1] == 's' || v[n - 1] == 'm' || v[n - 1] == 'h') {
        let unit = v[n - 1];
        let digits = slice_subrange(v, 0, n - 1);
        assert(digits@ =~= v@.drop_last());
        let parsed = parse_u64(digits);
        if unit == 's' {
            match parsed {
                Some(k) => Some(k),
                None => Some(0),
            }
        } else if unit == 'm' {
            match parsed {
                Some(k) => k.checked_mul(60),
                None => Some(3600),
            }
        } else {
            match parsed {
                Some(k) => k.checked_mul(3600),
                None => Some(3600),
            }
        }
    } else {
        match parse_u64(v) {
            Some(k) => if k < 60 {
                Some(3600)
            } else {
                Some(k)
            },
            None => Some(3600),
        }
    }
}

/// Parses an interval such as `30s`, `5m`, `2h` or `120` into seconds.
pub fn parse_interval(val: &str) -> (r: u64)
    requires
        interval_value(val@) is Some,
    ensures
        interval_value(val@) == Some(r),
{
    let v = chars_of(val);
    match interval_of(v.as_slice()) {
        Some(x) => x,
        None => 0,
    }
}

/// Seconds for a schedule that is already trimmed and lowercased.
pub fn schedule_seconds(t: &str) -> (r: Option<u64>)
    ensures
        r == schedule_value(t@),
{
    let c = chars_of(t);
    let every = chars_of("@every ");
    let hourly = chars_of("@hourly");
    let daily = chars_of("@daily");
    let weekly = chars_of("@weekly");
    let monthly = chars_of("@monthly");
    let yearly = chars_of("@yearly");
    proof {
        reveal_strlit("@monthly");
        reveal_strlit("@yearly");
        reveal_strlit("@every ");
        reveal_strlit("@hourly");
        reveal_strlit("@daily");
        reveal_strlit("@weekly");
        reveal_strlit("*/");
    }
    if chars_start_with(c.as_slice(), every.as_slice()) {
        let rest = slice_subrange(c.as_slice(), 7, c.len());
        assert(rest@ =~= t@.skip(7));
        return interval_of(rest);
    }
    if chars_eq(c.as_slice(), hourly.as_slice()) {
        return Some(3600);
    }
    if chars_eq(c.as_slice(), daily.as_slice()) {
        return Some(86400);
    }
    if chars_eq(c.as_slice(), weekly.as_slice()) {
        return Some(604800);
    }
    if chars_eq(c.as_slice(), monthly.as_slice()) {
        return Some(2592000);
    }
    if chars_eq(c.as_slice(), yearly.as_slice()) {
        return Some(31536000);
    }
    let parts = split_whitespace(c.as_slice());
    if parts.len() == 5 {
        let m = &parts[0];
        assert(m@ == words(t@)[0]);
        let step = chars_of("*/");
        if chars_start_with(m.as_slice(), step.as_slice()) {
            let rest = slice_subrange(m.as_slice(), 2, m.len());
            assert(rest@ =~= m@.skip(2));
            if let Some(v) = parse_u64(rest) {
                return v.checked_mul(60);
            }
        }
        return Some(60);
    }
    Some(60)
}

/// Parses a schedule into its interval in seconds.
pub fn parse_schedule(schedule: &str) -> (r: u64)
    requires
        schedule_spec(schedule@) is Some,
    ensures
        schedule_spec(schedule@) == Some(r),
{
    let t = to_lowercase(trim(schedule));
    schedule_seconds(t.as_str()).unwrap()
}

/// Parses a schedule, or gives `None` where its interval overflows a `u64`.
pub fn try_parse_schedule(schedule: &str) -> (r: Option<u64>)
    ensures
        r == schedule_spec(schedule@),
        all_ascii(trimmed(schedule@)) ==> r == schedule_value(ascii_lower(trimmed(schedule@))),
{
    let t = to_lowercase(trim(schedule));
    if schedule_seconds(t.as_str()).is_some() {
        Some(parse_schedule(schedule))
    } else {
        None
    }
}

} // verus!
