//! Helpers for the `過去から` section.
//!
//! This module is side-effect free: it formats the elapsed-time label shown
//! next to the resurfaced entry and states which entries may be resurfaced.
//! The selection itself (7+ days old, not due-today, not recently
//! resurfaced) runs in `Store::pick_resurface`.

use vstd::prelude::*;

use crate::clock::{DAY_MS, HOUR_MS, MINUTE_MS};
use crate::text::{decimal, push_decimal};

verus! {

/// The label for an elapsed time of `delta` milliseconds.
pub open spec fn elapsed_label_for(delta: int) -> Seq<char> {
    let days = delta / (DAY_MS as int);
    if delta < 0 {
        "たった今"@
    } else if days >= 365 {
        decimal((days / 365) as nat) + "年前"@
    } else if days >= 30 {
        decimal((days / 30) as nat) + "ヶ月前"@
    } else if days >= 7 {
        decimal((days / 7) as nat) + "週間前"@
    } else if days >= 1 {
        decimal(days as nat) + "日前"@
    } else if delta / (HOUR_MS as int) >= 1 {
        decimal((delta / (HOUR_MS as int)) as nat) + "時間前"@
    } else if delta / (MINUTE_MS as int) >= 1 {
        decimal((delta / (MINUTE_MS as int)) as nat) + "分前"@
    } else {
        "たった今"@
    }
}

/// Human-readable elapsed label in Japanese for an entry created at
/// `created_at` and seen at `now` (both in milliseconds since the epoch):
/// whole years (365 days), months (30 days), weeks, days, hours or minutes,
/// e.g. `3日前`, `2週間前`, `4ヶ月前`, `1年前`.
pub open spec fn elapsed_label(created_at: int, now: int) -> Seq<char> {
    elapsed_label_for(now - created_at)
}

fn number_then(n: u64, suffix: &str) -> (s: String)
    ensures
        s@ == decimal(n as nat) + suffix@,
{
    let mut s = String::new();
    push_decimal(&mut s, n);
    s.append(suffix);
    assert(s@ =~= decimal(n as nat) + suffix@);
    s
}

/// Human-readable elapsed label in Japanese, e.g. `3日前`, `2週間前`,
/// `4ヶ月前`, `1年前`. Falls back to `たった今` for very recent timestamps
/// and for clock skew (a future `created_at`).
pub fn format_elapsed(created_at: i64, now: i64) -> (s: String)
    ensures
        s@ == elapsed_label(created_at as int, now as int),
{
    let delta: i128 = now as i128 - created_at as i128;
    if delta < 0 {
        return "たった今".to_owned();
    }
    let days: i128 = delta / 86_400_000;
    if days >= 365 {
        return number_then((days / 365) as u64, "年前");
    }
    if days >= 30 {
        return number_then((days / 30) as u64, "ヶ月前");
    }
    if days >= 7 {
        return number_then((days / 7) as u64, "週間前");
    }
    if days >= 1 {
        return number_then(days as u64, "日前");
    }
    let hours: i128 = delta / 3_600_000;
    if hours >= 1 {
        return number_then(hours as u64, "時間前");
    }
    let minutes: i128 = delta / 60_000;
    if minutes >= 1 {
        return number_then(minutes as u64, "分前");
    }
    "たった今".to_owned()
}

/// Every label for an instant in the future is `たった今`.
pub proof fn lemma_future_is_just_now(created_at: int, now: int)
    requires
        now < created_at,
    ensures
        elapsed_label(created_at, now) == "たった今"@,
{
}

} // verus!
