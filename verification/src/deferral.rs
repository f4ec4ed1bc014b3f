//! When a token that was called invalid, or a failed refresh, is given time.
use vstd::prelude::*;

use crate::account::{field_text, field_trim, holds_at, is_at, text_at, trim_at};
use crate::clock::{moment_at, time_at, Moment};
use crate::jwt::{issued_at, token_issued_at};
use crate::value::{Json, JsonView};

verus! {

/// How long a new account is spared, in seconds.
pub const NEW_ACCOUNT_INVALID_GRACE_SECONDS: i64 = 600;

/// How soon after one a second complaint about a token does not count, in seconds.
pub const INVALID_CONFIRM_SECONDS: i64 = 30;

/// How long a failed refresh is not tried again, in seconds.
pub const TOKEN_REFRESH_ERROR_BACKOFF_SECONDS: i64 = 300;

/// How long a failed refresh keeps an account out of the keepalive, in seconds.
pub const REFRESH_TOKEN_KEEPALIVE_ERROR_BACKOFF_SECONDS: i64 = 21_600;

/// How often a refresh token is used to keep it alive, in seconds.
pub const REFRESH_TOKEN_KEEPALIVE_SECONDS: i64 = 259_200;

/// Whether the moment in the field `k` is less than `secs` seconds before `now`.
pub open spec fn recent_at(account: JsonView, k: Seq<char>, now: Moment, secs: int) -> bool {
    match moment_at(account, k) {
        Some(t) => now.within(t, secs),
        None => false,
    }
}

fn is_recent_at(account: &Json, k: &str, now: Moment, secs: i64) -> (r: bool)
    ensures
        r == recent_at(account@, k@, now, secs as int),
{
    match time_at(account, k) {
        Some(t) => now.is_within(t, secs),
        None => false,
    }
}

/// Whether an account whose token was called invalid is spared for now: it is new, was called
/// so at most once before, or was so a moment ago.
pub open spec fn defers(account: JsonView, now: Moment) -> bool {
    account is Obj && (recent_at(
        account,
        "created_at"@,
        now,
        NEW_ACCOUNT_INVALID_GRACE_SECONDS as int,
    ) || account.int_at("invalid_count"@, 0) <= 1 || recent_at(
        account,
        "last_invalid_at"@,
        now,
        INVALID_CONFIRM_SECONDS as int,
    ))
}

/// Decides [`defers`].
pub fn should_defer_invalid_token(account: &Json, now: Moment) -> (r: bool)
    ensures
        r == defers(account@, now),
{
    account.is_object() && (is_recent_at(
        account,
        "created_at",
        now,
        NEW_ACCOUNT_INVALID_GRACE_SECONDS,
    ) || account.int_at("invalid_count", 0) <= 1 || is_recent_at(
        account,
        "last_invalid_at",
        now,
        INVALID_CONFIRM_SECONDS,
    ))
}

/// Whether refreshing the account's token failed a short while ago.
pub open spec fn failed_lately(account: JsonView, now: Moment) -> bool {
    recent_at(
        account,
        "last_token_refresh_error_at"@,
        now,
        TOKEN_REFRESH_ERROR_BACKOFF_SECONDS as int,
    )
}

/// Decides [`failed_lately`].
pub fn recent_token_refresh_error(account: &Json, now: Moment) -> (r: bool)
    ensures
        r == failed_lately(account@, now),
{
    is_recent_at(
        account,
        "last_token_refresh_error_at",
        now,
        TOKEN_REFRESH_ERROR_BACKOFF_SECONDS,
    )
}

/// The moment from which the keepalive of a refresh token counts: its last refresh, else the
/// issue of the access token, else the account's creation.
pub open spec fn keepalive_anchor(account: JsonView) -> Option<Moment> {
    match moment_at(account, "last_token_refresh_at"@) {
        Some(t) => Some(t),
        None => match issued_at(field_text(account, "access_token"@)) {
            Some(t) => Some(t),
            None => moment_at(account, "created_at"@),
        },
    }
}

/// Whether `t` lies `secs` seconds or more before `now`.
pub open spec fn due_by(t: Moment, now: Moment, secs: int) -> bool {
    let d = shifted(t, secs);
    d.secs < now.secs || (d.secs == now.secs && d.nanos <= now.nanos)
}

/// When the keepalive of the account's refresh token fell due, as the moment it counts from and
/// the seconds to add to it; none where it has not fallen due.
pub open spec fn keepalive_due(account: JsonView, now: Moment) -> Option<(Moment, int)> {
    if field_trim(account, "refresh_token"@).len() == 0 || is_at(account, "status"@, "禁用"@)
        || recent_at(
        account,
        "last_token_refresh_error_at"@,
        now,
        REFRESH_TOKEN_KEEPALIVE_ERROR_BACKOFF_SECONDS as int,
    ) {
        None
    } else {
        match keepalive_anchor(account) {
            None => Some((now, 0)),
            Some(t) => if due_by(t, now, REFRESH_TOKEN_KEEPALIVE_SECONDS as int) {
                Some((t, REFRESH_TOKEN_KEEPALIVE_SECONDS as int))
            } else {
                None
            },
        }
    }
}

/// A moment on a clock that reaches past the range of [`Moment`].
#[derive(Clone, Copy)]
pub struct DueAt {
    pub secs: i128,
    pub nanos: u32,
}

/// `t` moved by `secs` seconds; a leap second that is moved is none any more.
pub open spec fn shifted(t: Moment, secs: int) -> DueAt {
    DueAt {
        secs: (t.secs + secs) as i128,
        nanos: if secs > 0 && t.is_leap() {
            (t.nanos - 1_000_000_000) as u32
        } else {
            t.nanos
        },
    }
}

/// Finds [`keepalive_due`], as the moment of falling due.
pub fn refresh_token_keepalive_due_at(account: &Json, now: Moment) -> (r: Option<DueAt>)
    ensures
        match r {
            Some(d) => keepalive_due(account@, now) is Some && d == shifted(
                (keepalive_due(account@, now)->0).0,
                (keepalive_due(account@, now)->0).1,
            ),
            None => keepalive_due(account@, now) is None,
        },
{
    if trim_at(account, "refresh_token").as_str().is_empty() {
        return None;
    }
    if holds_at(account, "status", "禁用") {
        return None;
    }
    if is_recent_at(
        account,
        "last_token_refresh_error_at",
        now,
        REFRESH_TOKEN_KEEPALIVE_ERROR_BACKOFF_SECONDS,
    ) {
        return None;
    }
    let anchor = match time_at(account, "last_token_refresh_at") {
        Some(t) => Some(t),
        None => match token_issued_at(text_at(account, "access_token").as_str()) {
            Some(t) => Some(t),
            None => time_at(account, "created_at"),
        },
    };
    match anchor {
        None => Some(DueAt { secs: now.secs as i128, nanos: now.nanos }),
        Some(t) => {
            let due: i128 = t.secs as i128 + REFRESH_TOKEN_KEEPALIVE_SECONDS as i128;
            let nanos: u32 = if t.nanos >= 1_000_000_000 {
                t.nanos - 1_000_000_000
            } else {
                t.nanos
            };
            if due < now.secs as i128 || (due == now.secs as i128 && nanos <= now.nanos) {
                Some(DueAt { secs: due, nanos })
            } else {
                None
            }
        },
    }
}

} // verus!
