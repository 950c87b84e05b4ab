//! The claims carried by a capability token. Signing and verifying the
//! token itself is left to the caller.
use vstd::prelude::*;

verus! {

#[derive(Debug, Clone, Copy, PartialEq, Eq, Structural)]
pub enum TransferRole {
    Sender,
    Receiver,
}

/// Who may do what on which transfer, and until when (in seconds of the
/// Unix epoch).
#[derive(Debug, Clone, Copy, PartialEq, Eq, Structural)]
pub struct TransferClaims {
    pub role: TransferRole,
    pub id: u128,
    pub exp: i64,
}

/// `x`, held within the range of `i64`.
pub open spec fn clamp_i64(x: int) -> i64 {
    if x > i64::MAX {
        i64::MAX
    } else if x < i64::MIN {
        i64::MIN
    } else {
        x as i64
    }
}

/// Relies on time::OffsetDateTime::now_utc and unix_timestamp: the current
/// time, in whole seconds since the Unix epoch.
#[verifier::external_body]
fn now_unix() -> (r: i64) {
    time::OffsetDateTime::now_utc().unix_timestamp()
}

impl TransferClaims {
    /// Claims of the sender of transfer `id`, valid for `duration_secs` from now.
    pub fn sender(id: u128, duration_secs: i64) -> (r: Self)
        ensures
            exists|now: i64| r == (TransferClaims {
                role: TransferRole::Sender,
                id,
                exp: #[trigger] clamp_i64(now + duration_secs),
            }),
    {
        Self::new(TransferRole::Sender, id, duration_secs)
    }

    /// Claims valid for `duration_secs` from now, whatever time the clock
    /// gives.
    pub fn new(role: TransferRole, id: u128, duration_secs: i64) -> (r: Self)
        ensures
            exists|now: i64| r == (TransferClaims { role, id, exp: #[trigger] clamp_i64(now + duration_secs) }),
    {
        let now = now_unix();
        let r = Self::new_at(role, id, now, duration_secs);
        assert(r == (TransferClaims { role, id, exp: clamp_i64(now + duration_secs) }));
        r
    }

    /// Claims valid for `duration_secs` from `now`.
    pub fn new_at(role: TransferRole, id: u128, now: i64, duration_secs: i64) -> (r: Self)
        ensures
            r == (TransferClaims { role, id, exp: #[trigger] clamp_i64(now + duration_secs) }),
    {
        let exp = if duration_secs > 0 && now > i64::MAX - duration_secs {
            i64::MAX
        } else if duration_secs < 0 && now < i64::MIN - duration_secs {
            i64::MIN
        } else {
            now + duration_secs
        };
        TransferClaims { role, id, exp }
    }
}

} // verus!
