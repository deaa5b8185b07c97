use crate::dispatch::SendOutcome;
use crate::error::MatrixClientError;
use crate::utils::{deadline, deadline_after, is_success, numeral_value, is_numeral, parse_u64};
use vstd::prelude::*;
use vstd::string::StringExecFns;

verus! {

pub const ICON: &'static str = "https://mattermost.com/wp-content/uploads/2022/02/icon.png";

pub const USERNAME: &'static str = "bot";

/// The body posted to an incoming webhook.
pub struct Message {
    pub text: String,
    pub username: String,
    pub icon_url: String,
}

impl Message {
    /// A post of `text` under the bot's name and icon.
    pub fn new(text: String) -> (r: Message)
        ensures
            r.text@ == text@,
            r.username@ == USERNAME@,
            r.icon_url@ == ICON@,
    {
        Message { text, username: String::from_str(USERNAME), icon_url: String::from_str(ICON) }
    }
}

/// Visible ASCII, as header values may hold and read as text: printable
/// characters and tab.
pub open spec fn is_visible_ascii(b: u8) -> bool {
    (32 <= b && b < 127) || b == 9
}

pub open spec fn all_visible_ascii(s: Seq<u8>) -> bool {
    forall|i: int| 0 <= i < s.len() ==> is_visible_ascii(#[trigger] s[i])
}

/// Whether every byte of a header value is visible ASCII.
pub fn visible_ascii(s: &[u8]) -> (r: bool)
    ensures
        r == all_visible_ascii(s@),
{
    let mut i: usize = 0;
    while i < s.len()
        invariant
            0 <= i <= s@.len(),
            forall|k: int| 0 <= k < i ==> is_visible_ascii(#[trigger] s@[k]),
        decreases s.len() - i,
    {
        let b = s[i];
        if !((32u8 <= b && b < 127u8) || b == 9u8) {
            return false;
        }
        i = i + 1;
    }
    true
}

/// Whether the remaining-requests header says that no request is left.
pub open spec fn exhausted(remaining: Option<Seq<u8>>) -> bool {
    remaining == Some(seq![48u8])
}

/// The dispatcher-clock time (milliseconds) at which epoch second `reset`
/// falls, given that it is now `now` on that clock and `epoch_now` on the
/// wall clock. A reset second already reached means no wait.
pub open spec fn resume_time(reset: nat, now: nat, epoch_now: nat) -> nat {
    if reset > epoch_now {
        deadline(now, ((reset - epoch_now) * 1000) as nat)
    } else {
        now
    }
}

/// What a throttling answer with reset header `reset` means at time `now`
/// (milliseconds on the dispatcher's clock) and wall-clock second
/// `epoch_now`. The header holds the epoch second at which the limit resets;
/// the provider may be called again from then on.
pub open spec fn throttle_outcome(reset: Option<Seq<u8>>, now: nat, epoch_now: nat) -> OutcomeKind {
    match reset {
        None => OutcomeKind::Failed(MatrixClientError::HeaderParsing),
        Some(v) => if !all_visible_ascii(v) {
            OutcomeKind::Failed(MatrixClientError::HeaderParsing)
        } else if !is_numeral(v) || numeral_value(v) > u64::MAX {
            OutcomeKind::Failed(MatrixClientError::Parsing)
        } else {
            OutcomeKind::RateLimited(resume_time(numeral_value(v), now, epoch_now))
        },
    }
}

/// The bytes of a header value, where the header is present.
pub open spec fn header_view(h: Option<&[u8]>) -> Option<Seq<u8>> {
    match h {
        Some(v) => Some(v@),
        None => None,
    }
}

/// An attempt's outcome with its failure reason kept.
pub enum OutcomeKind {
    Delivered,
    RateLimited(nat),
    Failed(MatrixClientError),
}

pub open spec fn kind_of(o: SendOutcome) -> OutcomeKind {
    match o {
        SendOutcome::Delivered => OutcomeKind::Delivered,
        SendOutcome::RateLimited(t) => OutcomeKind::RateLimited(t as nat),
        SendOutcome::Failed(e) => OutcomeKind::Failed(e),
    }
}

/// What a webhook's answer means. `remaining` and `reset` are the raw values
/// of the `X-Ratelimit-Remaining` and `X-Ratelimit-Reset` headers, where
/// present; `now` is the current time in milliseconds on the dispatcher's
/// clock and `epoch_now` the current second since the Unix epoch. A remaining
/// count of zero throttles, and then a missing or unreadable reset time is a
/// failure.
pub fn mattermost_outcome(
    status: u16,
    remaining: Option<&[u8]>,
    reset: Option<&[u8]>,
    now: u64,
    epoch_now: u64,
) -> (r: SendOutcome)
    ensures
        exhausted(header_view(remaining)) ==> kind_of(r) == throttle_outcome(header_view(reset), now as nat, epoch_now as nat),
        !exhausted(header_view(remaining)) && is_success(status) ==> r is Delivered,
        !exhausted(header_view(remaining)) && !is_success(status) ==> r == SendOutcome::Failed(MatrixClientError::Status(status)),
{
    let zero = match remaining {
        Some(v) => v.len() == 1 && v[0] == 48u8,
        None => false,
    };
    proof {
        if let Some(v) = remaining {
            if v@.len() == 1 && v@[0] == 48u8 {
                assert(v@ =~= seq![48u8]);
            }
        }
    }
    if zero {
        match reset {
            None => SendOutcome::Failed(MatrixClientError::HeaderParsing),
            Some(v) => {
                if !visible_ascii(v) {
                    SendOutcome::Failed(MatrixClientError::HeaderParsing)
                } else {
                    match parse_u64(v) {
                        None => SendOutcome::Failed(MatrixClientError::Parsing),
                        Some(reset_at) => {
                            if reset_at > epoch_now {
                                let delay: u128 = (reset_at - epoch_now) as u128 * 1000;
                                SendOutcome::RateLimited(deadline_after(now, delay))
                            } else {
                                SendOutcome::RateLimited(now)
                            }
                        },
                    }
                }
            },
        }
    } else if 200 <= status && status <= 299 {
        SendOutcome::Delivered
    } else {
        SendOutcome::Failed(MatrixClientError::Status(status))
    }
}

} // verus!
