use crate::dispatch::SendOutcome;
use crate::error::MatrixClientError;
use crate::utils::{deadline, deadline_after, is_success, sha1_hex_of, tx_id_at, tx_key_of, TOO_MANY_REQUESTS};
use vstd::prelude::*;
use vstd::string::StringExecFns;

verus! {

/// The answer to a login exchange.
pub struct LoginResponse {
    pub access_token: String,
}

/// The body of a password login.
pub struct LoginBody {
    pub _type: String,
    pub password: String,
    pub identifier: Identifier,
}

/// Who logs in.
pub struct Identifier {
    pub _type: String,
    pub user: String,
}

/// The body of a text message sent to a room.
pub struct SendBody {
    pub msgtype: String,
    pub body: String,
}

/// The body of a throttled send: how long to wait before trying again.
pub struct SendResponseError {
    pub retry_after_ms: u64,
}

impl LoginBody {
    /// A password login for `user`.
    pub fn password_login(user: String, password: String) -> (r: LoginBody)
        ensures
            r._type@ == "m.login.password"@,
            r.password@ == password@,
            r.identifier._type@ == "m.id.user"@,
            r.identifier.user@ == user@,
    {
        LoginBody {
            _type: String::from_str("m.login.password"),
            password,
            identifier: Identifier { _type: String::from_str("m.id.user"), user },
        }
    }
}

impl SendBody {
    /// A plain-text message with body `body`.
    pub fn text(body: String) -> (r: SendBody)
        ensures
            r.msgtype@ == "m.text"@,
            r.body@ == body@,
    {
        SendBody { msgtype: String::from_str("m.text"), body }
    }
}

/// The address to which a message is PUT, keyed by its transaction id.
pub open spec fn send_url_of(home_server_name: Seq<char>, room_id: Seq<char>, txn_id: Seq<char>) -> Seq<char> {
    "https://"@ + home_server_name + ".ems.host/_matrix/client/v3/rooms/"@ + room_id
        + "/send/m.room.message/"@ + txn_id
}

/// The address to which a message is PUT, keyed by its transaction id.
pub fn send_url(home_server_name: &str, room_id: &str, txn_id: &str) -> (r: String)
    ensures
        r@ == send_url_of(home_server_name@, room_id@, txn_id@),
{
    let mut url = String::from_str("https://");
    url.append(home_server_name);
    url.append(".ems.host/_matrix/client/v3/rooms/");
    url.append(room_id);
    url.append("/send/m.room.message/");
    url.append(txn_id);
    url
}

/// What a homeserver's answer to a send means. `retry_after_ms` is the
/// `retry_after_ms` field of the body when it could be read; `now` is the
/// current time in milliseconds. A throttled answer without a readable delay
/// is a failure, not a silent success.
pub fn matrix_outcome(status: u16, retry_after_ms: Option<u64>, now: u64) -> (r: SendOutcome)
    ensures
        is_success(status) ==> r is Delivered,
        status == TOO_MANY_REQUESTS ==> match retry_after_ms {
            Some(ms) => r == SendOutcome::RateLimited(deadline(now as nat, ms as nat) as u64),
            None => r == SendOutcome::Failed(MatrixClientError::Parsing),
        },
        !is_success(status) && status != TOO_MANY_REQUESTS ==> r == SendOutcome::Failed(MatrixClientError::Status(status)),
{
    if 200 <= status && status <= 299 {
        SendOutcome::Delivered
    } else if status == TOO_MANY_REQUESTS {
        match retry_after_ms {
            Some(ms) => SendOutcome::RateLimited(deadline_after(now, ms as u128)),
            None => SendOutcome::Failed(MatrixClientError::Parsing),
        }
    } else {
        SendOutcome::Failed(MatrixClientError::Status(status))
    }
}

/// The address and body of the PUT that sends `message`, with the transaction
/// id derived from `message` and `now` (seconds since the Unix epoch).
pub fn prepare_send(home_server_name: &str, room_id: &str, message: String, now: u64) -> (r: (String, SendBody))
    ensures
        r.0@ == send_url_of(home_server_name@, room_id@, sha1_hex_of(tx_key_of(now as nat, message@))),
        r.1.msgtype@ == "m.text"@,
        r.1.body@ == message@,
{
    let txn_id = tx_id_at(now, message.as_str());
    let url = send_url(home_server_name, room_id, txn_id.as_str());
    (url, SendBody::text(message))
}

} // verus!
