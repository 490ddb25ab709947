//! Checking and reading GitHub webhook deliveries.

use hmac::Mac;
use vstd::prelude::*;

use crate::model::RepoRef;
use crate::ports::RefreshHint;
use crate::text::{chars_of, starts_with, str_eq, string_of};

verus! {

/// The value of a hexadecimal digit, or -1 for any other character.
pub open spec fn hex_value(c: char) -> int {
    if '0' <= c <= '9' {
        c as int - '0' as int
    } else if 'a' <= c <= 'f' {
        c as int - 'a' as int + 10
    } else if 'A' <= c <= 'F' {
        c as int - 'A' as int + 10
    } else {
        -1
    }
}

/// What `hex::decode` gives: an even number of hexadecimal digits (either case), two per
/// byte, high half first.
pub open spec fn hex_decode(s: Seq<char>) -> Option<Seq<u8>> {
    if s.len() % 2 == 0 && (forall|i: int| 0 <= i < s.len() ==> #[trigger] hex_value(s[i]) >= 0) {
        Some(
            Seq::new(
                (s.len() / 2) as nat,
                |i: int| (hex_value(s[2 * i]) * 16 + hex_value(s[2 * i + 1])) as u8,
            ),
        )
    } else {
        None
    }
}

/// The lower-case hexadecimal digit for `n` in 0..16.
pub open spec fn hex_digit(n: int) -> char {
    if n < 10 {
        (('0' as int) + n) as char
    } else {
        (('a' as int) + n - 10) as char
    }
}

/// Bytes as lower-case hexadecimal, two digits per byte.
pub open spec fn hex_encode(bytes: Seq<u8>) -> Seq<char> {
    Seq::new(
        bytes.len() * 2,
        |i: int|
            if i % 2 == 0 {
                hex_digit(bytes[i / 2] as int / 16)
            } else {
                hex_digit(bytes[i / 2] as int % 16)
            },
    )
}

/// The HMAC-SHA256 tag of `message` under `key`.
pub uninterp spec fn hmac_sha256(key: Seq<u8>, message: Seq<u8>) -> Seq<u8>;

/// A delivery is genuine when its signature header is `sha256=` followed by the hex of the
/// HMAC-SHA256 of the body under the shared secret.
pub open spec fn signature_ok(secret: Seq<u8>, header: Option<Seq<char>>, body: Seq<u8>) -> bool {
    match header {
        Some(h) => starts_with(h, "sha256="@) && match hex_decode(h.skip(7)) {
            Some(tag) => tag == hmac_sha256(secret, body),
            None => false,
        },
        None => false,
    }
}

/// `hex::decode`: the bytes that a hexadecimal text spells, if it is one.
#[verifier::external_body]
fn decode_hex(s: &str) -> (r: Option<Vec<u8>>)
    ensures
        match r {
            Some(v) => hex_decode(s@) == Some(v@),
            None => hex_decode(s@) is None,
        },
{
    hex::decode(s).ok()
}

/// `Hmac::<Sha256>::new_from_slice`, `update` and `verify_slice`: whether `tag` is the
/// HMAC-SHA256 of `message` under `key` (compared in constant time; any key length is taken).
#[verifier::external_body]
fn hmac_sha256_verifies(key: &[u8], message: &[u8], tag: &[u8]) -> (r: bool)
    ensures
        r == (tag@ == hmac_sha256(key@, message@)),
{
    match <hmac::Hmac<sha2::Sha256> as hmac::KeyInit>::new_from_slice(key) {
        Ok(mut mac) => {
            mac.update(message);
            mac.verify_slice(tag).is_ok()
        },
        Err(_) => false,
    }
}

/// Whether the `X-Hub-Signature-256` header proves the body came from the secret's holder.
pub fn signature_valid(secret: &[u8], header: Option<&str>, body: &[u8]) -> (r: bool)
    ensures
        r == signature_ok(secret@, header.deep_view(), body@),
{
    let header = match header {
        Some(h) => h,
        None => return false,
    };
    let v = chars_of(header);
    let prefix = chars_of("sha256=");
    proof {
        reveal_strlit("sha256=");
    }
    if !crate::text::vec_starts_with(&v, &prefix) {
        return false;
    }
    let hex_text = string_of(&v, 7, v.len());
    assert(v@.subrange(7, v@.len() as int) == v@.skip(7));
    match decode_hex(hex_text.as_str()) {
        Some(tag) => hmac_sha256_verifies(secret, body, tag.as_slice()),
        None => false,
    }
}

proof fn lemma_hex_digit_value(n: int)
    requires
        0 <= n < 16,
    ensures
        hex_value(hex_digit(n)) == n,
{
}

/// A delivery signed with the shared secret is accepted: the header `sha256=` + the
/// lower-case hex of the body's HMAC-SHA256 passes the check.
pub proof fn lemma_signed_delivery_is_accepted(secret: Seq<u8>, body: Seq<u8>)
    ensures
        signature_ok(secret, Some("sha256="@ + hex_encode(hmac_sha256(secret, body))), body),
{
    reveal_strlit("sha256=");
    let tag = hmac_sha256(secret, body);
    let enc = hex_encode(tag);
    let h = "sha256="@ + enc;
    assert(h.take(7) =~= "sha256="@);
    assert(h.skip(7) =~= enc);
    assert forall|i: int| 0 <= i < enc.len() implies #[trigger] hex_value(enc[i]) >= 0 by {
        let b = tag[i / 2] as int;
        if i % 2 == 0 {
            lemma_hex_digit_value(b / 16);
        } else {
            lemma_hex_digit_value(b % 16);
        }
    }
    assert(enc.len() % 2 == 0);
    let dec = hex_decode(enc)->0;
    assert forall|i: int| 0 <= i < tag.len() implies #[trigger] dec[i] == tag[i] by {
        let b = tag[i] as int;
        assert((2 * i) / 2 == i);
        assert((2 * i + 1) / 2 == i);
        assert((2 * i) % 2 == 0);
        assert((2 * i + 1) % 2 == 1);
        lemma_hex_digit_value(b / 16);
        lemma_hex_digit_value(b % 16);
        assert(b / 16 * 16 + b % 16 == b);
    }
    assert(dec =~= tag);
}

/// The parts of a webhook body that a refresh hint is read from. A field path that is
/// missing is `None`; one that is present but not an unsigned integer is `Some(None)`.
#[derive(Debug, Clone, PartialEq, Eq)]
pub struct HookPayload {
    /// `repository.full_name`, where it is a string.
    pub full_name: Option<String>,
    /// `workflow_run.id`.
    pub workflow_run_id: Option<Option<u64>>,
    /// `workflow_job.run_id`.
    pub workflow_job_run_id: Option<Option<u64>>,
}

/// What a `HookPayload` holds.
pub struct HookFields {
    pub full_name: Option<Seq<char>>,
    pub workflow_run_id: Option<Option<u64>>,
    pub workflow_job_run_id: Option<Option<u64>>,
}

impl View for HookPayload {
    type V = HookFields;

    open spec fn view(&self) -> HookFields {
        HookFields {
            full_name: self.full_name.deep_view(),
            workflow_run_id: self.workflow_run_id,
            workflow_job_run_id: self.workflow_job_run_id,
        }
    }
}

/// The fields that `serde_json` reads from a body: none where the body is no JSON.
pub uninterp spec fn hook_fields(body: Seq<u8>) -> Option<HookFields>;

/// `serde_json::from_slice::<serde_json::Value>(body)`, then the JSON pointers
/// `/repository/full_name` (as a string), `/workflow_run/id` and `/workflow_job/run_id` (each
/// as a `u64`, where present).
#[verifier::external_body]
fn payload_of(body: &[u8]) -> (r: Option<HookPayload>)
    ensures
        match r {
            Some(p) => hook_fields(body@) == Some(p@),
            None => hook_fields(body@) is None,
        },
{
    let value = match serde_json::from_slice::<serde_json::Value>(body) {
        Ok(v) => v,
        Err(_) => return None,
    };
    let name = value.pointer("/repository/full_name").and_then(serde_json::Value::as_str);
    Some(HookPayload {
        full_name: name.map(str::to_string),
        workflow_run_id: value.pointer("/workflow_run/id").map(serde_json::Value::as_u64),
        workflow_job_run_id: value.pointer("/workflow_job/run_id").map(serde_json::Value::as_u64),
    })
}

/// The refresh hint that an event of kind `event` with these fields gives: `workflow_run`
/// and `workflow_job` events of a named repository; no other event.
pub open spec fn hint_of(event: Seq<char>, payload: Option<HookFields>) -> Option<(crate::model::RepoRefView, Option<u64>)> {
    match payload {
        None => None,
        Some(p) => match p.full_name {
            None => None,
            Some(name) => match crate::model::repo_ref_of(name) {
                None => None,
                Some(repo) => if event == "workflow_run"@ {
                    match p.workflow_run_id {
                        Some(id) => Some((repo, id)),
                        None => None,
                    }
                } else if event == "workflow_job"@ {
                    match p.workflow_job_run_id {
                        Some(id) => Some((repo, id)),
                        None => None,
                    }
                } else {
                    None
                },
            },
        },
    }
}

/// The hint that an event with the payload gives.
pub open spec fn payload_hint(event: Seq<char>, payload: Option<HookPayload>) -> Option<(crate::model::RepoRefView, Option<u64>)> {
    hint_of(
        event,
        match payload {
            Some(p) => Some(p@),
            None => None,
        },
    )
}

/// Reads the refresh hint of a delivery from its payload.
pub fn hint_from_payload(event: &str, payload: Option<HookPayload>) -> (r: Option<RefreshHint>)
    ensures
        match payload_hint(event@, payload) {
            Some((repo, id)) => r is Some && r->0.repo@ == repo && r->0.run_id == id,
            None => r is None,
        },
{
    let p = match payload {
        Some(p) => p,
        None => return None,
    };
    let name = match p.full_name {
        Some(n) => n,
        None => return None,
    };
    let repo = match RepoRef::parse(name.as_str()) {
        Ok(r) => r,
        Err(_) => return None,
    };
    let run_id = if str_eq(event, "workflow_run") {
        match p.workflow_run_id {
            Some(id) => id,
            None => return None,
        }
    } else if str_eq(event, "workflow_job") {
        match p.workflow_job_run_id {
            Some(id) => id,
            None => return None,
        }
    } else {
        return None;
    };
    Some(RefreshHint { repo, run_id })
}

/// Reads the refresh hint of a delivery from its body.
pub fn parse_hint(event: &str, body: &[u8]) -> (r: Option<RefreshHint>)
    ensures
        match hint_of(event@, hook_fields(body@)) {
            Some((repo, id)) => r is Some && r->0.repo@ == repo && r->0.run_id == id,
            None => r is None,
        },
{
    hint_from_payload(event, payload_of(body))
}

/// The answer to a delivery and the hint it yields.
#[derive(Debug, Clone, PartialEq, Eq)]
pub struct HookReply {
    pub status: u16,
    pub body: String,
    pub hint: Option<RefreshHint>,
}

/// Answers a delivery: 401 for a bad signature and no hint; else 200, with the hint of a
/// run or job event.
pub fn handle_delivery(
    secret: &[u8],
    signature: Option<&str>,
    event: &str,
    body: &[u8],
) -> (reply: HookReply)
    ensures
        !signature_ok(secret@, signature.deep_view(), body@) ==> reply.status == 401
            && reply.body@ == "invalid signature"@ && reply.hint is None,
        signature_ok(secret@, signature.deep_view(), body@) ==> reply.status == 200
            && reply.body@ == Seq::<char>::empty() && match hint_of(event@, hook_fields(body@)) {
            Some((repo, id)) => reply.hint is Some && reply.hint->0.repo@ == repo
                && reply.hint->0.run_id == id,
            None => reply.hint is None,
        },
{
    if !signature_valid(secret, signature, body) {
        return HookReply {
            status: 401,
            body: String::from_str("invalid signature"),
            hint: None,
        };
    }
    HookReply { status: 200, body: String::new(), hint: parse_hint(event, body) }
}

} // verus!
