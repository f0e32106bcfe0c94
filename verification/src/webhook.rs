//! Webhook delivery: the wire payload, the outcome of one HTTP attempt,
//! and the bounded retry loop around an abstract transport.
//!
//! The transport itself (HTTP, timeouts, sleeping) is a collaborator
//! implemented outside the library; the library fixes what is sent, how
//! outcomes are classified, how many attempts are made, and what failure
//! text is recorded.

use vstd::prelude::*;
use vstd::string::StringExecFns;
use vstd::utf8::encode_utf8;
use vstd::bytes::{spec_u128_to_le_bytes, u128_to_le_bytes};
use crate::codec::{
    spec_hex_of, hex_encode, spec_hex_digit, hex_digit, spec_u64_text, format_u64,
};
use crate::submission::FormSubmission;

verus! {

/// Delays between attempts never grow past one minute.
pub const MAX_BACKOFF_MS: u64 = 60_000;

/// How delivery retries behave. The counts are configuration, not
/// constants of the library.
pub struct RetryPolicy {
    /// How many attempts in all, at least one.
    pub max_attempts: u32,
    /// The delay before the first retry; later delays double, capped.
    pub base_delay_ms: u64,
    /// How long the transport lets one attempt run.
    pub timeout_ms: u64,
}

impl RetryPolicy {
    /// At least one attempt is made.
    pub open spec fn wf(&self) -> bool {
        self.max_attempts >= 1
    }
}

impl Default for RetryPolicy {
    /// Three attempts, half a second before the first retry, thirty
    /// seconds per attempt.
    fn default() -> (r: RetryPolicy)
        ensures
            r.max_attempts == 3,
            r.base_delay_ms == 500,
            r.timeout_ms == 30_000,
            r.wf(),
    {
        RetryPolicy { max_attempts: 3, base_delay_ms: 500, timeout_ms: 30_000 }
    }
}

/// What one delivery attempt came back with.
pub enum AttemptOutcome {
    /// The endpoint answered with this HTTP status.
    Status(u16),
    /// The connection failed; the transport's message.
    ConnectionFailed(String),
    /// The attempt ran out of time.
    TimedOut,
}

/// An attempt succeeded exactly when the endpoint answered 2xx.
pub open spec fn spec_attempt_succeeded(o: AttemptOutcome) -> bool {
    o is Status && 200 <= o->Status_0 < 300
}

/// Classifies one attempt: success is an HTTP 2xx answer.
pub fn attempt_succeeded(o: &AttemptOutcome) -> (r: bool)
    ensures
        r == spec_attempt_succeeded(*o),
{
    match o {
        AttemptOutcome::Status(c) => 200 <= *c && *c < 300,
        _ => false,
    }
}

/// The failure text recorded for an unsuccessful attempt.
pub open spec fn spec_failure_text(o: AttemptOutcome) -> Seq<char> {
    match o {
        AttemptOutcome::Status(c) => "webhook returned status "@ + spec_u64_text(c as nat),
        AttemptOutcome::ConnectionFailed(m) => "connection error: "@ + m@,
        AttemptOutcome::TimedOut => "request timed out"@,
    }
}

/// Writes the failure text for an unsuccessful attempt.
pub fn failure_text(o: &AttemptOutcome) -> (r: String)
    ensures
        r@ == spec_failure_text(*o),
{
    match o {
        AttemptOutcome::Status(c) => {
            let mut s = String::from_str("webhook returned status ");
            let num = format_u64(*c as u64);
            s.append(num.as_str());
            s
        },
        AttemptOutcome::ConnectionFailed(m) => {
            let mut s = String::from_str("connection error: ");
            s.append(m.as_str());
            s
        },
        AttemptOutcome::TimedOut => String::from_str("request timed out"),
    }
}

/// The outcome of a whole delivery: sent, or failed with the recorded
/// reason.
pub enum DeliveryOutcome {
    /// The endpoint acknowledged the payload.
    Delivered,
    /// Every attempt failed; the last failure's text.
    Failed(String),
}

/// A port to the network: posts a payload and waits between attempts.
/// Implementations live outside the library; nothing is assumed of what
/// they return.
pub trait WebhookTransport {
    /// Posts `payload` to `url` once and reports what came back.
    fn post(&mut self, url: &str, payload: &[u8], timeout_ms: u64) -> AttemptOutcome;

    /// Waits for `delay_ms` milliseconds between attempts.
    fn wait(&mut self, delay_ms: u64);
}

/// The delay before retry `attempt + 1`: the base delay doubled `attempt`
/// times, never past `MAX_BACKOFF_MS`.
pub open spec fn spec_backoff_delay(base: u64, attempt: nat) -> u64
    decreases attempt,
{
    if attempt == 0 {
        if base > MAX_BACKOFF_MS {
            MAX_BACKOFF_MS
        } else {
            base
        }
    } else {
        let p = spec_backoff_delay(base, (attempt - 1) as nat);
        if p > MAX_BACKOFF_MS / 2 {
            MAX_BACKOFF_MS
        } else {
            (p * 2) as u64
        }
    }
}

/// Computes the capped exponential backoff delay.
pub fn backoff_delay_ms(base: u64, attempt: u32) -> (r: u64)
    ensures
        r == spec_backoff_delay(base, attempt as nat),
    decreases attempt,
{
    if attempt == 0 {
        if base > MAX_BACKOFF_MS {
            MAX_BACKOFF_MS
        } else {
            base
        }
    } else {
        let p = backoff_delay_ms(base, attempt - 1);
        if p > MAX_BACKOFF_MS / 2 {
            MAX_BACKOFF_MS
        } else {
            p * 2
        }
    }
}

/// The escape of one byte inside a JSON string: quote and backslash are
/// escaped, control bytes become `\u00XX`, everything else passes through.
pub open spec fn spec_json_escape_byte(b: u8) -> Seq<u8> {
    if b == 0x22 {
        seq![0x5c, 0x22]
    } else if b == 0x5c {
        seq![0x5c, 0x5c]
    } else if b < 0x20 {
        seq![0x5c, 0x75, 0x30, 0x30, spec_hex_digit((b >> 4) as u8), spec_hex_digit((b & 0xf) as u8)]
    } else {
        seq![b]
    }
}

/// A byte string escaped for a JSON string body.
pub open spec fn spec_json_escape(s: Seq<u8>) -> Seq<u8>
    decreases s.len(),
{
    if s.len() == 0 {
        Seq::empty()
    } else {
        spec_json_escape(s.drop_last()) + spec_json_escape_byte(s.last())
    }
}

/// A JSON string: the escaped bytes between quotes.
pub open spec fn spec_json_string(s: Seq<u8>) -> Seq<u8> {
    seq![0x22u8] + spec_json_escape(s) + seq![0x22u8]
}

/// An optional string as JSON: the string, or `null`.
pub open spec fn spec_opt_json(v: Option<String>) -> Seq<u8> {
    match v {
        Some(s) => spec_json_string(encode_utf8(s@)),
        None => encode_utf8("null"@),
    }
}

/// An identifier on the wire: its sixteen little-endian bytes in
/// hexadecimal.
pub open spec fn spec_id_hex(id: u128) -> Seq<u8> {
    spec_hex_of(spec_u128_to_le_bytes(id))
}

/// The identifier a text denotes: `None` unless it is thirty-two
/// hexadecimal digits.
pub open spec fn spec_parse_id(s: Seq<char>) -> Option<u128> {
    match crate::codec::spec_hex_decode(encode_utf8(s)) {
        Some(b) => if b.len() == 16 {
            Some(vstd::bytes::spec_u128_from_le_bytes(b))
        } else {
            None
        },
        None => None,
    }
}

/// Writes an identifier as thirty-two hexadecimal digits, the same form
/// the delivery payload carries.
pub fn format_id(id: u128) -> (r: String)
    ensures
        r@ == crate::codec::ascii_chars_of(spec_id_hex(id)),
{
    let bytes = u128_to_le_bytes(id);
    let hex = hex_encode(bytes.as_slice());
    proof {
        crate::codec::lemma_hex_all_ascii(bytes@);
        crate::codec::lemma_ascii_decode(hex@);
    }
    match crate::bridge::string_from_utf8(hex) {
        Some(s) => s,
        None => {
            proof {
                assert(false);
            }
            String::new()
        },
    }
}

/// Reads an identifier back from its hexadecimal form.
pub fn parse_id(s: &str) -> (r: Option<u128>)
    ensures
        r == spec_parse_id(s@),
{
    match crate::codec::hex_decode(s.as_bytes()) {
        Some(v) => {
            if v.len() == 16 {
                Some(vstd::bytes::u128_from_le_bytes(v.as_slice()))
            } else {
                None
            }
        },
        None => None,
    }
}

/// A formatted identifier parses back to itself.
pub proof fn lemma_id_roundtrip(id: u128)
    ensures
        spec_parse_id(crate::codec::ascii_chars_of(spec_id_hex(id))) == Some(id),
{
    vstd::bytes::lemma_auto_spec_u128_to_from_le_bytes();
    let b = spec_u128_to_le_bytes(id);
    crate::codec::lemma_hex_all_ascii(b);
    crate::codec::lemma_ascii_encode(crate::codec::spec_hex_of(b));
    crate::codec::lemma_hex_roundtrip(b);
}

/// A timestamp on the wire: ISO 8601 within `chrono`'s comfortable range,
/// the raw millisecond count in decimal outside it.
pub open spec fn spec_timestamp_json(t: i64) -> Seq<u8> {
    if 0 <= t <= 8_000_000_000_000_000 {
        spec_json_string(encode_utf8(crate::bridge::rfc3339_of(t)))
    } else {
        spec_json_string(spec_i64_dec_bytes(t))
    }
}

/// A signed number in decimal bytes.
pub open spec fn spec_i64_dec_bytes(t: i64) -> Seq<u8> {
    if t >= 0 {
        crate::codec::spec_dec_digits(t as nat)
    } else {
        seq![0x2du8] + crate::codec::spec_dec_digits((-(t as int)) as nat)
    }
}

/// The delivery payload: one JSON object carrying the submission's
/// identifiers, the two encrypted strings, the metadata (absent entries as
/// `null`), and the creation time.
pub open spec fn spec_delivery_payload(s: FormSubmission) -> Seq<u8> {
    encode_utf8("{\"submission_id\":\""@) + spec_id_hex(s.id) + encode_utf8(
        "\",\"form_schema_id\":\""@,
    ) + spec_id_hex(s.form_schema_id) + encode_utf8("\",\"encrypted_data\":"@) + spec_json_string(
        encode_utf8(s.encrypted_data@),
    ) + encode_utf8(",\"encrypted_key\":"@) + spec_json_string(encode_utf8(s.encrypted_key@))
        + encode_utf8(",\"metadata\":{\"ip_address\":"@) + spec_opt_json(s.metadata.ip_address)
        + encode_utf8(",\"user_agent\":"@) + spec_opt_json(s.metadata.user_agent) + encode_utf8(
        ",\"referrer\":"@,
    ) + spec_opt_json(s.metadata.referrer) + encode_utf8(",\"country\":"@) + spec_opt_json(
        s.metadata.country,
    ) + encode_utf8("},\"created_at\":"@) + spec_timestamp_json(s.created_at) + encode_utf8("}"@)
}

/// Escapes a byte string for a JSON string body.
fn json_escape(s: &[u8]) -> (r: Vec<u8>)
    ensures
        r@ == spec_json_escape(s@),
{
    let mut out: Vec<u8> = Vec::new();
    let mut i: usize = 0;
    proof {
        assert(s@.take(0) =~= Seq::<u8>::empty());
    }
    while i < s.len()
        invariant
            i <= s@.len(),
            out@ =~= spec_json_escape(s@.take(i as int)),
        decreases s@.len() - i,
    {
        let b = s[i];
        if b == 0x22 {
            out.push(0x5c);
            out.push(0x22);
        } else if b == 0x5c {
            out.push(0x5c);
            out.push(0x5c);
        } else if b < 0x20 {
            out.push(0x5c);
            out.push(0x75);
            out.push(0x30);
            out.push(0x30);
            proof {
                assert(b >> 4 < 16 && b & 0xf < 16) by (bit_vector);
            }
            out.push(hex_digit(b >> 4));
            out.push(hex_digit(b & 0xf));
        } else {
            out.push(b);
        }
        i = i + 1;
        proof {
            assert(s@.take(i as int).drop_last() =~= s@.take(i - 1));
            assert(s@.take(i as int).last() == b);
            assert(out@ =~= spec_json_escape(s@.take(i as int)));
        }
    }
    proof {
        assert(s@.take(s@.len() as int) =~= s@);
    }
    out
}

/// Appends a JSON string made of `s` to `out`.
pub(crate) fn push_json_string(out: &mut Vec<u8>, s: &str)
    ensures
        final(out)@ == old(out)@ + spec_json_string(encode_utf8(s@)),
{
    out.push(0x22);
    let escaped = json_escape(s.as_bytes());
    out.extend_from_slice(escaped.as_slice());
    out.push(0x22);
    proof {
        assert(out@ =~= old(out)@ + spec_json_string(encode_utf8(s@)));
    }
}

/// Appends an optional string to `out` as JSON.
fn push_opt_json(out: &mut Vec<u8>, v: &Option<String>)
    ensures
        final(out)@ == old(out)@ + spec_opt_json(*v),
{
    match v {
        Some(s) => push_json_string(out, s.as_str()),
        None => {
            out.extend_from_slice("null".as_bytes());
        },
    }
}

/// Builds the delivery payload for a submission.
#[verifier::rlimit(30)]
pub fn delivery_payload(s: &FormSubmission) -> (r: Vec<u8>)
    ensures
        r@ == spec_delivery_payload(*s),
{
    let mut out: Vec<u8> = Vec::new();
    out.extend_from_slice("{\"submission_id\":\"".as_bytes());
    let id_hex = hex_encode(u128_to_le_bytes(s.id).as_slice());
    out.extend_from_slice(id_hex.as_slice());
    out.extend_from_slice("\",\"form_schema_id\":\"".as_bytes());
    let sid_hex = hex_encode(u128_to_le_bytes(s.form_schema_id).as_slice());
    out.extend_from_slice(sid_hex.as_slice());
    out.extend_from_slice("\",\"encrypted_data\":".as_bytes());
    push_json_string(&mut out, s.encrypted_data.as_str());
    out.extend_from_slice(",\"encrypted_key\":".as_bytes());
    push_json_string(&mut out, s.encrypted_key.as_str());
    out.extend_from_slice(",\"metadata\":{\"ip_address\":".as_bytes());
    push_opt_json(&mut out, &s.metadata.ip_address);
    out.extend_from_slice(",\"user_agent\":".as_bytes());
    push_opt_json(&mut out, &s.metadata.user_agent);
    out.extend_from_slice(",\"referrer\":".as_bytes());
    push_opt_json(&mut out, &s.metadata.referrer);
    out.extend_from_slice(",\"country\":".as_bytes());
    push_opt_json(&mut out, &s.metadata.country);
    out.extend_from_slice("},\"created_at\":".as_bytes());
    if 0 <= s.created_at && s.created_at <= 8_000_000_000_000_000 {
        let text = crate::bridge::format_rfc3339_millis(s.created_at);
        push_json_string(&mut out, text.as_str());
    } else {
        let mut num: Vec<u8> = Vec::new();
        if s.created_at >= 0 {
            let digits = crate::codec::dec_digits(s.created_at as u64);
            num.extend_from_slice(digits.as_slice());
            proof {
                crate::codec::lemma_dec_digits_ascii(s.created_at as nat);
                assert(num@ =~= spec_i64_dec_bytes(s.created_at));
            }
        } else {
            num.push(0x2d);
            let mag = (-(s.created_at as i128)) as u64;
            let digits = crate::codec::dec_digits(mag);
            num.extend_from_slice(digits.as_slice());
            proof {
                crate::codec::lemma_dec_digits_ascii(mag as nat);
                assert(num@ =~= spec_i64_dec_bytes(s.created_at));
            }
        }
        proof {
            lemma_escape_of_plain(num@);
        }
        out.push(0x22);
        let escaped = json_escape(num.as_slice());
        out.extend_from_slice(escaped.as_slice());
        out.push(0x22);
        proof {
            assert(seq![0x22u8] + spec_json_escape(num@) + seq![0x22u8] =~= spec_json_string(
                spec_i64_dec_bytes(s.created_at),
            ));
        }
    }
    out.extend_from_slice("}".as_bytes());
    proof {
        assert(out@ =~= spec_delivery_payload(*s));
    }
    out
}

/// Escaping leaves a string of printable ASCII bytes untouched.
proof fn lemma_escape_of_plain(s: Seq<u8>)
    requires
        forall|i: int| 0 <= i < s.len() ==> 0x20 <= #[trigger] s[i] < 0x80 && s[i] != 0x22 && s[i] != 0x5c,
    ensures
        spec_json_escape(s) =~= s,
    decreases s.len(),
{
    if s.len() > 0 {
        lemma_escape_of_plain(s.drop_last());
        assert(spec_json_escape_byte(s.last()) =~= seq![s.last()]);
        assert(s.drop_last() + seq![s.last()] =~= s);
    }
}

/// Delivers a payload: posts it, retries with capped exponential backoff
/// up to the policy's attempt count, and reports the outcome. Whatever the
/// transport returns, a failure outcome carries the text of an actual
/// unsuccessful attempt, the last one.
pub fn deliver<T: WebhookTransport>(
    transport: &mut T,
    url: &str,
    payload: &[u8],
    policy: &RetryPolicy,
) -> (r: DeliveryOutcome)
    requires
        policy.wf(),
    ensures
        r is Failed ==> exists|o: AttemptOutcome|
            !spec_attempt_succeeded(o) && r->Failed_0@ == spec_failure_text(o),
{
    let mut attempt: u32 = 0;
    let mut last: AttemptOutcome = AttemptOutcome::TimedOut;
    while attempt < policy.max_attempts
        invariant
            attempt <= policy.max_attempts,
            attempt > 0 ==> !spec_attempt_succeeded(last),
        decreases policy.max_attempts - attempt,
    {
        let outcome = transport.post(url, payload, policy.timeout_ms);
        if attempt_succeeded(&outcome) {
            return DeliveryOutcome::Delivered;
        }
        last = outcome;
        attempt = attempt + 1;
        if attempt < policy.max_attempts {
            transport.wait(backoff_delay_ms(policy.base_delay_ms, attempt - 1));
        }
    }
    let text = failure_text(&last);
    proof {
        assert(!spec_attempt_succeeded(last) && text@ == spec_failure_text(last));
    }
    DeliveryOutcome::Failed(text)
}

} // verus!
