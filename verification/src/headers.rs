//! Request headers: allowed browser origins, the sidecar token, and the common metadata every
//! governed API call carries.
use vstd::prelude::*;

use crate::ids::{is_uuid_text, new_uuid_v4_text};
use crate::stream::{all_digits, digits_magnitude, digits_value};
use crate::text::{
    eq_ic, eq_ignore_ascii_case, same_text, split_by_char, split_on, trim, trim_seq,
    trimmed_nonblank, trimmed_nonblank_of, views,
};

verus! {

/// Origins the desktop shell serves from; the development servers only in a debug build.
pub open spec fn default_origin(origin: Seq<char>, debug_build: bool) -> bool {
    ||| origin == "tauri://localhost"@
    ||| origin == "http://tauri.localhost"@
    ||| origin == "https://tauri.localhost"@
    ||| debug_build && (origin == "http://localhost:5173"@ || origin == "http://127.0.0.1:5173"@)
}

/// The origin is allowed without configuration; `debug_build` tells whether the server was
/// built with debug assertions.
pub fn is_default_allowed_origin(origin: &str, debug_build: bool) -> (r: bool)
    ensures
        r == default_origin(origin@, debug_build),
{
    same_text(origin, "tauri://localhost") || same_text(origin, "http://tauri.localhost")
        || same_text(origin, "https://tauri.localhost") || (debug_build && (same_text(
        origin,
        "http://localhost:5173",
    ) || same_text(origin, "http://127.0.0.1:5173")))
}

/// The desktop shell's origins (`tauri://localhost`, `http://tauri.localhost`,
/// `https://tauri.localhost`) are allowed in every build; the development servers
/// (`http://localhost:5173`, `http://127.0.0.1:5173`) exactly in a debug build; and no other
/// origin is allowed by default, so only the two development origins depend on the build.
pub proof fn lemma_default_origins(origin: Seq<char>, debug_build: bool)
    ensures
        default_origin("tauri://localhost"@, debug_build),
        default_origin("http://tauri.localhost"@, debug_build),
        default_origin("https://tauri.localhost"@, debug_build),
        default_origin("http://localhost:5173"@, debug_build) == debug_build,
        default_origin("http://127.0.0.1:5173"@, debug_build) == debug_build,
        origin != "http://localhost:5173"@ && origin != "http://127.0.0.1:5173"@ ==> default_origin(
            origin,
            debug_build,
        ) == default_origin(origin, !debug_build),
        default_origin(origin, debug_build) ==> origin == "tauri://localhost"@ || origin
            == "http://tauri.localhost"@ || origin == "https://tauri.localhost"@ || origin
            == "http://localhost:5173"@ || origin == "http://127.0.0.1:5173"@,
{
    reveal_strlit("tauri://localhost");
    reveal_strlit("http://tauri.localhost");
    reveal_strlit("https://tauri.localhost");
    reveal_strlit("http://localhost:5173");
    reveal_strlit("http://127.0.0.1:5173");
    let dev1 = "http://localhost:5173"@;
    let dev2 = "http://127.0.0.1:5173"@;
    assert(dev1 != "tauri://localhost"@ && dev1 != "http://tauri.localhost"@ && dev1
        != "https://tauri.localhost"@) by {
        assert(dev1[0] != "tauri://localhost"@[0]);
        assert(dev1[7] != "http://tauri.localhost"@[7]);
        assert(dev1[4] != "https://tauri.localhost"@[4]);
    }
    assert(dev2 != "tauri://localhost"@ && dev2 != "http://tauri.localhost"@ && dev2
        != "https://tauri.localhost"@) by {
        assert(dev2[0] != "tauri://localhost"@[0]);
        assert(dev2[7] != "http://tauri.localhost"@[7]);
        assert(dev2[4] != "https://tauri.localhost"@[4]);
    }
}

/// The extra origins a comma-separated setting lists, trimmed, blank entries dropped.
pub fn parse_allowed_origins(raw: &str) -> (r: Vec<String>)
    ensures
        views(r@) == trimmed_nonblank(split_on(raw@, ',')),
{
    trimmed_nonblank_of(&split_by_char(raw, ','))
}

/// A browser origin may call the server: it is a default origin or matches a configured one,
/// ASCII case ignored.
pub open spec fn origin_allowed_spec(origin: Seq<char>, debug_build: bool, extra: Seq<Seq<char>>) -> bool {
    default_origin(origin, debug_build) || exists|j: int|
        0 <= j < extra.len() && eq_ic(#[trigger] extra[j], origin)
}

pub fn origin_allowed(origin: &str, debug_build: bool, extra: &Vec<String>) -> (r: bool)
    ensures
        r == origin_allowed_spec(origin@, debug_build, views(extra@)),
{
    if is_default_allowed_origin(origin, debug_build) {
        return true;
    }
    let n = extra.len();
    let mut j: usize = 0;
    while j < n
        invariant
            n == extra@.len(),
            j <= n,
            forall|k: int| 0 <= k < j ==> !eq_ic(#[trigger] views(extra@)[k], origin@),
        decreases n - j,
    {
        assert(views(extra@)[j as int] == extra@[j as int]@);
        if eq_ignore_ascii_case(extra[j].as_str(), origin) {
            return true;
        }
        j = j + 1;
    }
    false
}

/// The sidecar token the server was configured with: the trimmed setting, unless blank.
pub fn configured_sidecar_token(raw: Option<&str>) -> (r: Option<String>)
    ensures
        match raw {
            Some(v) => if trim_seq(v@).len() > 0 {
                r matches Some(t) && t@ == trim_seq(v@)
            } else {
                r is None
            },
            None => r is None,
        },
{
    match raw {
        Some(v) => {
            let t = trim(v);
            if t.as_str().unicode_len() > 0 {
                Some(t)
            } else {
                None
            }
        },
        None => None,
    }
}

/// Why an operational route is refused by the sidecar token guard.
#[derive(PartialEq, Eq, Structural, Debug, Clone, Copy)]
pub enum SidecarRefusal {
    /// No token is configured: operational routes are closed (status 503).
    Unconfigured,
    /// The `x-coevo-token` header is missing or does not match (status 401).
    InvalidToken,
}

impl SidecarRefusal {
    pub open spec fn status_spec(self) -> u16 {
        match self {
            SidecarRefusal::Unconfigured => 503,
            SidecarRefusal::InvalidToken => 401,
        }
    }

    pub open spec fn message_spec(self) -> Seq<char> {
        match self {
            SidecarRefusal::Unconfigured => "Sidecar token is not configured"@,
            SidecarRefusal::InvalidToken => "Missing or invalid sidecar token"@,
        }
    }

    /// The HTTP status of the refusal.
    pub fn status(&self) -> (r: u16)
        ensures
            r == self.status_spec(),
    {
        match self {
            SidecarRefusal::Unconfigured => 503,
            SidecarRefusal::InvalidToken => 401,
        }
    }

    /// The detail the refusal is answered with.
    pub fn message(&self) -> (r: String)
        ensures
            r@ == self.message_spec(),
    {
        match self {
            SidecarRefusal::Unconfigured => String::from_str("Sidecar token is not configured"),
            SidecarRefusal::InvalidToken => String::from_str("Missing or invalid sidecar token"),
        }
    }
}

/// The sidecar token guard of the operational routes: with no token configured every such
/// request is refused as unavailable; with a token configured, a request passes when its
/// trimmed `x-coevo-token` header (empty when absent) equals the token, and is refused as
/// unauthorized otherwise.
pub fn check_sidecar_token(expected: Option<&str>, header: Option<&str>) -> (r: Result<
    (),
    SidecarRefusal,
>)
    ensures
        r == (match expected {
            None => Err(SidecarRefusal::Unconfigured),
            Some(e) => if (match header {
                Some(h) => trim_seq(h@),
                None => Seq::<char>::empty(),
            }) == e@ {
                Ok(())
            } else {
                Err(SidecarRefusal::InvalidToken)
            },
        }),
{
    match expected {
        None => Err(SidecarRefusal::Unconfigured),
        Some(e) => {
            let matches = match header {
                Some(h) => same_text(trim(h).as_str(), e),
                None => {
                    proof {
                        if e@.len() == 0 {
                            assert(e@ =~= Seq::<char>::empty());
                        }
                    }
                    e.unicode_len() == 0
                },
            };
            if matches {
                Ok(())
            } else {
                Err(SidecarRefusal::InvalidToken)
            }
        },
    }
}

/// `str::parse::<u64>`: an optional `+`, then one or more ASCII digits, whose value fits in
/// `u64`.
pub open spec fn parse_u64(s: Seq<char>) -> Option<u64> {
    let digits = if s.len() > 0 && s[0] == '+' {
        s.drop_first()
    } else {
        s
    };
    if digits.len() > 0 && all_digits(digits)
        && digits_value(digits) <= u64::MAX {
        Some(digits_value(digits) as u64)
    } else {
        None
    }
}

/// `<u64 as FromStr>::from_str`, written out: the strings `parse_u64` describes, and their
/// values.
fn parse_u64_text(s: &str) -> (r: Option<u64>)
    ensures
        r == parse_u64(s@),
{
    let c = crate::text::chars_of(s);
    let start: usize = if c.len() > 0 && c[0] == '+' {
        1
    } else {
        0
    };
    let r = digits_magnitude(&c, start);
    proof {
        if s@.len() > 0 && s@[0] == '+' {
            assert(c@.skip(start as int) =~= s@.drop_first());
        } else {
            assert(c@.skip(start as int) =~= s@);
        }
    }
    r
}

/// `Uuid::new_v4()`, its sixteen bytes: random, but for the version (the high half of byte 6
/// is 4) and the RFC 4122 variant (the top two bits of byte 8 are `10`). It panics if the
/// operating system's random source fails; nothing in its arguments decides that.
#[verifier::external_body]
fn new_uuid_v4_bytes() -> (r: [u8; 16])
    ensures
        r@[6] / 16 == 4,
        r@[8] / 64 == 2,
{
    *uuid::Uuid::new_v4().as_bytes()
}

/// `rand::random::<[u8; 8]>()`. It panics if the operating system's random source fails;
/// nothing in its arguments decides that.
#[verifier::external_body]
fn random_span_bytes() -> (r: [u8; 8]) {
    rand::random::<[u8; 8]>()
}

/// The lower-case hexadecimal digit of a value below sixteen.
pub open spec fn hex_digit(v: int) -> char {
    if v < 10 {
        ('0' as int + v) as char
    } else {
        ('a' as int + v - 10) as char
    }
}

/// Lower-case hexadecimal text of bytes, two digits per byte, high half first.
pub open spec fn hex_text(bytes: Seq<u8>) -> Seq<char>
    decreases bytes.len(),
{
    if bytes.len() == 0 {
        Seq::empty()
    } else {
        hex_text(bytes.drop_last()).push(hex_digit(bytes.last() as int / 16)).push(
            hex_digit(bytes.last() as int % 16),
        )
    }
}

/// `hex::encode`: two lower-case hexadecimal digits per byte.
#[verifier::external_body]
fn hex_encode(bytes: &[u8]) -> (r: String)
    ensures
        r@ == hex_text(bytes@),
{
    hex::encode(bytes)
}

/// A W3C `traceparent` for a new trace: version 00, a trace id and a span id in hex, flags 01.
pub open spec fn traceparent_text(trace_id: Seq<u8>, span_id: Seq<u8>) -> Seq<char> {
    "00-"@ + hex_text(trace_id) + "-"@ + hex_text(span_id) + "-01"@
}

pub fn traceparent_for(trace_id: &[u8], span_id: &[u8]) -> (r: String)
    ensures
        r@ == traceparent_text(trace_id@, span_id@),
{
    String::from_str("00-").concat(hex_encode(trace_id).as_str()).concat("-").concat(
        hex_encode(span_id).as_str(),
    ).concat("-01")
}

/// The metadata headers of a governed API call, as text; an absent header (or one that is not
/// visible ASCII) is empty, or `None` where the metadata keeps it optional.
pub struct RawMetadataHeaders {
    pub idempotency_key: String,
    pub traceparent: String,
    pub tracestate: Option<String>,
    pub caller_identity_proof: Option<String>,
    pub contract_hash: String,
    pub policy_version: String,
    pub tenant_id: String,
    pub execution_plan_hash: String,
    pub actor_role: String,
    pub causality_parent_id: String,
    pub request_ttl_ms: Option<String>,
    pub replay_mode: Option<String>,
    pub timestamp: Option<String>,
}

/// The metadata a governed API call is checked and recorded with.
pub struct MetadataFields {
    pub idempotency_key: String,
    pub traceparent: String,
    pub tracestate: Option<String>,
    pub caller_identity_proof: Option<String>,
    pub contract_hash: String,
    pub policy_version: String,
    pub tenant_id: String,
    pub execution_plan_hash: String,
    pub actor_role: String,
    pub request_ttl_ms: u64,
    pub causality_parent_id: String,
    pub replay_mode: bool,
    pub timestamp: u64,
}

pub open spec fn opt_seq(o: Option<String>) -> Option<Seq<char>> {
    match o {
        Some(s) => Some(s@),
        None => None,
    }
}

fn parse_u64_or(raw: &Option<String>, default: u64) -> (r: u64)
    ensures
        r == (match raw {
            Some(s) => match parse_u64(s@) {
                Some(v) => v,
                None => default,
            },
            None => default,
        }),
{
    match raw {
        Some(s) => match parse_u64_text(s.as_str()) {
            Some(v) => v,
            None => default,
        },
        None => default,
    }
}

/// Fills in the metadata of a call from its headers at time `now_ms`: the request's time to
/// live defaults to 30000 ms, replay mode holds only for `true`, the timestamp defaults to
/// `now_ms`, and an empty idempotency key, traceparent or causality parent gets a fresh random
/// one; every other header is carried as it came.
pub fn metadata_from_headers(h: RawMetadataHeaders, now_ms: u64) -> (r: MetadataFields)
    ensures
        h.idempotency_key@.len() > 0 ==> r.idempotency_key@ == h.idempotency_key@,
        h.idempotency_key@.len() == 0 ==> is_uuid_text(r.idempotency_key@),
        h.traceparent@.len() > 0 ==> r.traceparent@ == h.traceparent@,
        h.traceparent@.len() == 0 ==> exists|t: Seq<u8>, s: Seq<u8>|
            t.len() == 16 && s.len() == 8 && t[6] / 16 == 4 && t[8] / 64 == 2 && r.traceparent@
                == #[trigger] traceparent_text(t, s),
        h.causality_parent_id@.len() > 0 ==> r.causality_parent_id@ == h.causality_parent_id@,
        h.causality_parent_id@.len() == 0 ==> is_uuid_text(r.causality_parent_id@),
        r.tracestate == h.tracestate,
        r.caller_identity_proof == h.caller_identity_proof,
        r.contract_hash == h.contract_hash,
        r.policy_version == h.policy_version,
        r.tenant_id == h.tenant_id,
        r.execution_plan_hash == h.execution_plan_hash,
        r.actor_role == h.actor_role,
        r.request_ttl_ms == (match h.request_ttl_ms {
            Some(s) => match parse_u64(s@) {
                Some(v) => v,
                None => 30000u64,
            },
            None => 30000u64,
        }),
        r.replay_mode == (match h.replay_mode {
            Some(s) => s@ == "true"@,
            None => false,
        }),
        r.timestamp == (match h.timestamp {
            Some(s) => match parse_u64(s@) {
                Some(v) => v,
                None => now_ms,
            },
            None => now_ms,
        }),
{
    let request_ttl_ms = parse_u64_or(&h.request_ttl_ms, 30000);
    let timestamp = parse_u64_or(&h.timestamp, now_ms);
    let replay_mode = match &h.replay_mode {
        Some(s) => same_text(s.as_str(), "true"),
        None => false,
    };
    let idempotency_key = if h.idempotency_key.as_str().unicode_len() == 0 {
        new_uuid_v4_text()
    } else {
        h.idempotency_key
    };
    let traceparent = if h.traceparent.as_str().unicode_len() == 0 {
        let trace_id = new_uuid_v4_bytes();
        let span_id = random_span_bytes();
        let t = traceparent_for(trace_id.as_slice(), span_id.as_slice());
        assert(t@ == traceparent_text(trace_id@, span_id@));
        assert(trace_id@.len() == 16 && span_id@.len() == 8);
        t
    } else {
        h.traceparent
    };
    let causality_parent_id = if h.causality_parent_id.as_str().unicode_len() == 0 {
        new_uuid_v4_text()
    } else {
        h.causality_parent_id
    };
    MetadataFields {
        idempotency_key,
        traceparent,
        tracestate: h.tracestate,
        caller_identity_proof: h.caller_identity_proof,
        contract_hash: h.contract_hash,
        policy_version: h.policy_version,
        tenant_id: h.tenant_id,
        execution_plan_hash: h.execution_plan_hash,
        actor_role: h.actor_role,
        request_ttl_ms,
        causality_parent_id,
        replay_mode,
        timestamp,
    }
}

} // verus!
