//! The audit chain: every audit event carries a SHA-256 hash over the hash
//! of the event before it, the event's kind, its taint label and its payload.

use vstd::prelude::*;
use sha2::Digest;
use crate::json::{json_compact_text, json_text, json_view};
use crate::text::concat2;
use crate::text::push_char;

verus! {

/// Where the data of an audit event came from, and how far it is trusted.
pub enum TaintLabel {
    TrustedSystem,
    TrustedOperator,
    UserInput,
    UntrustedModelOutput,
    ExternalMcp,
    ExternalA2A,
    /// Agent-initiated tool executions (shell commands, file mutations, git
    /// operations), reported by the harness after the fact: untrusted claims,
    /// not attestations.
    ToolExecution,
    /// A manager's revision loop ran out of retries; emitted by the kernel
    /// itself before the child work order is failed.
    ManagerEscalation,
}

impl TaintLabel {
    /// The label's variant name, as it enters the chain hash.
    pub open spec fn debug_text(self) -> Seq<char> {
        match self {
            TaintLabel::TrustedSystem => "TrustedSystem"@,
            TaintLabel::TrustedOperator => "TrustedOperator"@,
            TaintLabel::UserInput => "UserInput"@,
            TaintLabel::UntrustedModelOutput => "UntrustedModelOutput"@,
            TaintLabel::ExternalMcp => "ExternalMcp"@,
            TaintLabel::ExternalA2A => "ExternalA2A"@,
            TaintLabel::ToolExecution => "ToolExecution"@,
            TaintLabel::ManagerEscalation => "ManagerEscalation"@,
        }
    }

    /// The label's variant name.
    pub fn debug_name(&self) -> (r: &'static str)
        ensures
            r@ == self.debug_text(),
    {
        match self {
            TaintLabel::TrustedSystem => "TrustedSystem",
            TaintLabel::TrustedOperator => "TrustedOperator",
            TaintLabel::UserInput => "UserInput",
            TaintLabel::UntrustedModelOutput => "UntrustedModelOutput",
            TaintLabel::ExternalMcp => "ExternalMcp",
            TaintLabel::ExternalA2A => "ExternalA2A",
            TaintLabel::ToolExecution => "ToolExecution",
            TaintLabel::ManagerEscalation => "ManagerEscalation",
        }
    }
}

/// One stored audit event.
pub struct AuditEventRecord {
    pub id: i64,
    pub agent_id: Option<String>,
    pub swo_id: Option<i64>,
    pub event_kind: String,
    pub taint_label: TaintLabel,
    pub payload_json: String,
    pub previous_chain_hash: Option<String>,
    pub chain_hash: String,
    pub created_at: String,
}

/// The SHA-256 digest of a byte string.
pub uninterp spec fn sha256(data: Seq<u8>) -> Seq<u8>;

/// Wrapper of `Sha256::digest`: the SHA-256 digest of `data`, which is
/// 32 bytes long.  The digest itself is sha2's and is not restated.
#[verifier::external_body]
fn sha256_digest(data: &[u8]) -> (r: Vec<u8>)
    ensures
        r@ == sha256(data@),
        r@.len() == 32,
{
    sha2::Sha256::digest(data).to_vec()
}

/// The characters of lowercase hexadecimal, in order.
pub const HEX_DIGITS: &'static str = "0123456789abcdef";

/// Lowercase hexadecimal digit for `k` in `0..16`.
pub open spec fn hex_digit(k: int) -> char {
    if k < 10 {
        (48 + k) as char
    } else {
        (87 + k) as char
    }
}

/// Lowercase hexadecimal text of a byte string, two digits per byte, high
/// nibble first.
pub open spec fn lower_hex(b: Seq<u8>) -> Seq<char>
    decreases b.len(),
{
    if b.len() == 0 {
        Seq::empty()
    } else {
        lower_hex(b.drop_last()) + seq![hex_digit(b.last() as int / 16), hex_digit(b.last() as int % 16)]
    }
}

/// `lower_hex` writes exactly two digits per byte.
pub proof fn lemma_lower_hex_len(b: Seq<u8>)
    ensures
        lower_hex(b).len() == 2 * b.len(),
    decreases b.len(),
{
    if b.len() > 0 {
        lemma_lower_hex_len(b.drop_last());
    }
}

/// Lowercase hex text is made of `0`-`9` and `a`-`f` only.
pub proof fn lemma_lower_hex_digits(b: Seq<u8>)
    ensures
        forall|i: int|
            0 <= i < lower_hex(b).len() ==> ('0' <= #[trigger] lower_hex(b)[i] <= '9') || ('a'
                <= lower_hex(b)[i] <= 'f'),
    decreases b.len(),
{
    if b.len() > 0 {
        lemma_lower_hex_digits(b.drop_last());
        let p = lower_hex(b.drop_last());
        let t = seq![hex_digit(b.last() as int / 16), hex_digit(b.last() as int % 16)];
        assert forall|i: int| 0 <= i < (p + t).len() implies ('0' <= #[trigger] (p + t)[i] <= '9')
            || ('a' <= (p + t)[i] <= 'f') by {
            if i < p.len() {
                assert((p + t)[i] == p[i]);
            } else {
                assert((p + t)[i] == t[i - p.len()]);
            }
        }
        assert(lower_hex(b) == p + t);
    }
}

fn hex_char(k: u8) -> (c: char)
    requires
        k < 16,
    ensures
        c == hex_digit(k as int),
{
    proof {
        reveal_strlit("0123456789abcdef");
    }
    HEX_DIGITS.get_char(k as usize)
}

/// Lowercase hexadecimal text of a byte string.
pub fn lower_hex_string(bytes: &Vec<u8>) -> (r: String)
    ensures
        r@ == lower_hex(bytes@),
{
    let mut r = String::new();
    let mut i: usize = 0;
    while i < bytes.len()
        invariant
            i <= bytes.len(),
            r@ == lower_hex(bytes@.subrange(0, i as int)),
        decreases bytes.len() - i,
    {
        let b = bytes[i];
        push_char(&mut r, hex_char(b / 16));
        push_char(&mut r, hex_char(b % 16));
        proof {
            let next = bytes@.subrange(0, i + 1);
            assert(next.drop_last() =~= bytes@.subrange(0, i as int));
            assert(next.last() == b);
        }
        i = i + 1;
    }
    assert(bytes@.subrange(0, bytes.len() as int) =~= bytes@);
    r
}

/// The hash an event chains from: the previous event's hash, or `GENESIS`
/// for the first event.
pub open spec fn chain_start(previous: Option<&str>) -> Seq<char> {
    match previous {
        Some(p) => p@,
        None => "GENESIS"@,
    }
}

/// The text that is hashed for one event: the previous hash, the kind, the
/// label's name and the payload text, separated by `|`.
pub open spec fn chain_preimage(
    start: Seq<char>,
    event_kind: Seq<char>,
    label: TaintLabel,
    payload_text: Seq<char>,
) -> Seq<char> {
    start + "|"@ + event_kind + "|"@ + label.debug_text() + "|"@ + payload_text
}

/// The chain hash: lowercase hex of the SHA-256 of the preimage's UTF-8 bytes.
pub open spec fn chain_hash_text(
    start: Seq<char>,
    event_kind: Seq<char>,
    label: TaintLabel,
    payload_text: Seq<char>,
) -> Seq<char> {
    lower_hex(sha256(vstd::utf8::encode_utf8(chain_preimage(start, event_kind, label, payload_text))))
}

/// Chain hash of an event whose payload is already written out as JSON text.
pub fn chain_hash_of_text(
    previous_chain_hash: Option<&str>,
    event_kind: &str,
    taint_label: &TaintLabel,
    payload_text: &str,
) -> (r: String)
    ensures
        r@ == chain_hash_text(chain_start(previous_chain_hash), event_kind@, *taint_label, payload_text@),
        r@.len() == 64,
{
    proof {
        reveal_strlit("GENESIS");
        reveal_strlit("|");
    }
    let start = match previous_chain_hash {
        Some(p) => p,
        None => "GENESIS",
    };
    let a = concat2(start, "|");
    let b = concat2(a.as_str(), event_kind);
    let c = concat2(b.as_str(), "|");
    let d = concat2(c.as_str(), taint_label.debug_name());
    let e = concat2(d.as_str(), "|");
    let f = concat2(e.as_str(), payload_text);
    let digest = sha256_digest(f.as_str().as_bytes());
    let r = lower_hex_string(&digest);
    proof {
        lemma_lower_hex_len(digest@);
    }
    r
}

/// Chain hash of an audit event: SHA-256 over the previous hash (or
/// `GENESIS`), the event kind, the taint label and the payload's compact
/// JSON text, in lowercase hex.
pub fn compute_chain_hash(
    previous_chain_hash: Option<&str>,
    event_kind: &str,
    taint_label: &TaintLabel,
    payload: &serde_json::Value,
) -> (r: String)
    ensures
        r@ == chain_hash_text(
            chain_start(previous_chain_hash),
            event_kind@,
            *taint_label,
            json_compact_text(json_view(*payload)),
        ),
        r@.len() == 64,
{
    let text = json_text(payload);
    chain_hash_of_text(previous_chain_hash, event_kind, taint_label, text.as_str())
}

} // verus!
