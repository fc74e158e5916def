//! Request and response shapes of the kernel's HTTP surface, and the
//! decisions the webhook handlers make before any work is done.

use vstd::prelude::*;
use vstd::string::*;
use crate::manifest::AgentManifestV1;
use crate::ids::{new_uuid_v4, uuid_v4_text};
use crate::orchestrator::SairgentToolProposal;
use crate::text::{
    ascii_lowercase, ascii_lowercase_str, int_text, i64_text, owned, str_equals, take_chars,
    take_chars_vec, trim, trim_str, chars_of, string_of,
};

verus! {

pub struct WebhookPayload {
    pub bot_id: String,
    pub message: String,
    pub channel: Option<String>,
    pub external_chat_id: Option<String>,
    pub external_user_id: Option<String>,
    pub external_message_id: Option<String>,
}

pub struct WebhookResponse {
    pub status: String,
    pub reply: Option<String>,
}

pub struct HireRequest {
    pub name: String,
    pub parent_id: Option<String>,
    pub role: String,
    pub persona_prompt: Option<String>,
    pub raison_detre: String,
    pub provider: String,
    pub model: String,
    pub manifest: Option<AgentManifestV1>,
}

pub struct HireResponse {
    pub agent_id: String,
}

pub struct UpdateAgentManifestRequest {
    pub manifest: AgentManifestV1,
}

pub struct SkillBindingRequest {
    pub skill_id: String,
    pub priority: Option<i64>,
}

pub struct SkillPreviewRequest {
    pub mode: String,
    pub payload: String,
}

pub struct BindTokenRequest {
    pub bot_token: String,
}

pub struct BindTokenResponse {
    pub status: String,
}

pub struct TelegramWebhook {
    pub update_id: Option<i64>,
    pub message: Option<TelegramMessage>,
}

pub struct TelegramMessage {
    pub message_id: Option<i64>,
    pub text: Option<String>,
    pub chat: TelegramChat,
    pub from: Option<TelegramUser>,
}

pub struct TelegramChat {
    pub id: i64,
}

pub struct TelegramUser {
    pub id: i64,
}

/// A drafted tool call as the Sairgent panel shows it.
pub struct SairgentWebhookToolCall {
    pub call_id: String,
    pub tool_name: String,
    pub summary: String,
    pub arguments_json: String,
    pub status: String,
    pub requires_confirmation: bool,
    pub result_summary: Option<String>,
    pub error_message: Option<String>,
}

/// A message of a Sairgent conversation held over a webhook channel.
pub struct SairgentWebhookMessage {
    pub id: String,
    pub conversation_id: String,
    pub role: String,
    pub content: String,
    pub channel: String,
    pub created_at: String,
    pub related_project_id: Option<String>,
    pub related_swo_id: Option<i64>,
    pub pending_tool_call: Option<SairgentWebhookToolCall>,
    pub tool_calls: Vec<SairgentWebhookToolCall>,
}

/// A drafted call still waiting for the operator's confirmation.
pub open spec fn awaits_confirmation(t: SairgentWebhookToolCall) -> bool {
    t.requires_confirmation && (t.status@ == "pending_confirmation"@ || t.status@ == "proposed"@)
}

/// The first drafted call that waits for confirmation.
pub open spec fn first_pending(calls: Seq<SairgentWebhookToolCall>) -> Option<SairgentWebhookToolCall>
    decreases calls.len(),
{
    if calls.len() == 0 {
        None
    } else if awaits_confirmation(calls[0]) {
        Some(calls[0])
    } else {
        first_pending(calls.drop_first())
    }
}

fn copy_opt_text(o: &Option<String>) -> (r: Option<String>)
    ensures
        r == *o,
{
    match o {
        Some(s) => Some(s.clone()),
        None => None,
    }
}

fn copy_tool_call(t: &SairgentWebhookToolCall) -> (r: SairgentWebhookToolCall)
    ensures
        r == *t,
{
    SairgentWebhookToolCall {
        call_id: t.call_id.clone(),
        tool_name: t.tool_name.clone(),
        summary: t.summary.clone(),
        arguments_json: t.arguments_json.clone(),
        status: t.status.clone(),
        requires_confirmation: t.requires_confirmation,
        result_summary: copy_opt_text(&t.result_summary),
        error_message: copy_opt_text(&t.error_message),
    }
}

/// A new conversation message: a fresh id made from `id_random`, the
/// channel trimmed and lowercased, and the first call that awaits
/// confirmation singled out.
pub fn make_sairgent_message(
    role: &str,
    content: String,
    channel: &str,
    conversation_id: String,
    tool_calls: Vec<SairgentWebhookToolCall>,
    created_at: String,
    id_random: [u8; 16],
) -> (r: SairgentWebhookMessage)
    ensures
        r.id@ == uuid_v4_text(id_random@),
        r.conversation_id == conversation_id,
        r.role@ == role@,
        r.content == content,
        r.channel@ == ascii_lowercase(trim(channel@)),
        r.created_at == created_at,
        r.related_project_id is None,
        r.related_swo_id is None,
        r.pending_tool_call == first_pending(tool_calls@),
        r.tool_calls@ == tool_calls@,
{
    let mut pending: Option<SairgentWebhookToolCall> = None;
    let mut i: usize = 0;
    assert(tool_calls@.skip(0) =~= tool_calls@);
    while i < tool_calls.len()
        invariant
            i <= tool_calls@.len(),
            first_pending(tool_calls@) == (match pending {
                Some(p) => Some(p),
                None => first_pending(tool_calls@.skip(i as int)),
            }),
        decreases tool_calls.len() - i,
    {
        proof {
            assert(tool_calls@.skip(i as int)[0] == tool_calls@[i as int]);
            assert(tool_calls@.skip(i as int).drop_first() =~= tool_calls@.skip(i + 1));
        }
        if pending.is_none() {
            let t = &tool_calls[i];
            if t.requires_confirmation && (str_equals(t.status.as_str(), "pending_confirmation")
                || str_equals(t.status.as_str(), "proposed")) {
                pending = Some(copy_tool_call(t));
            }
        }
        i = i + 1;
    }
    proof {
        assert(tool_calls@.skip(i as int).len() == 0);
    }
    let t = trim_str(channel);
    SairgentWebhookMessage {
        id: new_uuid_v4(id_random),
        conversation_id,
        role: owned(role),
        content,
        channel: ascii_lowercase_str(t.as_str()),
        created_at,
        related_project_id: None,
        related_swo_id: None,
        pending_tool_call: pending,
        tool_calls,
    }
}

/// Byte-wise equality of two strings, taking time that depends only on the
/// longer length.
pub fn constant_time_equals(left: &str, right: &str) -> (r: bool)
    ensures
        r == (left.spec_bytes() == right.spec_bytes()),
        r == (left@ == right@),
{
    let lb = left.as_bytes();
    let rb = right.as_bytes();
    let ll = lb.len();
    let rl = rb.len();
    let max_len = if ll > rl {
        ll
    } else {
        rl
    };
    let mut diff: usize = ll ^ rl;
    assert((ll ^ rl == 0) == (ll == rl)) by (bit_vector);
    let mut index: usize = 0;
    while index < max_len
        invariant
            lb@ == left.spec_bytes(),
            rb@ == right.spec_bytes(),
            ll == lb@.len(),
            rl == rb@.len(),
            max_len == if ll > rl {
                ll
            } else {
                rl
            },
            index <= max_len,
            (diff == 0) == (ll == rl && forall|j: int| 0 <= j < index ==> lb@[j] == rb@[j]),
        decreases max_len - index,
    {
        let lbyte: u8 = if index < ll {
            lb[index]
        } else {
            0
        };
        let rbyte: u8 = if index < rl {
            rb[index]
        } else {
            0
        };
        let x: u8 = lbyte ^ rbyte;
        assert((x == 0) == (lbyte == rbyte)) by (bit_vector)
            requires
                x == lbyte ^ rbyte,
        ;
        let old_diff = diff;
        diff = diff | (x as usize);
        assert((diff == 0) == (old_diff == 0 && x == 0)) by (bit_vector)
            requires
                diff == old_diff | (x as usize),
        ;
        index = index + 1;
    }
    proof {
        if diff == 0 {
            assert(lb@ =~= rb@);
        }
        vstd::utf8::encode_utf8_decode_utf8(left@);
        vstd::utf8::encode_utf8_decode_utf8(right@);
    }
    diff == 0
}

pub open spec fn opt_text(o: Option<&str>, default: Seq<char>) -> Seq<char> {
    match o {
        Some(v) => v@,
        None => default,
    }
}

pub open spec fn conversation_id(
    agent_id: Seq<char>,
    channel: Seq<char>,
    chat: Seq<char>,
    user: Seq<char>,
) -> Seq<char> {
    "sairgent-"@ + agent_id + "-"@ + ascii_lowercase(trim(channel)) + "-"@ + chat + "-"@ + user
}

/// Conversation key of an external chat: agent, normalized channel, chat
/// (default `global`) and user (default `operator`).
pub fn webhook_conversation_id(
    agent_id: &str,
    channel: &str,
    external_chat_id: Option<&str>,
    external_user_id: Option<&str>,
) -> (r: String)
    ensures
        r@ == conversation_id(
            agent_id@,
            channel@,
            opt_text(external_chat_id, "global"@),
            opt_text(external_user_id, "operator"@),
        ),
{
    let mut r = owned("sairgent-");
    r.append(agent_id);
    r.append("-");
    let t = trim_str(channel);
    let l = ascii_lowercase_str(t.as_str());
    r.append(l.as_str());
    r.append("-");
    match external_chat_id {
        Some(c) => r.append(c),
        None => r.append("global"),
    }
    r.append("-");
    match external_user_id {
        Some(u) => r.append(u),
        None => r.append("operator"),
    }
    r
}

/// A proposal as shown in the panel: pending confirmation when it needs
/// one, otherwise merely proposed.
pub fn to_webhook_tool_call(proposal: SairgentToolProposal) -> (r: SairgentWebhookToolCall)
    ensures
        r.call_id == proposal.call_id,
        r.tool_name == proposal.tool_name,
        r.summary == proposal.summary,
        r.arguments_json == proposal.arguments_json,
        r.status@ == (if proposal.requires_confirmation {
            "pending_confirmation"@
        } else {
            "proposed"@
        }),
        r.requires_confirmation == proposal.requires_confirmation,
        r.result_summary is None,
        r.error_message is None,
{
    let status = if proposal.requires_confirmation {
        owned("pending_confirmation")
    } else {
        owned("proposed")
    };
    SairgentWebhookToolCall {
        call_id: proposal.call_id,
        tool_name: proposal.tool_name,
        summary: proposal.summary,
        arguments_json: proposal.arguments_json,
        status,
        requires_confirmation: proposal.requires_confirmation,
        result_summary: None,
        error_message: None,
    }
}

/// What to do with a Telegram update before any agent work starts.
pub enum TelegramAdmission {
    /// The webhook secret is missing or wrong: the request fails.
    Unauthorized,
    /// Nothing to act on (binding disabled, no message, or blank text).
    Ignored,
    /// The chat or user is not on the binding's allowlist.
    Rejected {
        external_chat_id: String,
        external_user_id: Option<String>,
        external_message_id: Option<String>,
        text_preview: String,
    },
    /// The update is accepted for processing.
    Accepted {
        text: String,
        external_chat_id: String,
        external_user_id: Option<String>,
        external_message_id: Option<String>,
    },
}

/// The allowlist decision on a chat and user id.
pub open spec fn telegram_allowed(
    allowed_chat_id: Option<Seq<char>>,
    allowed_user_id: Option<Seq<char>>,
    chat_id: Seq<char>,
    user_id: Option<Seq<char>>,
) -> bool {
    (allowed_chat_id matches Some(c) && c == chat_id) && (allowed_user_id matches Some(e)
        && user_id matches Some(a) && e == a)
}

pub open spec fn opt_seq(o: Option<&str>) -> Option<Seq<char>> {
    match o {
        Some(v) => Some(v@),
        None => None,
    }
}

pub open spec fn opt_string(o: Option<String>) -> Option<Seq<char>> {
    match o {
        Some(v) => Some(v@),
        None => None,
    }
}

pub open spec fn opt_id_text(o: Option<i64>) -> Option<Seq<char>> {
    match o {
        Some(v) => Some(int_text(v as int)),
        None => None,
    }
}

/// The message id of an update: the message's own id, else the update id.
pub open spec fn telegram_message_id(message: &TelegramMessage, update_id: Option<i64>) -> Option<
    i64,
> {
    match message.message_id {
        Some(m) => Some(m),
        None => update_id,
    }
}

pub open spec fn telegram_user_id(message: &TelegramMessage) -> Option<i64> {
    match message.from {
        Some(u) => Some(u.id),
        None => None,
    }
}

pub open spec fn message_text(message: &TelegramMessage) -> Seq<char> {
    match message.text {
        Some(t) => t@,
        None => Seq::empty(),
    }
}

/// Decides what becomes of a Telegram update, given the binding's secret,
/// enablement and allowlist.
pub fn telegram_admission(
    expected_secret: Option<&str>,
    presented_secret: &str,
    binding_enabled: bool,
    update: &TelegramWebhook,
    allowed_chat_id: Option<&str>,
    allowed_user_id: Option<&str>,
) -> (r: TelegramAdmission)
    ensures
        ({
            let expected = opt_text(expected_secret, Seq::empty());
            (r is Unauthorized) <==> (expected.len() == 0 || presented_secret@ != expected)
        }),
        !(r is Unauthorized) ==> ((r is Ignored) <==> (!binding_enabled || update.message is None
            || trim(message_text(&update.message->0)).len() == 0)),
        match r {
            TelegramAdmission::Rejected {
                external_chat_id,
                external_user_id,
                external_message_id,
                text_preview,
            } => {
                let m = update.message->0;
                &&& external_chat_id@ == int_text(m.chat.id as int)
                &&& opt_string(external_user_id) == opt_id_text(telegram_user_id(&m))
                &&& opt_string(external_message_id) == opt_id_text(
                    telegram_message_id(&m, update.update_id),
                )
                &&& text_preview@ == take_chars(message_text(&m), 160)
                &&& !telegram_allowed(
                    opt_seq(allowed_chat_id),
                    opt_seq(allowed_user_id),
                    int_text(m.chat.id as int),
                    opt_id_text(telegram_user_id(&m)),
                )
            },
            TelegramAdmission::Accepted {
                text,
                external_chat_id,
                external_user_id,
                external_message_id,
            } => {
                let m = update.message->0;
                &&& text@ == message_text(&m)
                &&& external_chat_id@ == int_text(m.chat.id as int)
                &&& opt_string(external_user_id) == opt_id_text(telegram_user_id(&m))
                &&& opt_string(external_message_id) == opt_id_text(
                    telegram_message_id(&m, update.update_id),
                )
                &&& telegram_allowed(
                    opt_seq(allowed_chat_id),
                    opt_seq(allowed_user_id),
                    int_text(m.chat.id as int),
                    opt_id_text(telegram_user_id(&m)),
                )
            },
            _ => true,
        },
{
    let expected = match expected_secret {
        Some(s) => s,
        None => "",
    };
    proof {
        reveal_strlit("");
    }
    if expected.unicode_len() == 0 || !constant_time_equals(presented_secret, expected) {
        return TelegramAdmission::Unauthorized;
    }
    if !binding_enabled {
        return TelegramAdmission::Ignored;
    }
    let message = match &update.message {
        Some(m) => m,
        None => {
            return TelegramAdmission::Ignored;
        },
    };
    let text = match &message.text {
        Some(t) => t.clone(),
        None => String::new(),
    };
    let trimmed = trim_str(text.as_str());
    if trimmed.unicode_len() == 0 {
        return TelegramAdmission::Ignored;
    }
    let external_chat_id = i64_text(message.chat.id);
    let external_user_id = match &message.from {
        Some(u) => Some(i64_text(u.id)),
        None => None,
    };
    let message_id = match message.message_id {
        Some(m) => Some(m),
        None => update.update_id,
    };
    let external_message_id = match message_id {
        Some(m) => Some(i64_text(m)),
        None => None,
    };
    let chat_allowed = match allowed_chat_id {
        Some(expected_chat) => str_equals(expected_chat, external_chat_id.as_str()),
        None => false,
    };
    let user_allowed = match (allowed_user_id, &external_user_id) {
        (Some(expected_user), Some(actual)) => str_equals(expected_user, actual.as_str()),
        _ => false,
    };
    if !chat_allowed || !user_allowed {
        let chars = chars_of(text.as_str());
        let preview = take_chars_vec(&chars, 160);
        return TelegramAdmission::Rejected {
            external_chat_id,
            external_user_id,
            external_message_id,
            text_preview: string_of(&preview),
        };
    }
    TelegramAdmission::Accepted { text, external_chat_id, external_user_id, external_message_id }
}

/// The response to an update that stops before agent work: an error for a
/// bad secret, `ignored`, or `rejected` with "Not authorized.".
pub fn telegram_early_response(admission: &TelegramAdmission) -> (r: Option<
    Result<WebhookResponse, String>,
>)
    ensures
        match admission {
            TelegramAdmission::Unauthorized => r matches Some(Err(e)) && e@
                == "Unauthorized webhook secret"@,
            TelegramAdmission::Ignored => r matches Some(Ok(resp)) && resp.status@ == "ignored"@
                && resp.reply is None,
            TelegramAdmission::Rejected { .. } => r matches Some(Ok(resp)) && resp.status@
                == "rejected"@ && (resp.reply matches Some(t) && t@ == "Not authorized."@),
            TelegramAdmission::Accepted { .. } => r is None,
        },
{
    match admission {
        TelegramAdmission::Unauthorized => Some(Err(owned("Unauthorized webhook secret"))),
        TelegramAdmission::Ignored => Some(Ok(WebhookResponse { status: owned("ignored"), reply: None })),
        TelegramAdmission::Rejected { .. } => Some(
            Ok(WebhookResponse { status: owned("rejected"), reply: Some(owned("Not authorized.")) }),
        ),
        TelegramAdmission::Accepted { .. } => None,
    }
}

/// A delivery event the kernel records for an external channel.
pub struct ChannelDeliveryRecord {
    pub direction: String,
    pub status: String,
    pub detail: String,
}

/// A Telegram update whose message was already received: it is ignored,
/// and recorded as a duplicate.
pub fn telegram_duplicate_outcome() -> (r: (WebhookResponse, ChannelDeliveryRecord))
    ensures
        r.0.status@ == "ignored"@,
        r.0.reply is None,
        r.1.direction@ == "inbound"@,
        r.1.status@ == "duplicate"@,
        r.1.detail@ == "Duplicate Telegram update ignored."@,
{
    (
        WebhookResponse { status: owned("ignored"), reply: None },
        ChannelDeliveryRecord {
            direction: owned("inbound"),
            status: owned("duplicate"),
            detail: owned("Duplicate Telegram update ignored."),
        },
    )
}

/// The record of a Telegram update taken in for processing.
pub fn telegram_received_record() -> (r: ChannelDeliveryRecord)
    ensures
        r.direction@ == "inbound"@,
        r.status@ == "received"@,
        r.detail@ == "Telegram update accepted for Sairgent processing."@,
{
    ChannelDeliveryRecord {
        direction: owned("inbound"),
        status: owned("received"),
        detail: owned("Telegram update accepted for Sairgent processing."),
    }
}

/// The answer to a Telegram update once the chat has run: the reply on
/// success, the error text otherwise, with the outbound delivery record.
pub fn telegram_chat_outcome(result: Result<String, String>) -> (r: (WebhookResponse, ChannelDeliveryRecord))
    ensures
        r.1.direction@ == "outbound"@,
        match result {
            Ok(reply) => r.0.status@ == "success"@ && r.0.reply == Some(reply) && r.1.status@
                == "delivered"@ && r.1.detail@ == "Telegram reply prepared successfully."@,
            Err(e) => r.0.status@ == "error"@ && r.0.reply == Some(e) && r.1.status@ == "failed"@
                && r.1.detail@ == e@,
        },
{
    match result {
        Ok(reply) => (
            WebhookResponse { status: owned("success"), reply: Some(reply) },
            ChannelDeliveryRecord {
                direction: owned("outbound"),
                status: owned("delivered"),
                detail: owned("Telegram reply prepared successfully."),
            },
        ),
        Err(e) => {
            let detail = e.clone();
            (
                WebhookResponse { status: owned("error"), reply: Some(e) },
                ChannelDeliveryRecord { direction: owned("outbound"), status: owned("failed"), detail },
            )
        },
    }
}

/// The channel a generic webhook message came in on: `system` when the
/// payload names none.
pub fn webhook_channel(channel: Option<String>) -> (r: String)
    ensures
        r@ == match channel {
            Some(c) => c@,
            None => "system"@,
        },
{
    match channel {
        Some(c) => c,
        None => owned("system"),
    }
}

/// The answer to a generic webhook message once the chat has run: the
/// reply on success, the error text otherwise.
pub fn webhook_reply(result: Result<String, String>) -> (r: WebhookResponse)
    ensures
        match result {
            Ok(reply) => r.status@ == "success"@ && r.reply == Some(reply),
            Err(e) => r.status@ == "error"@ && r.reply == Some(e),
        },
{
    match result {
        Ok(reply) => WebhookResponse { status: owned("success"), reply: Some(reply) },
        Err(e) => WebhookResponse { status: owned("error"), reply: Some(e) },
    }
}

} // verus!
