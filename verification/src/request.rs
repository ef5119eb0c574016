//! The typed schema of the chat endpoint: the outbound request (model
//! selection, messages, sampling controls) and the inbound response
//! (choices and token usage), together with their exact wire forms.
//!
//! Serialization is explicit: [`spec_request_json`] is the schema — it says,
//! character by character, what the request body is, and in particular that
//! every optional field left unset is omitted entirely (never emitted as
//! `null`). Deserialization is loose where the vendor may grow the schema:
//! unknown fields are stepped over, while a missing required field or a
//! duplicated known field makes the parse fail.

use vstd::prelude::*;

use crate::json::{
    chars_eq_lit, chars_to_string, parse_string, push_i64, push_json_string, push_lit, push_u64,
    skip_value, skip_ws, spec_decimal_chars, spec_digits, spec_int_chars, spec_json_string,
    spec_parse_string, spec_skip_value, spec_skip_ws, spec_ws_i32, spec_ws_i64, spec_ws_string,
    str_to_chars, ws_i32, ws_i64, ws_string,
};

verus! {

// ---------------------------------------------------------------------------
// the model catalog
// ---------------------------------------------------------------------------

/// The models the vendor's chat endpoint accepts. Each variant serializes
/// to the vendor's published identifier, and nothing else; this enumeration
/// is the single place that mapping lives.
#[derive(Clone, Copy, PartialEq, Eq, Structural)]
pub enum Model {
    /// The lowest-cost model; the default.
    Gpt35Turbo,
    /// A dated snapshot of the turbo model.
    Gpt35Turbo0301,
    Gpt4,
    Gpt4_0314,
    Gpt4_32k,
    Gpt4_32k0314,
}

/// The vendor identifier a model serializes to.
pub open spec fn spec_model_wire(m: Model) -> Seq<char> {
    match m {
        Model::Gpt35Turbo => "gpt-3.5-turbo"@,
        Model::Gpt35Turbo0301 => "gpt-3.5-turbo-0301"@,
        Model::Gpt4 => "gpt-4"@,
        Model::Gpt4_0314 => "gpt-4-0314"@,
        Model::Gpt4_32k => "gpt-4-32k"@,
        Model::Gpt4_32k0314 => "gpt-4-32k-0314"@,
    }
}

impl Model {
    /// The vendor identifier this model serializes to.
    pub fn wire_str(&self) -> (r: &'static str)
        ensures
            r@ == spec_model_wire(*self),
    {
        match self {
            Model::Gpt35Turbo => "gpt-3.5-turbo",
            Model::Gpt35Turbo0301 => "gpt-3.5-turbo-0301",
            Model::Gpt4 => "gpt-4",
            Model::Gpt4_0314 => "gpt-4-0314",
            Model::Gpt4_32k => "gpt-4-32k",
            Model::Gpt4_32k0314 => "gpt-4-32k-0314",
        }
    }
}

impl Default for Model {
    /// The default model is the lowest-cost one.
    fn default() -> (r: Model)
        ensures
            r == Model::Gpt35Turbo,
    {
        Model::Gpt35Turbo
    }
}

// ---------------------------------------------------------------------------
// messages and sampling values
// ---------------------------------------------------------------------------

/// One message of the conversation: a role (conventionally `"user"`,
/// `"assistant"` or `"system"`) and its text content. No local length or
/// content constraints are enforced.
pub struct Message {
    pub role: String,
    pub content: String,
}

/// The mathematical value of a [`Message`].
pub struct MessageView {
    pub role: Seq<char>,
    pub content: Seq<char>,
}

impl View for Message {
    type V = MessageView;

    open spec fn view(&self) -> MessageView {
        MessageView { role: self.role@, content: self.content@ }
    }
}

/// A sampling parameter with a resolution of one thousandth, held as an
/// integer count of thousandths (so `800` stands for `0.8`). The vendor's
/// sampling controls all fit comfortably in this resolution, and it keeps
/// the wire rendering exact.
#[derive(Clone, Copy, PartialEq, Eq, Structural)]
pub struct Decimal {
    pub milli: i32,
}

impl View for Decimal {
    type V = int;

    open spec fn view(&self) -> int {
        self.milli as int
    }
}

impl Decimal {
    /// The value holding the given count of thousandths.
    pub fn from_milli(milli: i32) -> (r: Decimal)
        ensures
            r@ == milli as int,
    {
        Decimal { milli }
    }
}

/// Append the decimal rendering of a count of thousandths.
fn push_decimal(out: &mut Vec<char>, milli: i32)
    ensures
        final(out)@ == old(out)@ + spec_decimal_chars(milli as int),
{
    let mag: u64 = if milli < 0 {
        out.push('-');
        (-(milli as i64)) as u64
    } else {
        milli as u64
    };
    let u = mag / 1000;
    let f = mag % 1000;
    push_u64(out, u);
    if f != 0 {
        out.push('.');
        push_u64(out, f / 100);
        if f % 100 != 0 {
            push_u64(out, (f / 10) % 10);
            if f % 10 != 0 {
                push_u64(out, f % 10);
            }
        }
    }
    proof {
        assert(spec_digits((f / 100) as nat) =~= seq![crate::json::digit_char(f as int / 100)]);
        assert(spec_digits(((f / 10) % 10) as nat) =~= seq![
            crate::json::digit_char((f as int / 10) % 10),
        ]);
        assert(spec_digits((f % 10) as nat) =~= seq![crate::json::digit_char(f as int % 10)]);
        assert(final(out)@ =~= old(out)@ + spec_decimal_chars(milli as int));
    }
}

// ---------------------------------------------------------------------------
// the request and its serialization
// ---------------------------------------------------------------------------

/// A chat-completion request: the model, the ordered conversation, and the
/// optional sampling controls. Every optional field left as `None` is
/// omitted from the serialized body.
pub struct Request {
    pub model: Model,
    /// Messages in conversation order; the order is meaningful.
    pub messages: Vec<Message>,
    /// Sampling temperature, in thousandths (vendor range 0 to 2).
    pub temperature: Option<Decimal>,
    /// Nucleus-sampling mass, in thousandths.
    pub top_p: Option<Decimal>,
    /// How many completion choices to generate.
    pub n: Option<i32>,
    /// Up to four sequences at which generation stops.
    pub stop: Option<Vec<String>>,
    /// Maximum number of tokens to generate per choice.
    pub max_tokens: Option<i32>,
    /// Presence penalty, in thousandths (vendor range -2 to 2).
    pub presence_penalty: Option<Decimal>,
    /// Frequency penalty, in thousandths (vendor range -2 to 2).
    pub frequency_penalty: Option<Decimal>,
    /// An end-user identifier for abuse monitoring.
    pub user: Option<String>,
}

/// The mathematical value of a [`Request`].
pub struct RequestView {
    pub model: Model,
    pub messages: Seq<MessageView>,
    pub temperature: Option<int>,
    pub top_p: Option<int>,
    pub n: Option<int>,
    pub stop: Option<Seq<Seq<char>>>,
    pub max_tokens: Option<int>,
    pub presence_penalty: Option<int>,
    pub frequency_penalty: Option<int>,
    pub user: Option<Seq<char>>,
}

/// The value of an optional thousandths field.
pub open spec fn opt_dec_view(v: Option<Decimal>) -> Option<int> {
    match v {
        None => None,
        Some(d) => Some(d@),
    }
}

/// The value of an optional integer field.
pub open spec fn opt_i32_view(v: Option<i32>) -> Option<int> {
    match v {
        None => None,
        Some(x) => Some(x as int),
    }
}

/// The value of an optional string field.
pub open spec fn opt_string_view(v: &Option<String>) -> Option<Seq<char>> {
    match v {
        None => None,
        Some(s) => Some(s@),
    }
}

/// The value of an optional string-list field.
pub open spec fn opt_string_list_view(v: &Option<Vec<String>>) -> Option<Seq<Seq<char>>> {
    match v {
        None => None,
        Some(l) => Some(l@.map_values(|s: String| s@)),
    }
}

impl View for Request {
    type V = RequestView;

    open spec fn view(&self) -> RequestView {
        RequestView {
            model: self.model,
            messages: self.messages@.map_values(|m: Message| m@),
            temperature: opt_dec_view(self.temperature),
            top_p: opt_dec_view(self.top_p),
            n: opt_i32_view(self.n),
            stop: opt_string_list_view(&self.stop),
            max_tokens: opt_i32_view(self.max_tokens),
            presence_penalty: opt_dec_view(self.presence_penalty),
            frequency_penalty: opt_dec_view(self.frequency_penalty),
            user: opt_string_view(&self.user),
        }
    }
}

impl Default for Request {
    /// The default request: the lowest-cost model, no messages, and every
    /// optional sampling control unset (hence omitted on the wire).
    fn default() -> (r: Request)
        ensures
            r@.model == Model::Gpt35Turbo,
            r@.messages =~= Seq::<MessageView>::empty(),
            r@.temperature is None,
            r@.top_p is None,
            r@.n is None,
            r@.stop is None,
            r@.max_tokens is None,
            r@.presence_penalty is None,
            r@.frequency_penalty is None,
            r@.user is None,
    {
        Request {
            model: Model::Gpt35Turbo,
            messages: Vec::new(),
            temperature: None,
            top_p: None,
            n: None,
            stop: None,
            max_tokens: None,
            presence_penalty: None,
            frequency_penalty: None,
            user: None,
        }
    }
}

/// The serialized form of one message.
pub open spec fn spec_message_json(m: MessageView) -> Seq<char> {
    "{\"role\":"@ + spec_json_string(m.role) + ",\"content\":"@ + spec_json_string(m.content)
        + "}"@
}

/// The serialized forms of a message list, joined with commas.
pub open spec fn spec_messages_json(ms: Seq<MessageView>) -> Seq<char>
    decreases ms.len(),
{
    if ms.len() == 0 {
        Seq::empty()
    } else if ms.len() == 1 {
        spec_message_json(ms[0])
    } else {
        spec_messages_json(ms.drop_last()) + seq![','] + spec_message_json(ms.last())
    }
}

/// The serialized forms of a string list, joined with commas.
pub open spec fn spec_strings_json(ss: Seq<Seq<char>>) -> Seq<char>
    decreases ss.len(),
{
    if ss.len() == 0 {
        Seq::empty()
    } else if ss.len() == 1 {
        spec_json_string(ss[0])
    } else {
        spec_strings_json(ss.drop_last()) + seq![','] + spec_json_string(ss.last())
    }
}

/// An optional field holding a thousandths value: nothing when unset,
/// otherwise the given key fragment followed by the decimal rendering.
pub open spec fn spec_opt_dec(key: Seq<char>, v: Option<int>) -> Seq<char> {
    match v {
        None => Seq::empty(),
        Some(x) => key + spec_decimal_chars(x),
    }
}

/// An optional integer field: nothing when unset.
pub open spec fn spec_opt_int(key: Seq<char>, v: Option<int>) -> Seq<char> {
    match v {
        None => Seq::empty(),
        Some(x) => key + spec_int_chars(x),
    }
}

/// An optional string field: nothing when unset.
pub open spec fn spec_opt_string(key: Seq<char>, v: Option<Seq<char>>) -> Seq<char> {
    match v {
        None => Seq::empty(),
        Some(x) => key + spec_json_string(x),
    }
}

/// An optional string-list field: nothing when unset.
pub open spec fn spec_opt_string_list(key: Seq<char>, v: Option<Seq<Seq<char>>>) -> Seq<char> {
    match v {
        None => Seq::empty(),
        Some(x) => key + seq!['['] + spec_strings_json(x) + seq![']'],
    }
}

/// The part of the body every request has: the model and the messages.
pub open spec fn spec_request_head(r: RequestView) -> Seq<char> {
    "{\"model\":"@ + spec_json_string(spec_model_wire(r.model)) + ",\"messages\":["@
        + spec_messages_json(r.messages) + "]"@
}

/// The complete serialized request body. This is the schema contract:
/// field names and value renderings are exact, optional fields appear
/// exactly when set, and nothing else is emitted.
pub open spec fn spec_request_json(r: RequestView) -> Seq<char> {
    spec_request_head(r) + spec_opt_dec(",\"temperature\":"@, r.temperature) + spec_opt_dec(
        ",\"top_p\":"@,
        r.top_p,
    ) + spec_opt_int(",\"n\":"@, r.n) + spec_opt_string_list(",\"stop\":"@, r.stop) + spec_opt_int(
        ",\"max_tokens\":"@,
        r.max_tokens,
    ) + spec_opt_dec(",\"presence_penalty\":"@, r.presence_penalty) + spec_opt_dec(
        ",\"frequency_penalty\":"@,
        r.frequency_penalty,
    ) + spec_opt_string(",\"user\":"@, r.user) + "}"@
}

/// Append the serialized form of one message.
fn push_message(out: &mut Vec<char>, m: &Message)
    ensures
        final(out)@ == old(out)@ + spec_message_json(m@),
{
    push_lit(out, "{\"role\":");
    push_json_string(out, m.role.as_str());
    push_lit(out, ",\"content\":");
    push_json_string(out, m.content.as_str());
    push_lit(out, "}");
    assert(final(out)@ =~= old(out)@ + spec_message_json(m@));
}

/// Append an optional thousandths field: nothing when unset.
fn push_opt_dec(out: &mut Vec<char>, key: &str, v: &Option<Decimal>)
    ensures
        final(out)@ == old(out)@ + spec_opt_dec(key@, opt_dec_view(*v)),
{
    match v {
        None => {},
        Some(d) => {
            push_lit(out, key);
            push_decimal(out, d.milli);
        },
    }
    assert(final(out)@ =~= old(out)@ + spec_opt_dec(key@, opt_dec_view(*v)));
}

/// Append an optional integer field: nothing when unset.
fn push_opt_i32(out: &mut Vec<char>, key: &str, v: &Option<i32>)
    ensures
        final(out)@ == old(out)@ + spec_opt_int(key@, opt_i32_view(*v)),
{
    match v {
        None => {},
        Some(x) => {
            push_lit(out, key);
            push_i64(out, *x as i64);
        },
    }
    assert(final(out)@ =~= old(out)@ + spec_opt_int(key@, opt_i32_view(*v)));
}

/// Append an optional string field: nothing when unset.
fn push_opt_string(out: &mut Vec<char>, key: &str, v: &Option<String>)
    ensures
        final(out)@ == old(out)@ + spec_opt_string(key@, opt_string_view(v)),
{
    match v {
        None => {},
        Some(s) => {
            push_lit(out, key);
            push_json_string(out, s.as_str());
        },
    }
    assert(final(out)@ =~= old(out)@ + spec_opt_string(key@, opt_string_view(v)));
}

/// Append an optional string-list field: nothing when unset.
#[verifier::loop_isolation(false)]
fn push_opt_string_list(out: &mut Vec<char>, key: &str, v: &Option<Vec<String>>)
    ensures
        final(out)@ == old(out)@ + spec_opt_string_list(key@, opt_string_list_view(v)),
{
    match v {
        None => {},
        Some(list) => {
            push_lit(out, key);
            out.push('[');
            let ghost ss = list@.map_values(|s: String| s@);
            let ghost g_list_start = out@;
            let mut q: usize = 0;
            while q < list.len()
                invariant
                    q <= list.len(),
                    out@ == g_list_start + spec_strings_json(ss.take(q as int)),
                decreases list.len() - q,
            {
                if q > 0 {
                    out.push(',');
                }
                push_json_string(out, list[q].as_str());
                proof {
                    assert(ss[q as int] == list@[q as int]@);
                    let t = ss.take(q + 1 as int);
                    assert(t.drop_last() =~= ss.take(q as int));
                    assert(t.last() == ss[q as int]);
                    if q == 0 {
                        assert(out@ =~= g_list_start + spec_strings_json(t));
                    } else {
                        assert(spec_strings_json(t) == spec_strings_json(ss.take(q as int))
                            + seq![','] + spec_json_string(ss[q as int]));
                        assert(out@ =~= g_list_start + spec_strings_json(t));
                    }
                }
                q = q + 1;
            }
            proof {
                assert(ss.take(list@.len() as int) =~= ss);
            }
            out.push(']');
        },
    }
    assert(final(out)@ =~= old(out)@ + spec_opt_string_list(key@, opt_string_list_view(v)));
}

impl Request {
    /// Serialize this request to its exact JSON body: see
    /// [`spec_request_json`]. Optional fields left unset are omitted
    /// entirely; set fields appear with their exact key and rendering.
    #[verifier::loop_isolation(false)]
    #[verifier::rlimit(60)]
    pub fn to_json(&self) -> (r: String)
        ensures
            r@ == spec_request_json(self@),
    {
        let ghost ms = self@.messages;
        let mut out: Vec<char> = Vec::new();
        push_lit(&mut out, "{\"model\":");
        push_json_string(&mut out, self.model.wire_str());
        push_lit(&mut out, ",\"messages\":[");
        let ghost g_msgs_start = out@;
        let mut k: usize = 0;
        while k < self.messages.len()
            invariant
                k <= self.messages.len(),
                out@ == g_msgs_start + spec_messages_json(ms.take(k as int)),
            decreases self.messages.len() - k,
        {
            if k > 0 {
                out.push(',');
            }
            push_message(&mut out, &self.messages[k]);
            proof {
                assert(ms[k as int] == self.messages@[k as int]@);
                let t = ms.take(k + 1 as int);
                assert(t.drop_last() =~= ms.take(k as int));
                assert(t.last() == ms[k as int]);
                if k == 0 {
                    assert(spec_messages_json(t) == spec_message_json(ms[0]));
                    assert(out@ =~= g_msgs_start + spec_messages_json(t));
                } else {
                    assert(spec_messages_json(t) == spec_messages_json(ms.take(k as int))
                        + seq![','] + spec_message_json(ms[k as int]));
                    assert(out@ =~= g_msgs_start + spec_messages_json(t));
                }
            }
            k = k + 1;
        }
        proof {
            assert(ms.take(self.messages@.len() as int) =~= ms);
        }
        push_lit(&mut out, "]");
        assert(out@ =~= spec_request_head(self@));

        push_opt_dec(&mut out, ",\"temperature\":", &self.temperature);
        push_opt_dec(&mut out, ",\"top_p\":", &self.top_p);
        push_opt_i32(&mut out, ",\"n\":", &self.n);
        push_opt_string_list(&mut out, ",\"stop\":", &self.stop);
        push_opt_i32(&mut out, ",\"max_tokens\":", &self.max_tokens);
        push_opt_dec(&mut out, ",\"presence_penalty\":", &self.presence_penalty);
        push_opt_dec(&mut out, ",\"frequency_penalty\":", &self.frequency_penalty);
        push_opt_string(&mut out, ",\"user\":", &self.user);
        push_lit(&mut out, "}");
        assert(out@ =~= spec_request_json(self@));
        chars_to_string(out)
    }
}

// ---------------------------------------------------------------------------
// the response and its deserialization
// ---------------------------------------------------------------------------

/// One generated completion: its index among the `n` requested choices,
/// the generated message, and the vendor's finish reason.
pub struct Choice {
    pub index: i32,
    pub message: Message,
    pub finish_reason: String,
}

/// The mathematical value of a [`Choice`].
pub struct ChoiceView {
    pub index: int,
    pub message: MessageView,
    pub finish_reason: Seq<char>,
}

impl View for Choice {
    type V = ChoiceView;

    open spec fn view(&self) -> ChoiceView {
        ChoiceView { index: self.index as int, message: self.message@, finish_reason: self.finish_reason@ }
    }
}

/// Token accounting the vendor returns alongside a completion. The vendor
/// is expected to uphold `total == prompt + completion`; that is not
/// re-validated locally.
pub struct Usage {
    pub prompt_tokens: i32,
    pub completion_tokens: i32,
    pub total_tokens: i32,
}

/// The mathematical value of a [`Usage`].
pub struct UsageView {
    pub prompt_tokens: int,
    pub completion_tokens: int,
    pub total_tokens: int,
}

impl View for Usage {
    type V = UsageView;

    open spec fn view(&self) -> UsageView {
        UsageView {
            prompt_tokens: self.prompt_tokens as int,
            completion_tokens: self.completion_tokens as int,
            total_tokens: self.total_tokens as int,
        }
    }
}

/// A successful chat completion: the request id, the object type tag, the
/// creation time in epoch seconds, the choices in the order received, and
/// the token usage.
pub struct Response {
    pub id: String,
    pub object: String,
    pub created: i64,
    pub choices: Vec<Choice>,
    pub usage: Usage,
}

/// The mathematical value of a [`Response`].
pub struct ResponseView {
    pub id: Seq<char>,
    pub object: Seq<char>,
    pub created: int,
    pub choices: Seq<ChoiceView>,
    pub usage: UsageView,
}

/// The values of a choice list.
pub open spec fn choices_view(cs: Seq<Choice>) -> Seq<ChoiceView> {
    cs.map_values(|c: Choice| c@)
}

impl View for Response {
    type V = ResponseView;

    open spec fn view(&self) -> ResponseView {
        ResponseView {
            id: self.id@,
            object: self.object@,
            created: self.created as int,
            choices: choices_view(self.choices@),
            usage: self.usage@,
        }
    }
}

/// A complete message once its closing brace was reached: both required
/// fields must have been seen.
pub open spec fn spec_message_finish(
    role: Option<Seq<char>>,
    content: Option<Seq<char>>,
    p: int,
) -> Option<(MessageView, int)> {
    match (role, content) {
        (Some(r), Some(c)) => Some((MessageView { role: r, content: c }, p)),
        _ => None,
    }
}

/// The members of a message object, starting just after the opening brace
/// (or after a comma, with `first` false). A known key already seen makes
/// the parse fail; an unknown key's value is stepped over; a missing
/// required field surfaces as failure at the closing brace.
pub open spec fn spec_message_members(
    s: Seq<char>,
    i: int,
    first: bool,
    role: Option<Seq<char>>,
    content: Option<Seq<char>>,
) -> Option<(MessageView, int)>
    decreases s.len() - i,
{
    let j = spec_skip_ws(s, i);
    if j < i || j >= s.len() {
        None
    } else if first && s[j] == '}' {
        spec_message_finish(role, content, j + 1)
    } else {
        match spec_parse_string(s, j) {
            None => None,
            Some((key, k)) => if k <= j || k > s.len() {
                None
            } else {
                let m = spec_skip_ws(s, k);
                if m < k || m >= s.len() || s[m] != ':' {
                    None
                } else {
                    let step: Option<(Option<Seq<char>>, Option<Seq<char>>, int)> = if key
                        == "role"@ {
                        if role is Some {
                            None
                        } else {
                            match spec_ws_string(s, m + 1) {
                                None => None,
                                Some((val, p)) => Some((Some(val), content, p)),
                            }
                        }
                    } else if key == "content"@ {
                        if content is Some {
                            None
                        } else {
                            match spec_ws_string(s, m + 1) {
                                None => None,
                                Some((val, p)) => Some((role, Some(val), p)),
                            }
                        }
                    } else {
                        match spec_skip_value(s, m + 1) {
                            None => None,
                            Some(p) => Some((role, content, p)),
                        }
                    };
                    match step {
                        None => None,
                        Some((role2, content2, p)) => if p <= m || p > s.len() {
                            None
                        } else {
                            let q = spec_skip_ws(s, p);
                            if q < p || q >= s.len() {
                                None
                            } else if s[q] == '}' {
                                spec_message_finish(role2, content2, q + 1)
                            } else if s[q] == ',' {
                                spec_message_members(s, q + 1, false, role2, content2)
                            } else {
                                None
                            }
                        },
                    }
                }
            },
        }
    }
}

/// A message object preceded by optional whitespace.
pub open spec fn spec_ws_message(s: Seq<char>, i: int) -> Option<(MessageView, int)> {
    let j = spec_skip_ws(s, i);
    if j < i || j >= s.len() || s[j] != '{' {
        None
    } else {
        spec_message_members(s, j + 1, true, None, None)
    }
}

fn message_members(
    v: &Vec<char>,
    i: usize,
    first: bool,
    role: Option<String>,
    content: Option<String>,
) -> (r: Option<(Message, usize)>)
    requires
        i <= v@.len(),
    ensures
        match r {
            None => spec_message_members(
                v@,
                i as int,
                first,
                opt_string_view(&role),
                opt_string_view(&content),
            ) is None,
            Some(p) => spec_message_members(
                v@,
                i as int,
                first,
                opt_string_view(&role),
                opt_string_view(&content),
            ) == Some((p.0@, p.1 as int)) && i < p.1 <= v@.len(),
        },
    decreases v@.len() - i,
{
    let j = skip_ws(v, i);
    if j >= v.len() {
        return None;
    }
    if first && v[j] == '}' {
        return match (role, content) {
            (Some(ro), Some(co)) => Some((Message { role: ro, content: co }, j + 1)),
            _ => None,
        };
    }
    let (key, k) = match parse_string(v, j) {
        None => {
            return None;
        },
        Some(p) => p,
    };
    let m = skip_ws(v, k);
    if m >= v.len() || v[m] != ':' {
        return None;
    }
    let mut role = role;
    let mut content = content;
    let p: usize;
    if chars_eq_lit(&key, "role") {
        if role.is_some() {
            return None;
        }
        match ws_string(v, m + 1) {
            None => {
                return None;
            },
            Some((val, pp)) => {
                role = Some(chars_to_string(val));
                p = pp;
            },
        }
    } else if chars_eq_lit(&key, "content") {
        if content.is_some() {
            return None;
        }
        match ws_string(v, m + 1) {
            None => {
                return None;
            },
            Some((val, pp)) => {
                content = Some(chars_to_string(val));
                p = pp;
            },
        }
    } else {
        match skip_value(v, m + 1) {
            None => {
                return None;
            },
            Some(pp) => {
                p = pp;
            },
        }
    }
    let q = skip_ws(v, p);
    if q >= v.len() {
        return None;
    }
    if v[q] == '}' {
        match (role, content) {
            (Some(ro), Some(co)) => Some((Message { role: ro, content: co }, q + 1)),
            _ => None,
        }
    } else if v[q] == ',' {
        message_members(v, q + 1, false, role, content)
    } else {
        None
    }
}

/// Parse a message object preceded by optional whitespace; see
/// [`spec_ws_message`].
fn ws_message(v: &Vec<char>, i: usize) -> (r: Option<(Message, usize)>)
    requires
        i <= v@.len(),
    ensures
        match r {
            None => spec_ws_message(v@, i as int) is None,
            Some(p) => spec_ws_message(v@, i as int) == Some((p.0@, p.1 as int)) && i < p.1
                <= v@.len(),
        },
{
    let j = skip_ws(v, i);
    if j >= v.len() || v[j] != '{' {
        return None;
    }
    message_members(v, j + 1, true, None, None)
}

/// A complete usage object once its closing brace was reached: all three
/// token counts must have been seen.
pub open spec fn spec_usage_finish(
    prompt: Option<i32>,
    completion: Option<i32>,
    total: Option<i32>,
    p: int,
) -> Option<(UsageView, int)> {
    match (prompt, completion, total) {
        (Some(pt), Some(ct), Some(tt)) => Some(
            (
                UsageView {
                    prompt_tokens: pt as int,
                    completion_tokens: ct as int,
                    total_tokens: tt as int,
                },
                p,
            ),
        ),
        _ => None,
    }
}

/// The members of a usage object; same conventions as
/// [`spec_message_members`].
pub open spec fn spec_usage_members(
    s: Seq<char>,
    i: int,
    first: bool,
    prompt: Option<i32>,
    completion: Option<i32>,
    total: Option<i32>,
) -> Option<(UsageView, int)>
    decreases s.len() - i,
{
    let j = spec_skip_ws(s, i);
    if j < i || j >= s.len() {
        None
    } else if first && s[j] == '}' {
        spec_usage_finish(prompt, completion, total, j + 1)
    } else {
        match spec_parse_string(s, j) {
            None => None,
            Some((key, k)) => if k <= j || k > s.len() {
                None
            } else {
                let m = spec_skip_ws(s, k);
                if m < k || m >= s.len() || s[m] != ':' {
                    None
                } else {
                    let step: Option<(Option<i32>, Option<i32>, Option<i32>, int)> = if key
                        == "prompt_tokens"@ {
                        if prompt is Some {
                            None
                        } else {
                            match spec_ws_i32(s, m + 1) {
                                None => None,
                                Some((x, p)) => Some((Some(x), completion, total, p)),
                            }
                        }
                    } else if key == "completion_tokens"@ {
                        if completion is Some {
                            None
                        } else {
                            match spec_ws_i32(s, m + 1) {
                                None => None,
                                Some((x, p)) => Some((prompt, Some(x), total, p)),
                            }
                        }
                    } else if key == "total_tokens"@ {
                        if total is Some {
                            None
                        } else {
                            match spec_ws_i32(s, m + 1) {
                                None => None,
                                Some((x, p)) => Some((prompt, completion, Some(x), p)),
                            }
                        }
                    } else {
                        match spec_skip_value(s, m + 1) {
                            None => None,
                            Some(p) => Some((prompt, completion, total, p)),
                        }
                    };
                    match step {
                        None => None,
                        Some((prompt2, completion2, total2, p)) => if p <= m || p > s.len() {
                            None
                        } else {
                            let q = spec_skip_ws(s, p);
                            if q < p || q >= s.len() {
                                None
                            } else if s[q] == '}' {
                                spec_usage_finish(prompt2, completion2, total2, q + 1)
                            } else if s[q] == ',' {
                                spec_usage_members(s, q + 1, false, prompt2, completion2, total2)
                            } else {
                                None
                            }
                        },
                    }
                }
            },
        }
    }
}

/// A usage object preceded by optional whitespace.
pub open spec fn spec_ws_usage(s: Seq<char>, i: int) -> Option<(UsageView, int)> {
    let j = spec_skip_ws(s, i);
    if j < i || j >= s.len() || s[j] != '{' {
        None
    } else {
        spec_usage_members(s, j + 1, true, None, None, None)
    }
}

fn usage_members(
    v: &Vec<char>,
    i: usize,
    first: bool,
    prompt: Option<i32>,
    completion: Option<i32>,
    total: Option<i32>,
) -> (r: Option<(Usage, usize)>)
    requires
        i <= v@.len(),
    ensures
        match r {
            None => spec_usage_members(v@, i as int, first, prompt, completion, total) is None,
            Some(p) => spec_usage_members(v@, i as int, first, prompt, completion, total) == Some(
                (p.0@, p.1 as int),
            ) && i < p.1 <= v@.len(),
        },
    decreases v@.len() - i,
{
    let j = skip_ws(v, i);
    if j >= v.len() {
        return None;
    }
    if first && v[j] == '}' {
        return match (prompt, completion, total) {
            (Some(pt), Some(ct), Some(tt)) => Some(
                (Usage { prompt_tokens: pt, completion_tokens: ct, total_tokens: tt }, j + 1),
            ),
            _ => None,
        };
    }
    let (key, k) = match parse_string(v, j) {
        None => {
            return None;
        },
        Some(p) => p,
    };
    let m = skip_ws(v, k);
    if m >= v.len() || v[m] != ':' {
        return None;
    }
    let mut prompt = prompt;
    let mut completion = completion;
    let mut total = total;
    let p: usize;
    if chars_eq_lit(&key, "prompt_tokens") {
        if prompt.is_some() {
            return None;
        }
        match ws_i32(v, m + 1) {
            None => {
                return None;
            },
            Some((x, pp)) => {
                prompt = Some(x);
                p = pp;
            },
        }
    } else if chars_eq_lit(&key, "completion_tokens") {
        if completion.is_some() {
            return None;
        }
        match ws_i32(v, m + 1) {
            None => {
                return None;
            },
            Some((x, pp)) => {
                completion = Some(x);
                p = pp;
            },
        }
    } else if chars_eq_lit(&key, "total_tokens") {
        if total.is_some() {
            return None;
        }
        match ws_i32(v, m + 1) {
            None => {
                return None;
            },
            Some((x, pp)) => {
                total = Some(x);
                p = pp;
            },
        }
    } else {
        match skip_value(v, m + 1) {
            None => {
                return None;
            },
            Some(pp) => {
                p = pp;
            },
        }
    }
    let q = skip_ws(v, p);
    if q >= v.len() {
        return None;
    }
    if v[q] == '}' {
        match (prompt, completion, total) {
            (Some(pt), Some(ct), Some(tt)) => Some(
                (Usage { prompt_tokens: pt, completion_tokens: ct, total_tokens: tt }, q + 1),
            ),
            _ => None,
        }
    } else if v[q] == ',' {
        usage_members(v, q + 1, false, prompt, completion, total)
    } else {
        None
    }
}

/// Parse a usage object preceded by optional whitespace; see
/// [`spec_ws_usage`].
fn ws_usage(v: &Vec<char>, i: usize) -> (r: Option<(Usage, usize)>)
    requires
        i <= v@.len(),
    ensures
        match r {
            None => spec_ws_usage(v@, i as int) is None,
            Some(p) => spec_ws_usage(v@, i as int) == Some((p.0@, p.1 as int)) && i < p.1
                <= v@.len(),
        },
{
    let j = skip_ws(v, i);
    if j >= v.len() || v[j] != '{' {
        return None;
    }
    usage_members(v, j + 1, true, None, None, None)
}

/// The value of an optional message field being scanned.
pub open spec fn opt_message_view(m: &Option<Message>) -> Option<MessageView> {
    match m {
        None => None,
        Some(x) => Some(x@),
    }
}

/// A complete choice object once its closing brace was reached.
pub open spec fn spec_choice_finish(
    index: Option<i32>,
    message: Option<MessageView>,
    finish_reason: Option<Seq<char>>,
    p: int,
) -> Option<(ChoiceView, int)> {
    match (index, message, finish_reason) {
        (Some(ix), Some(msg), Some(fr)) => Some(
            (ChoiceView { index: ix as int, message: msg, finish_reason: fr }, p),
        ),
        _ => None,
    }
}

/// The members of a choice object; same conventions as
/// [`spec_message_members`].
pub open spec fn spec_choice_members(
    s: Seq<char>,
    i: int,
    first: bool,
    index: Option<i32>,
    message: Option<MessageView>,
    finish_reason: Option<Seq<char>>,
) -> Option<(ChoiceView, int)>
    decreases s.len() - i,
{
    let j = spec_skip_ws(s, i);
    if j < i || j >= s.len() {
        None
    } else if first && s[j] == '}' {
        spec_choice_finish(index, message, finish_reason, j + 1)
    } else {
        match spec_parse_string(s, j) {
            None => None,
            Some((key, k)) => if k <= j || k > s.len() {
                None
            } else {
                let m = spec_skip_ws(s, k);
                if m < k || m >= s.len() || s[m] != ':' {
                    None
                } else {
                    let step: Option<(Option<i32>, Option<MessageView>, Option<Seq<char>>, int)> =
                        if key == "index"@ {
                        if index is Some {
                            None
                        } else {
                            match spec_ws_i32(s, m + 1) {
                                None => None,
                                Some((x, p)) => Some((Some(x), message, finish_reason, p)),
                            }
                        }
                    } else if key == "message"@ {
                        if message is Some {
                            None
                        } else {
                            match spec_ws_message(s, m + 1) {
                                None => None,
                                Some((msg, p)) => Some((index, Some(msg), finish_reason, p)),
                            }
                        }
                    } else if key == "finish_reason"@ {
                        if finish_reason is Some {
                            None
                        } else {
                            match spec_ws_string(s, m + 1) {
                                None => None,
                                Some((val, p)) => Some((index, message, Some(val), p)),
                            }
                        }
                    } else {
                        match spec_skip_value(s, m + 1) {
                            None => None,
                            Some(p) => Some((index, message, finish_reason, p)),
                        }
                    };
                    match step {
                        None => None,
                        Some((index2, message2, finish2, p)) => if p <= m || p > s.len() {
                            None
                        } else {
                            let q = spec_skip_ws(s, p);
                            if q < p || q >= s.len() {
                                None
                            } else if s[q] == '}' {
                                spec_choice_finish(index2, message2, finish2, q + 1)
                            } else if s[q] == ',' {
                                spec_choice_members(s, q + 1, false, index2, message2, finish2)
                            } else {
                                None
                            }
                        },
                    }
                }
            },
        }
    }
}

/// A choice object preceded by optional whitespace.
pub open spec fn spec_ws_choice(s: Seq<char>, i: int) -> Option<(ChoiceView, int)> {
    let j = spec_skip_ws(s, i);
    if j < i || j >= s.len() || s[j] != '{' {
        None
    } else {
        spec_choice_members(s, j + 1, true, None, None, None)
    }
}

fn choice_members(
    v: &Vec<char>,
    i: usize,
    first: bool,
    index: Option<i32>,
    message: Option<Message>,
    finish_reason: Option<String>,
) -> (r: Option<(Choice, usize)>)
    requires
        i <= v@.len(),
    ensures
        match r {
            None => spec_choice_members(
                v@,
                i as int,
                first,
                index,
                opt_message_view(&message),
                opt_string_view(&finish_reason),
            ) is None,
            Some(p) => spec_choice_members(
                v@,
                i as int,
                first,
                index,
                opt_message_view(&message),
                opt_string_view(&finish_reason),
            ) == Some((p.0@, p.1 as int)) && i < p.1 <= v@.len(),
        },
    decreases v@.len() - i,
{
    let j = skip_ws(v, i);
    if j >= v.len() {
        return None;
    }
    if first && v[j] == '}' {
        return match (index, message, finish_reason) {
            (Some(ix), Some(msg), Some(fr)) => Some(
                (Choice { index: ix, message: msg, finish_reason: fr }, j + 1),
            ),
            _ => None,
        };
    }
    let (key, k) = match parse_string(v, j) {
        None => {
            return None;
        },
        Some(p) => p,
    };
    let m = skip_ws(v, k);
    if m >= v.len() || v[m] != ':' {
        return None;
    }
    let mut index = index;
    let mut message = message;
    let mut finish_reason = finish_reason;
    let p: usize;
    if chars_eq_lit(&key, "index") {
        if index.is_some() {
            return None;
        }
        match ws_i32(v, m + 1) {
            None => {
                return None;
            },
            Some((x, pp)) => {
                index = Some(x);
                p = pp;
            },
        }
    } else if chars_eq_lit(&key, "message") {
        if message.is_some() {
            return None;
        }
        match ws_message(v, m + 1) {
            None => {
                return None;
            },
            Some((msg, pp)) => {
                message = Some(msg);
                p = pp;
            },
        }
    } else if chars_eq_lit(&key, "finish_reason") {
        if finish_reason.is_some() {
            return None;
        }
        match ws_string(v, m + 1) {
            None => {
                return None;
            },
            Some((val, pp)) => {
                finish_reason = Some(chars_to_string(val));
                p = pp;
            },
        }
    } else {
        match skip_value(v, m + 1) {
            None => {
                return None;
            },
            Some(pp) => {
                p = pp;
            },
        }
    }
    let q = skip_ws(v, p);
    if q >= v.len() {
        return None;
    }
    if v[q] == '}' {
        match (index, message, finish_reason) {
            (Some(ix), Some(msg), Some(fr)) => Some(
                (Choice { index: ix, message: msg, finish_reason: fr }, q + 1),
            ),
            _ => None,
        }
    } else if v[q] == ',' {
        choice_members(v, q + 1, false, index, message, finish_reason)
    } else {
        None
    }
}

/// Parse a choice object preceded by optional whitespace; see
/// [`spec_ws_choice`].
fn ws_choice(v: &Vec<char>, i: usize) -> (r: Option<(Choice, usize)>)
    requires
        i <= v@.len(),
    ensures
        match r {
            None => spec_ws_choice(v@, i as int) is None,
            Some(p) => spec_ws_choice(v@, i as int) == Some((p.0@, p.1 as int)) && i < p.1
                <= v@.len(),
        },
{
    let j = skip_ws(v, i);
    if j >= v.len() || v[j] != '{' {
        return None;
    }
    choice_members(v, j + 1, true, None, None, None)
}

/// The elements of a choice array after the first element's start: one
/// choice, then either the closing bracket or a comma and further elements.
pub open spec fn spec_choices_items(s: Seq<char>, i: int, acc: Seq<ChoiceView>) -> Option<
    (Seq<ChoiceView>, int),
>
    decreases s.len() - i,
{
    match spec_ws_choice(s, i) {
        None => None,
        Some((c, p)) => if p <= i || p > s.len() {
            None
        } else {
            let q = spec_skip_ws(s, p);
            if q < p || q >= s.len() {
                None
            } else if s[q] == ']' {
                Some((acc.push(c), q + 1))
            } else if s[q] == ',' {
                spec_choices_items(s, q + 1, acc.push(c))
            } else {
                None
            }
        },
    }
}

/// A whole choices array preceded by optional whitespace: brackets around
/// comma-separated choice objects, in the order received.
pub open spec fn spec_choices_array(s: Seq<char>, i: int) -> Option<(Seq<ChoiceView>, int)> {
    let j = spec_skip_ws(s, i);
    if j < i || j >= s.len() || s[j] != '[' {
        None
    } else {
        let q = spec_skip_ws(s, j + 1);
        if q < j + 1 {
            None
        } else if q < s.len() && s[q] == ']' {
            Some((Seq::empty(), q + 1))
        } else {
            spec_choices_items(s, j + 1, Seq::empty())
        }
    }
}

fn choices_items(v: &Vec<char>, i: usize, acc: Vec<Choice>) -> (r: Option<(Vec<Choice>, usize)>)
    requires
        i <= v@.len(),
    ensures
        match r {
            None => spec_choices_items(v@, i as int, choices_view(acc@)) is None,
            Some(p) => spec_choices_items(v@, i as int, choices_view(acc@)) == Some(
                (choices_view(p.0@), p.1 as int),
            ) && i < p.1 <= v@.len(),
        },
    decreases v@.len() - i,
{
    match ws_choice(v, i) {
        None => None,
        Some((c, p)) => {
            let ghost accv = choices_view(acc@);
            let ghost cv = c@;
            let mut acc = acc;
            acc.push(c);
            assert(choices_view(acc@) =~= accv.push(cv));
            let q = skip_ws(v, p);
            if q >= v.len() {
                None
            } else if v[q] == ']' {
                Some((acc, q + 1))
            } else if v[q] == ',' {
                choices_items(v, q + 1, acc)
            } else {
                None
            }
        },
    }
}

/// Parse a whole choices array; see [`spec_choices_array`].
fn choices_array(v: &Vec<char>, i: usize) -> (r: Option<(Vec<Choice>, usize)>)
    requires
        i <= v@.len(),
    ensures
        match r {
            None => spec_choices_array(v@, i as int) is None,
            Some(p) => spec_choices_array(v@, i as int) == Some((choices_view(p.0@), p.1 as int))
                && i < p.1 <= v@.len(),
        },
{
    let j = skip_ws(v, i);
    if j >= v.len() || v[j] != '[' {
        return None;
    }
    let q = skip_ws(v, j + 1);
    if q < v.len() && v[q] == ']' {
        let empty: Vec<Choice> = Vec::new();
        assert(choices_view(empty@) =~= Seq::<ChoiceView>::empty());
        return Some((empty, q + 1));
    }
    let empty: Vec<Choice> = Vec::new();
    assert(choices_view(empty@) =~= Seq::<ChoiceView>::empty());
    choices_items(v, j + 1, empty)
}

/// The value of an optional choice-list field being scanned.
pub open spec fn opt_choices_view(c: &Option<Vec<Choice>>) -> Option<Seq<ChoiceView>> {
    match c {
        None => None,
        Some(x) => Some(choices_view(x@)),
    }
}

/// The value of an optional usage field being scanned.
pub open spec fn opt_usage_view(u: &Option<Usage>) -> Option<UsageView> {
    match u {
        None => None,
        Some(x) => Some(x@),
    }
}

/// A complete response object once its closing brace was reached: every
/// field of the response is required.
pub open spec fn spec_response_finish(
    id: Option<Seq<char>>,
    object: Option<Seq<char>>,
    created: Option<i64>,
    choices: Option<Seq<ChoiceView>>,
    usage: Option<UsageView>,
    p: int,
) -> Option<(ResponseView, int)> {
    match (id, object, created, choices, usage) {
        (Some(idv), Some(ob), Some(cr), Some(ch), Some(us)) => Some(
            (ResponseView { id: idv, object: ob, created: cr as int, choices: ch, usage: us }, p),
        ),
        _ => None,
    }
}

/// The members of a response object; same conventions as
/// [`spec_message_members`].
pub open spec fn spec_response_members(
    s: Seq<char>,
    i: int,
    first: bool,
    id: Option<Seq<char>>,
    object: Option<Seq<char>>,
    created: Option<i64>,
    choices: Option<Seq<ChoiceView>>,
    usage: Option<UsageView>,
) -> Option<(ResponseView, int)>
    decreases s.len() - i,
{
    let j = spec_skip_ws(s, i);
    if j < i || j >= s.len() {
        None
    } else if first && s[j] == '}' {
        spec_response_finish(id, object, created, choices, usage, j + 1)
    } else {
        match spec_parse_string(s, j) {
            None => None,
            Some((key, k)) => if k <= j || k > s.len() {
                None
            } else {
                let m = spec_skip_ws(s, k);
                if m < k || m >= s.len() || s[m] != ':' {
                    None
                } else {
                    let step: Option<
                        (
                            Option<Seq<char>>,
                            Option<Seq<char>>,
                            Option<i64>,
                            Option<Seq<ChoiceView>>,
                            Option<UsageView>,
                            int,
                        ),
                    > = if key == "id"@ {
                        if id is Some {
                            None
                        } else {
                            match spec_ws_string(s, m + 1) {
                                None => None,
                                Some((val, p)) => Some(
                                    (Some(val), object, created, choices, usage, p),
                                ),
                            }
                        }
                    } else if key == "object"@ {
                        if object is Some {
                            None
                        } else {
                            match spec_ws_string(s, m + 1) {
                                None => None,
                                Some((val, p)) => Some((id, Some(val), created, choices, usage, p)),
                            }
                        }
                    } else if key == "created"@ {
                        if created is Some {
                            None
                        } else {
                            match spec_ws_i64(s, m + 1) {
                                None => None,
                                Some((x, p)) => Some((id, object, Some(x), choices, usage, p)),
                            }
                        }
                    } else if key == "choices"@ {
                        if choices is Some {
                            None
                        } else {
                            match spec_choices_array(s, m + 1) {
                                None => None,
                                Some((ch, p)) => Some((id, object, created, Some(ch), usage, p)),
                            }
                        }
                    } else if key == "usage"@ {
                        if usage is Some {
                            None
                        } else {
                            match spec_ws_usage(s, m + 1) {
                                None => None,
                                Some((us, p)) => Some((id, object, created, choices, Some(us), p)),
                            }
                        }
                    } else {
                        match spec_skip_value(s, m + 1) {
                            None => None,
                            Some(p) => Some((id, object, created, choices, usage, p)),
                        }
                    };
                    match step {
                        None => None,
                        Some((id2, object2, created2, choices2, usage2, p)) => if p <= m || p
                            > s.len() {
                            None
                        } else {
                            let q = spec_skip_ws(s, p);
                            if q < p || q >= s.len() {
                                None
                            } else if s[q] == '}' {
                                spec_response_finish(id2, object2, created2, choices2, usage2, q + 1)
                            } else if s[q] == ',' {
                                spec_response_members(
                                    s,
                                    q + 1,
                                    false,
                                    id2,
                                    object2,
                                    created2,
                                    choices2,
                                    usage2,
                                )
                            } else {
                                None
                            }
                        },
                    }
                }
            },
        }
    }
}

/// A response object preceded by optional whitespace.
pub open spec fn spec_ws_response(s: Seq<char>, i: int) -> Option<(ResponseView, int)> {
    let j = spec_skip_ws(s, i);
    if j < i || j >= s.len() || s[j] != '{' {
        None
    } else {
        spec_response_members(s, j + 1, true, None, None, None, None, None)
    }
}

fn response_members(
    v: &Vec<char>,
    i: usize,
    first: bool,
    id: Option<String>,
    object: Option<String>,
    created: Option<i64>,
    choices: Option<Vec<Choice>>,
    usage: Option<Usage>,
) -> (r: Option<(Response, usize)>)
    requires
        i <= v@.len(),
    ensures
        match r {
            None => spec_response_members(
                v@,
                i as int,
                first,
                opt_string_view(&id),
                opt_string_view(&object),
                created,
                opt_choices_view(&choices),
                opt_usage_view(&usage),
            ) is None,
            Some(p) => spec_response_members(
                v@,
                i as int,
                first,
                opt_string_view(&id),
                opt_string_view(&object),
                created,
                opt_choices_view(&choices),
                opt_usage_view(&usage),
            ) == Some((p.0@, p.1 as int)) && i < p.1 <= v@.len(),
        },
    decreases v@.len() - i,
{
    let j = skip_ws(v, i);
    if j >= v.len() {
        return None;
    }
    if first && v[j] == '}' {
        return match (id, object, created, choices, usage) {
            (Some(idv), Some(ob), Some(cr), Some(ch), Some(us)) => Some(
                (Response { id: idv, object: ob, created: cr, choices: ch, usage: us }, j + 1),
            ),
            _ => None,
        };
    }
    let (key, k) = match parse_string(v, j) {
        None => {
            return None;
        },
        Some(p) => p,
    };
    let m = skip_ws(v, k);
    if m >= v.len() || v[m] != ':' {
        return None;
    }
    let mut id = id;
    let mut object = object;
    let mut created = created;
    let mut choices = choices;
    let mut usage = usage;
    let p: usize;
    if chars_eq_lit(&key, "id") {
        if id.is_some() {
            return None;
        }
        match ws_string(v, m + 1) {
            None => {
                return None;
            },
            Some((val, pp)) => {
                id = Some(chars_to_string(val));
                p = pp;
            },
        }
    } else if chars_eq_lit(&key, "object") {
        if object.is_some() {
            return None;
        }
        match ws_string(v, m + 1) {
            None => {
                return None;
            },
            Some((val, pp)) => {
                object = Some(chars_to_string(val));
                p = pp;
            },
        }
    } else if chars_eq_lit(&key, "created") {
        if created.is_some() {
            return None;
        }
        match ws_i64(v, m + 1) {
            None => {
                return None;
            },
            Some((x, pp)) => {
                created = Some(x);
                p = pp;
            },
        }
    } else if chars_eq_lit(&key, "choices") {
        if choices.is_some() {
            return None;
        }
        match choices_array(v, m + 1) {
            None => {
                return None;
            },
            Some((ch, pp)) => {
                choices = Some(ch);
                p = pp;
            },
        }
    } else if chars_eq_lit(&key, "usage") {
        if usage.is_some() {
            return None;
        }
        match ws_usage(v, m + 1) {
            None => {
                return None;
            },
            Some((us, pp)) => {
                usage = Some(us);
                p = pp;
            },
        }
    } else {
        match skip_value(v, m + 1) {
            None => {
                return None;
            },
            Some(pp) => {
                p = pp;
            },
        }
    }
    let q = skip_ws(v, p);
    if q >= v.len() {
        return None;
    }
    if v[q] == '}' {
        match (id, object, created, choices, usage) {
            (Some(idv), Some(ob), Some(cr), Some(ch), Some(us)) => Some(
                (Response { id: idv, object: ob, created: cr, choices: ch, usage: us }, q + 1),
            ),
            _ => None,
        }
    } else if v[q] == ',' {
        response_members(v, q + 1, false, id, object, created, choices, usage)
    } else {
        None
    }
}

/// A complete response body: one response object with nothing but
/// whitespace around it.
pub open spec fn spec_parse_response(s: Seq<char>) -> Option<ResponseView> {
    match spec_ws_response(s, 0) {
        None => None,
        Some((r, p)) => if p < 0 || p > s.len() {
            None
        } else if spec_skip_ws(s, p) == s.len() {
            Some(r)
        } else {
            None
        },
    }
}

/// Parse a complete response body; see [`spec_parse_response`]. Unknown
/// fields anywhere in the payload are tolerated; a missing required field,
/// malformed JSON, or trailing content makes the parse fail.
pub fn parse_response_body(body: &str) -> (r: Option<Response>)
    ensures
        match r {
            None => spec_parse_response(body@) is None,
            Some(resp) => spec_parse_response(body@) == Some(resp@),
        },
{
    let v = str_to_chars(body);
    let j = skip_ws(&v, 0);
    if j >= v.len() || v[j] != '{' {
        return None;
    }
    match response_members(&v, j + 1, true, None, None, None, None, None) {
        None => None,
        Some((resp, p)) => {
            let q = skip_ws(&v, p);
            if q == v.len() {
                Some(resp)
            } else {
                None
            }
        },
    }
}

/// Law: the serialized request contains a fragment for an optional field
/// exactly when that field is set — an unset field contributes nothing to
/// the body, and a set field contributes exactly its key and rendered value.
pub proof fn lemma_optional_fields_omitted_iff_unset(r: RequestView)
    ensures
        spec_request_json(r) == spec_request_head(r) + spec_opt_dec(
            ",\"temperature\":"@,
            r.temperature,
        ) + spec_opt_dec(",\"top_p\":"@, r.top_p) + spec_opt_int(",\"n\":"@, r.n)
            + spec_opt_string_list(",\"stop\":"@, r.stop) + spec_opt_int(
            ",\"max_tokens\":"@,
            r.max_tokens,
        ) + spec_opt_dec(",\"presence_penalty\":"@, r.presence_penalty) + spec_opt_dec(
            ",\"frequency_penalty\":"@,
            r.frequency_penalty,
        ) + spec_opt_string(",\"user\":"@, r.user) + "}"@,
        spec_opt_dec(",\"temperature\":"@, r.temperature) == Seq::<char>::empty() <==> r.temperature
            is None,
        spec_opt_dec(",\"top_p\":"@, r.top_p) == Seq::<char>::empty() <==> r.top_p is None,
        spec_opt_int(",\"n\":"@, r.n) == Seq::<char>::empty() <==> r.n is None,
        spec_opt_string_list(",\"stop\":"@, r.stop) == Seq::<char>::empty() <==> r.stop is None,
        spec_opt_int(",\"max_tokens\":"@, r.max_tokens) == Seq::<char>::empty() <==> r.max_tokens
            is None,
        spec_opt_dec(",\"presence_penalty\":"@, r.presence_penalty) == Seq::<char>::empty()
            <==> r.presence_penalty is None,
        spec_opt_dec(",\"frequency_penalty\":"@, r.frequency_penalty) == Seq::<char>::empty()
            <==> r.frequency_penalty is None,
        spec_opt_string(",\"user\":"@, r.user) == Seq::<char>::empty() <==> r.user is None,
{
    reveal_strlit(",\"temperature\":");
    reveal_strlit(",\"top_p\":");
    reveal_strlit(",\"n\":");
    reveal_strlit(",\"stop\":");
    reveal_strlit(",\"max_tokens\":");
    reveal_strlit(",\"presence_penalty\":");
    reveal_strlit(",\"frequency_penalty\":");
    reveal_strlit(",\"user\":");
}

/// The first key string of a serialized message, parsed in place.
#[verifier::rlimit(100)]
proof fn lemma_mrt_key1(m: MessageView, rest: Seq<char>)
    ensures
        crate::json::spec_string_body(spec_message_json(m) + rest, 2) == Some(
            ("role"@, 7 as int),
        ),
{
    reveal_strlit("{\"role\":");
    reveal_strlit("role");
    let a = spec_json_string(m.role);
    let b = spec_json_string(m.content);
    let w = spec_message_json(m) + rest;
    assert(forall|k: int|
        0 <= k < "role"@.len() ==> #[trigger] crate::json::spec_escape_char("role"@[k])
            == seq!["role"@[k]]);
    crate::json::lemma_escape_plain("role"@);
    let head = seq!['{', '"'];
    let tail = seq![':'] + a + ",\"content\":"@ + b + "}"@ + rest;
    assert(head + crate::json::spec_escape("role"@) + seq!['"'] + tail =~= w);
    crate::json::lemma_string_body_round_trip(head, "role"@, tail);
}

/// The role value of a serialized message, parsed in place.
#[verifier::rlimit(100)]
proof fn lemma_mrt_val1(m: MessageView, rest: Seq<char>)
    ensures
        crate::json::spec_string_body(spec_message_json(m) + rest, 9) == Some(
            (m.role, 8 + spec_json_string(m.role).len() as int),
        ),
{
    reveal_strlit("{\"role\":");
    let lit1 = "{\"role\":"@;
    let a = spec_json_string(m.role);
    let b = spec_json_string(m.content);
    let ea = crate::json::spec_escape(m.role);
    let w = spec_message_json(m) + rest;
    let head = lit1 + seq!['"'];
    let tail = ",\"content\":"@ + b + "}"@ + rest;
    assert(head + ea + seq!['"'] + tail =~= w);
    crate::json::lemma_string_body_round_trip(head, m.role, tail);
}

/// The second key string of a serialized message, parsed in place.
#[verifier::rlimit(100)]
proof fn lemma_mrt_key2(m: MessageView, rest: Seq<char>)
    ensures
        crate::json::spec_string_body(
            spec_message_json(m) + rest,
            10 + spec_json_string(m.role).len() as int,
        ) == Some(("content"@, 18 + spec_json_string(m.role).len() as int)),
{
    reveal_strlit("{\"role\":");
    reveal_strlit(",\"content\":");
    reveal_strlit("content");
    let lit1 = "{\"role\":"@;
    let a = spec_json_string(m.role);
    let b = spec_json_string(m.content);
    let w = spec_message_json(m) + rest;
    assert(forall|k: int|
        0 <= k < "content"@.len() ==> #[trigger] crate::json::spec_escape_char("content"@[k])
            == seq!["content"@[k]]);
    crate::json::lemma_escape_plain("content"@);
    let head = lit1 + a + seq![',', '"'];
    let tail = seq![':'] + b + "}"@ + rest;
    assert(head + crate::json::spec_escape("content"@) + seq!['"'] + tail =~= w);
    crate::json::lemma_string_body_round_trip(head, "content"@, tail);
}

/// The content value of a serialized message, parsed in place.
#[verifier::rlimit(100)]
proof fn lemma_mrt_val2(m: MessageView, rest: Seq<char>)
    ensures
        crate::json::spec_string_body(
            spec_message_json(m) + rest,
            20 + spec_json_string(m.role).len() as int,
        ) == Some(
            (
                m.content,
                19 + spec_json_string(m.role).len() + spec_json_string(m.content).len() as int,
            ),
        ),
{
    reveal_strlit("{\"role\":");
    reveal_strlit(",\"content\":");
    let lit1 = "{\"role\":"@;
    let lit2 = ",\"content\":"@;
    let a = spec_json_string(m.role);
    let eb = crate::json::spec_escape(m.content);
    let w = spec_message_json(m) + rest;
    let head = lit1 + a + lit2 + seq!['"'];
    let tail = "}"@ + rest;
    assert(head + eb + seq!['"'] + tail =~= w);
    crate::json::lemma_string_body_round_trip(head, m.content, tail);
}

/// Law: a serialized message parses back to exactly the original message,
/// and the parser stops exactly at its closing brace, whatever text
/// follows — serializing a message and re-parsing it is the identity.
#[verifier::rlimit(100)]
pub proof fn lemma_message_round_trip(m: MessageView, rest: Seq<char>)
    ensures
        spec_ws_message(spec_message_json(m) + rest, 0) == Some(
            (m, spec_message_json(m).len() as int),
        ),
{
    reveal_strlit("{\"role\":");
    reveal_strlit(",\"content\":");
    reveal_strlit("}");
    reveal_strlit("role");
    reveal_strlit("content");
    let lit1 = "{\"role\":"@;
    let lit2 = ",\"content\":"@;
    let lit3 = "}"@;
    let a = spec_json_string(m.role);
    let b = spec_json_string(m.content);
    let w = spec_message_json(m) + rest;
    let la: int = a.len() as int;
    let lb: int = b.len() as int;
    assert(w =~= lit1 + a + lit2 + b + lit3 + rest);
    let p1: int = 8 + la;
    let p2: int = 19 + la + lb;

    lemma_mrt_key1(m, rest);
    lemma_mrt_val1(m, rest);
    lemma_mrt_key2(m, rest);
    lemma_mrt_val2(m, rest);

    // the characters the scanner inspects between the strings
    assert(w[0] == '{');
    assert(w[1] == '"');
    assert(w[7] == ':');
    assert(w[8] == '"');
    assert(w[p1] == ',');
    assert(w[p1 + 1] == '"');
    assert(w[p1 + 10] == ':');
    assert(w[p1 + 11] == '"');
    assert(w[p2] == '}');

    // none of those positions holds whitespace, so each skip stays put
    assert(spec_skip_ws(w, 0) == 0);
    assert(spec_skip_ws(w, 1) == 1);
    assert(spec_skip_ws(w, 7) == 7);
    assert(spec_skip_ws(w, 8) == 8);
    assert(spec_skip_ws(w, p1) == p1);
    assert(spec_skip_ws(w, p1 + 1) == p1 + 1);
    assert(spec_skip_ws(w, p1 + 10) == p1 + 10);
    assert(spec_skip_ws(w, p1 + 11) == p1 + 11);
    assert(spec_skip_ws(w, p2) == p2);

    assert(spec_parse_string(w, 1) == Some(("role"@, 7 as int)));
    assert(spec_parse_string(w, 8) == Some((m.role, p1)));
    assert(spec_parse_string(w, p1 + 1) == Some(("content"@, p1 + 10)));
    assert(spec_parse_string(w, p1 + 11) == Some((m.content, p2)));
    assert(spec_ws_string(w, 8) == Some((m.role, p1)));
    assert(spec_ws_string(w, p1 + 11) == Some((m.content, p2)));

    assert("content"@ != "role"@);

    // the scan after the first member: reads `content`, then the brace
    assert(spec_message_members(w, p1 + 1, false, Some(m.role), None) == Some((m, p2 + 1)));
    // the whole scan from just after the opening brace
    assert(spec_message_members(w, 1, true, None, None) == Some((m, p2 + 1)));
    assert(spec_message_json(m).len() == p2 + 1);
}

} // verus!
