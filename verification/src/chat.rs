//! The chat-completion endpoint's data: building a request body and reading
//! a response.

use vstd::prelude::*;

use crate::json::{
    arr_field, dec_rep, digit_char, digit_char_of, parse_text, push_quoted, push_str_chars,
    push_u64, quoted, spec_arr_field, spec_document, spec_str_field, spec_u32_field,
    spec_u64_field, str_field, string_from_chars, u32_field, u64_field, view_arr, Json, SpecJson,
};
use crate::VeniceError;

verus! {

/// A non-negative number with two decimal places, the form in which the
/// request's sampling parameters are written on the wire: `hundredths` is
/// one hundred times the value.
#[derive(Debug, Clone, Copy, PartialEq, Eq, Structural)]
pub struct Decimal {
    pub hundredths: u32,
}

impl Decimal {
    /// The value whose hundredfold is `hundredths`.
    pub fn from_hundredths(hundredths: u32) -> (r: Decimal)
        ensures
            r.hundredths == hundredths,
    {
        Decimal { hundredths }
    }
}

/// How a [`Decimal`] is written: the whole part in decimal, a point, and
/// exactly two further digits.
pub open spec fn spec_decimal_rep(d: Decimal) -> Seq<char> {
    dec_rep((d.hundredths / 100) as nat) + seq![
        '.',
        digit_char(((d.hundredths / 10) % 10) as nat),
        digit_char((d.hundredths % 10) as nat),
    ]
}

/// Appends the written form of `d` to `out`.
pub fn push_decimal(out: &mut Vec<char>, d: Decimal)
    ensures
        final(out)@ == old(out)@ + spec_decimal_rep(d),
{
    push_u64(out, (d.hundredths / 100) as u64);
    out.push('.');
    out.push(digit_char_of(((d.hundredths / 10) % 10) as u64));
    out.push(digit_char_of((d.hundredths % 10) as u64));
    assert(out@ =~= old(out)@ + spec_decimal_rep(d));
}

/// One turn of the conversation.
#[derive(Debug, Clone, PartialEq, Eq)]
pub struct Message {
    pub role: String,
    pub content: String,
}

/// The mathematical shape of a [`Message`].
pub struct SpecMessage {
    pub role: Seq<char>,
    pub content: Seq<char>,
}

impl View for Message {
    type V = SpecMessage;

    open spec fn view(&self) -> SpecMessage {
        SpecMessage { role: self.role@, content: self.content@ }
    }
}

/// A chat-completion request. `model` and `messages` are always sent;
/// every optional parameter is left off the wire while it is `None`.
#[derive(Debug, Clone)]
pub struct ChatRequest {
    pub model: String,
    pub messages: Vec<Message>,
    pub frequency_penalty: Option<Decimal>,
    pub max_completion_tokens: Option<u32>,
    pub presence_penalty: Option<Decimal>,
    pub prompt: Option<String>,
    pub stop: Option<Vec<String>>,
    pub stream: bool,
    pub temperature: Option<Decimal>,
    pub top_p: Option<Decimal>,
}

/// The mathematical shape of a [`ChatRequest`].
pub struct SpecChatRequest {
    pub model: Seq<char>,
    pub messages: Seq<SpecMessage>,
    pub frequency_penalty: Option<Decimal>,
    pub max_completion_tokens: Option<u32>,
    pub presence_penalty: Option<Decimal>,
    pub prompt: Option<Seq<char>>,
    pub stop: Option<Seq<Seq<char>>>,
    pub stream: bool,
    pub temperature: Option<Decimal>,
    pub top_p: Option<Decimal>,
}

impl View for ChatRequest {
    type V = SpecChatRequest;

    open spec fn view(&self) -> SpecChatRequest {
        SpecChatRequest {
            model: self.model@,
            messages: Seq::new(self.messages@.len(), |k: int| self.messages@[k]@),
            frequency_penalty: self.frequency_penalty,
            max_completion_tokens: self.max_completion_tokens,
            presence_penalty: self.presence_penalty,
            prompt: match self.prompt {
                Some(p) => Some(p@),
                None => None,
            },
            stop: match self.stop {
                Some(ss) => Some(ss.deep_view()),
                None => None,
            },
            stream: self.stream,
            temperature: self.temperature,
            top_p: self.top_p,
        }
    }
}

impl ChatRequest {
    /// A request for `model` over `messages`, with every optional
    /// parameter unset and streaming off.
    pub fn new(model: String, messages: Vec<Message>) -> (r: ChatRequest)
        ensures
            r.model == model,
            r.messages == messages,
            r.frequency_penalty is None,
            r.max_completion_tokens is None,
            r.presence_penalty is None,
            r.prompt is None,
            r.stop is None,
            r.stream == false,
            r.temperature is None,
            r.top_p is None,
    {
        ChatRequest {
            model,
            messages,
            frequency_penalty: None,
            max_completion_tokens: None,
            presence_penalty: None,
            prompt: None,
            stop: None,
            stream: false,
            temperature: None,
            top_p: None,
        }
    }
}

/// How one message is written: an object of its role and its content.
pub open spec fn spec_message_json(m: SpecMessage) -> Seq<char> {
    "{\"role\":"@ + quoted(m.role) + ",\"content\":"@ + quoted(m.content) + seq!['}']
}

/// The messages of a request, written one after another with commas.
pub open spec fn spec_join_msgs(ms: Seq<SpecMessage>) -> Seq<char>
    decreases ms.len(),
{
    if ms.len() == 0 {
        Seq::empty()
    } else if ms.len() == 1 {
        spec_message_json(ms[0])
    } else {
        spec_join_msgs(ms.drop_last()) + seq![','] + spec_message_json(ms.last())
    }
}

/// Strings written one after another with commas, each quoted.
pub open spec fn spec_join_strs(ss: Seq<Seq<char>>) -> Seq<char>
    decreases ss.len(),
{
    if ss.len() == 0 {
        Seq::empty()
    } else if ss.len() == 1 {
        quoted(ss[0])
    } else {
        spec_join_strs(ss.drop_last()) + seq![','] + quoted(ss.last())
    }
}

/// The members a request puts on the wire, in order: each one a key and
/// the written form of its value. A parameter that is `None` contributes
/// nothing.
pub open spec fn spec_request_members(r: SpecChatRequest) -> Seq<(Seq<char>, Seq<char>)> {
    let ms = Seq::<(Seq<char>, Seq<char>)>::empty();
    let ms = ms.push(("model"@, quoted(r.model)));
    let ms = ms.push(("messages"@, seq!['['] + spec_join_msgs(r.messages) + seq![']']));
    let ms = match r.frequency_penalty {
        Some(d) => ms.push(("frequency_penalty"@, spec_decimal_rep(d))),
        None => ms,
    };
    let ms = match r.max_completion_tokens {
        Some(n) => ms.push(("max_completion_tokens"@, dec_rep(n as nat))),
        None => ms,
    };
    let ms = match r.presence_penalty {
        Some(d) => ms.push(("presence_penalty"@, spec_decimal_rep(d))),
        None => ms,
    };
    let ms = match r.prompt {
        Some(p) => ms.push(("prompt"@, quoted(p))),
        None => ms,
    };
    let ms = match r.stop {
        Some(ss) => ms.push(("stop"@, seq!['['] + spec_join_strs(ss) + seq![']'])),
        None => ms,
    };
    let ms = ms.push(
        ("stream"@, if r.stream {
            "true"@
        } else {
            "false"@
        }),
    );
    let ms = match r.temperature {
        Some(d) => ms.push(("temperature"@, spec_decimal_rep(d))),
        None => ms,
    };
    match r.top_p {
        Some(d) => ms.push(("top_p"@, spec_decimal_rep(d))),
        None => ms,
    }
}

/// One member as written: the quoted key, a colon, the value.
pub open spec fn spec_member_rep(m: (Seq<char>, Seq<char>)) -> Seq<char> {
    quoted(m.0) + seq![':'] + m.1
}

/// Members written one after another with commas.
pub open spec fn spec_join_members(ms: Seq<(Seq<char>, Seq<char>)>) -> Seq<char>
    decreases ms.len(),
{
    if ms.len() == 0 {
        Seq::empty()
    } else if ms.len() == 1 {
        spec_member_rep(ms[0])
    } else {
        spec_join_members(ms.drop_last()) + seq![','] + spec_member_rep(ms.last())
    }
}

/// The whole request body: its members between braces.
pub open spec fn spec_request_json(r: SpecChatRequest) -> Seq<char> {
    seq!['{'] + spec_join_members(spec_request_members(r)) + seq!['}']
}

/// Joining one more member appends a comma and the member, except at the
/// front.
proof fn lemma_join_members_snoc(ms: Seq<(Seq<char>, Seq<char>)>, m: (Seq<char>, Seq<char>))
    ensures
        ms.len() == 0 ==> spec_join_members(ms.push(m)) == spec_member_rep(m),
        ms.len() > 0 ==> spec_join_members(ms.push(m)) == spec_join_members(ms) + seq![',']
            + spec_member_rep(m),
{
    assert(ms.push(m).drop_last() =~= ms);
    assert(ms.push(m).last() == m);
    if ms.len() == 0 {
        assert(spec_join_members(ms.push(m)) == spec_member_rep(m));
    }
}

/// Joining one more message appends a comma and the message, except at the
/// front.
proof fn lemma_join_msgs_snoc(ms: Seq<SpecMessage>, m: SpecMessage)
    ensures
        ms.len() == 0 ==> spec_join_msgs(ms.push(m)) == spec_message_json(m),
        ms.len() > 0 ==> spec_join_msgs(ms.push(m)) == spec_join_msgs(ms) + seq![',']
            + spec_message_json(m),
{
    assert(ms.push(m).drop_last() =~= ms);
    assert(ms.push(m).last() == m);
    if ms.len() == 0 {
        assert(spec_join_msgs(ms.push(m)) == spec_message_json(m));
    }
}

/// Joining one more string appends a comma and the quoted string, except
/// at the front.
proof fn lemma_join_strs_snoc(ss: Seq<Seq<char>>, s: Seq<char>)
    ensures
        ss.len() == 0 ==> spec_join_strs(ss.push(s)) == quoted(s),
        ss.len() > 0 ==> spec_join_strs(ss.push(s)) == spec_join_strs(ss) + seq![','] + quoted(s),
{
    assert(ss.push(s).drop_last() =~= ss);
    assert(ss.push(s).last() == s);
    if ss.len() == 0 {
        assert(spec_join_strs(ss.push(s)) == quoted(s));
    }
}

/// Appends one message as written to `out`.
fn push_message(out: &mut Vec<char>, m: &Message)
    ensures
        final(out)@ == old(out)@ + spec_message_json(m@),
{
    push_str_chars(out, "{\"role\":");
    push_quoted(out, m.role.as_str());
    push_str_chars(out, ",\"content\":");
    push_quoted(out, m.content.as_str());
    out.push('}');
    assert(out@ =~= old(out)@ + spec_message_json(m@));
}

/// Appends the bracketed message list to `out`.
fn push_messages(out: &mut Vec<char>, msgs: &Vec<Message>)
    ensures
        final(out)@ == old(out)@ + seq!['['] + spec_join_msgs(
            Seq::new(msgs@.len(), |k: int| msgs@[k]@),
        ) + seq![']'],
{
    let ghost view_all: Seq<SpecMessage> = Seq::new(msgs@.len(), |k: int| msgs@[k]@);
    out.push('[');
    let n = msgs.len();
    let mut i: usize = 0;
    while i < n
        invariant
            n == msgs@.len(),
            i <= n,
            view_all == Seq::new(msgs@.len(), |k: int| msgs@[k]@),
            out@ == old(out)@ + seq!['['] + spec_join_msgs(view_all.take(i as int)),
        decreases n - i,
    {
        if i > 0 {
            out.push(',');
        }
        push_message(out, &msgs[i]);
        i = i + 1;
        proof {
            lemma_join_msgs_snoc(view_all.take(i - 1), view_all[i - 1]);
            assert(view_all.take(i - 1).push(view_all[i - 1]) =~= view_all.take(i as int));
            assert(out@ =~= old(out)@ + seq!['['] + spec_join_msgs(view_all.take(i as int)));
        }
    }
    out.push(']');
    assert(view_all.take(n as int) =~= view_all);
    assert(out@ =~= old(out)@ + seq!['['] + spec_join_msgs(view_all) + seq![']']);
}

/// Appends the bracketed string list to `out`.
fn push_strings(out: &mut Vec<char>, ss: &Vec<String>)
    ensures
        final(out)@ == old(out)@ + seq!['['] + spec_join_strs(ss.deep_view()) + seq![']'],
{
    let ghost view_all: Seq<Seq<char>> = ss.deep_view();
    out.push('[');
    let n = ss.len();
    let mut i: usize = 0;
    while i < n
        invariant
            n == ss@.len(),
            i <= n,
            view_all == ss.deep_view(),
            view_all.len() == n,
            forall|k: int| 0 <= k < n ==> view_all[k] == ss@[k]@,
            out@ == old(out)@ + seq!['['] + spec_join_strs(view_all.take(i as int)),
        decreases n - i,
    {
        if i > 0 {
            out.push(',');
        }
        push_quoted(out, ss[i].as_str());
        i = i + 1;
        proof {
            lemma_join_strs_snoc(view_all.take(i - 1), view_all[i - 1]);
            assert(view_all.take(i - 1).push(view_all[i - 1]) =~= view_all.take(i as int));
            assert(out@ =~= old(out)@ + seq!['['] + spec_join_strs(view_all.take(i as int)));
        }
    }
    out.push(']');
    assert(view_all.take(n as int) =~= view_all);
    assert(out@ =~= old(out)@ + seq!['['] + spec_join_strs(view_all) + seq![']']);
}

/// The view of a list of built members, each a key beside the written form
/// of its value.
pub open spec fn pairs_view(ps: Seq<(String, Vec<char>)>) -> Seq<(Seq<char>, Seq<char>)> {
    Seq::new(ps.len(), |k: int| (ps[k].0@, ps[k].1@))
}

/// Appends every character of `v` to `out`.
fn push_chars(out: &mut Vec<char>, v: &Vec<char>)
    ensures
        final(out)@ == old(out)@ + v@,
{
    let n = v.len();
    let mut i: usize = 0;
    while i < n
        invariant
            n == v@.len(),
            i <= n,
            out@ == old(out)@ + v@.take(i as int),
        decreases n - i,
    {
        out.push(v[i]);
        i = i + 1;
        assert(out@ =~= old(out)@ + v@.take(i as int));
    }
    assert(old(out)@ + v@.take(n as int) =~= old(out)@ + v@);
}

/// One more built member in view is one more pair.
proof fn lemma_pairs_view_push(ps: Seq<(String, Vec<char>)>, p: (String, Vec<char>))
    ensures
        pairs_view(ps.push(p)) == pairs_view(ps).push((p.0@, p.1@)),
{
    assert(pairs_view(ps.push(p)) =~= pairs_view(ps).push((p.0@, p.1@)));
}

impl ChatRequest {
    /// The members this request puts on the wire: exactly
    /// [`spec_request_members`], built as keys beside written values.
    #[verifier::rlimit(100)]
    fn wire_members(&self) -> (r: Vec<(String, Vec<char>)>)
        ensures
            pairs_view(r@) == spec_request_members(self@),
    {
        let mut out: Vec<(String, Vec<char>)> = Vec::new();
        let ghost mut ms: Seq<(Seq<char>, Seq<char>)> = Seq::empty();
        proof {
            assert(pairs_view(out@) =~= ms);
        }

        let mut buf: Vec<char> = Vec::new();
        push_quoted(&mut buf, self.model.as_str());
        let key = String::from_str("model");
        let ghost out0 = out@;
        out.push((key, buf));
        proof {
            lemma_pairs_view_push(out0, out@.last());
            ms = ms.push(("model"@, quoted(self@.model)));
        }

        let mut buf: Vec<char> = Vec::new();
        push_messages(&mut buf, &self.messages);
        let key = String::from_str("messages");
        let ghost out0 = out@;
        out.push((key, buf));
        proof {
            lemma_pairs_view_push(out0, out@.last());
            ms = ms.push(("messages"@, seq!['['] + spec_join_msgs(self@.messages) + seq![']']));
        }

        match &self.frequency_penalty {
            Some(d) => {
                let mut buf: Vec<char> = Vec::new();
                push_decimal(&mut buf, *d);
                let key = String::from_str("frequency_penalty");
                let ghost out0 = out@;
                out.push((key, buf));
                proof {
                    lemma_pairs_view_push(out0, out@.last());
                    ms = ms.push(("frequency_penalty"@, spec_decimal_rep(*d)));
                }
            },
            None => {},
        }

        match &self.max_completion_tokens {
            Some(n) => {
                let mut buf: Vec<char> = Vec::new();
                push_u64(&mut buf, *n as u64);
                let key = String::from_str("max_completion_tokens");
                let ghost out0 = out@;
                out.push((key, buf));
                proof {
                    lemma_pairs_view_push(out0, out@.last());
                    ms = ms.push(("max_completion_tokens"@, dec_rep(*n as nat)));
                }
            },
            None => {},
        }

        match &self.presence_penalty {
            Some(d) => {
                let mut buf: Vec<char> = Vec::new();
                push_decimal(&mut buf, *d);
                let key = String::from_str("presence_penalty");
                let ghost out0 = out@;
                out.push((key, buf));
                proof {
                    lemma_pairs_view_push(out0, out@.last());
                    ms = ms.push(("presence_penalty"@, spec_decimal_rep(*d)));
                }
            },
            None => {},
        }

        match &self.prompt {
            Some(p) => {
                let mut buf: Vec<char> = Vec::new();
                push_quoted(&mut buf, p.as_str());
                let key = String::from_str("prompt");
                let ghost out0 = out@;
                out.push((key, buf));
                proof {
                    lemma_pairs_view_push(out0, out@.last());
                    ms = ms.push(("prompt"@, quoted(p@)));
                }
            },
            None => {},
        }

        match &self.stop {
            Some(ss) => {
                let mut buf: Vec<char> = Vec::new();
                push_strings(&mut buf, ss);
                let key = String::from_str("stop");
                let ghost out0 = out@;
                out.push((key, buf));
                proof {
                    lemma_pairs_view_push(out0, out@.last());
                    ms = ms.push(("stop"@, seq!['['] + spec_join_strs(ss.deep_view()) + seq![']']));
                }
            },
            None => {},
        }

        let mut buf: Vec<char> = Vec::new();
        if self.stream {
            push_str_chars(&mut buf, "true");
        } else {
            push_str_chars(&mut buf, "false");
        }
        let key = String::from_str("stream");
        let ghost out0 = out@;
        out.push((key, buf));
        proof {
            lemma_pairs_view_push(out0, out@.last());
            ms = ms.push(
                ("stream"@, if self.stream {
                    "true"@
                } else {
                    "false"@
                }),
            );
        }

        match &self.temperature {
            Some(d) => {
                let mut buf: Vec<char> = Vec::new();
                push_decimal(&mut buf, *d);
                let key = String::from_str("temperature");
                let ghost out0 = out@;
                out.push((key, buf));
                proof {
                    lemma_pairs_view_push(out0, out@.last());
                    ms = ms.push(("temperature"@, spec_decimal_rep(*d)));
                }
            },
            None => {},
        }

        match &self.top_p {
            Some(d) => {
                let mut buf: Vec<char> = Vec::new();
                push_decimal(&mut buf, *d);
                let key = String::from_str("top_p");
                let ghost out0 = out@;
                out.push((key, buf));
                proof {
                    lemma_pairs_view_push(out0, out@.last());
                    ms = ms.push(("top_p"@, spec_decimal_rep(*d)));
                }
            },
            None => {},
        }

        proof {
            assert(ms == spec_request_members(self@));
        }
        out
    }

    /// The request body as it goes on the wire: exactly the members of
    /// [`spec_request_members`], between braces, in their order.
    pub fn to_json(&self) -> (r: String)
        ensures
            r@ == spec_request_json(self@),
    {
        let members = self.wire_members();
        let ghost view_all: Seq<(Seq<char>, Seq<char>)> = pairs_view(members@);
        let mut out: Vec<char> = Vec::new();
        out.push('{');
        let n = members.len();
        let mut i: usize = 0;
        while i < n
            invariant
                n == members@.len(),
                view_all == pairs_view(members@),
                view_all.len() == n,
                i <= n,
                out@ == seq!['{'] + spec_join_members(view_all.take(i as int)),
            decreases n - i,
        {
            if i > 0 {
                out.push(',');
            }
            push_quoted(&mut out, members[i].0.as_str());
            out.push(':');
            push_chars(&mut out, &members[i].1);
            i = i + 1;
            proof {
                lemma_join_members_snoc(view_all.take(i - 1), view_all[i - 1]);
                assert(view_all.take(i - 1).push(view_all[i - 1]) =~= view_all.take(i as int));
                assert(out@ =~= seq!['{'] + spec_join_members(view_all.take(i as int)));
            }
        }
        out.push('}');
        proof {
            assert(view_all.take(n as int) =~= view_all);
            assert(out@ =~= seq!['{'] + spec_join_members(spec_request_members(self@)) + seq![
                '}',
            ]);
        }
        string_from_chars(out)
    }
}

/// Token counts as the server reports them.
#[derive(Debug, Clone, Copy, PartialEq, Eq, Structural)]
pub struct Usage {
    pub prompt_tokens: u32,
    pub completion_tokens: u32,
    pub total_tokens: u32,
}

/// One answer the server offers for a request.
#[derive(Debug, Clone, PartialEq, Eq)]
pub struct Choice {
    pub message: Message,
    pub finish_reason: String,
    pub index: u32,
}

/// The mathematical shape of a [`Choice`].
pub struct SpecChoice {
    pub message: SpecMessage,
    pub finish_reason: Seq<char>,
    pub index: u32,
}

impl View for Choice {
    type V = SpecChoice;

    open spec fn view(&self) -> SpecChoice {
        SpecChoice {
            message: self.message@,
            finish_reason: self.finish_reason@,
            index: self.index,
        }
    }
}

/// The whole answer of the chat-completion endpoint.
#[derive(Debug, Clone, PartialEq, Eq)]
pub struct ChatResponse {
    pub id: String,
    pub object: String,
    pub created: u64,
    pub model: String,
    pub choices: Vec<Choice>,
    pub usage: Usage,
}

/// The mathematical shape of a [`ChatResponse`].
pub struct SpecChatResponse {
    pub id: Seq<char>,
    pub object: Seq<char>,
    pub created: u64,
    pub model: Seq<char>,
    pub choices: Seq<SpecChoice>,
    pub usage: Usage,
}

impl View for ChatResponse {
    type V = SpecChatResponse;

    open spec fn view(&self) -> SpecChatResponse {
        SpecChatResponse {
            id: self.id@,
            object: self.object@,
            created: self.created,
            model: self.model@,
            choices: Seq::new(self.choices@.len(), |k: int| self.choices@[k]@),
            usage: self.usage,
        }
    }
}

/// One message, from a JSON value.
pub open spec fn spec_message_from(v: SpecJson) -> Option<SpecMessage> {
    match v {
        SpecJson::Obj(ms) => match (spec_str_field(ms, "role"@), spec_str_field(ms, "content"@)) {
            (Some(role), Some(content)) => Some(SpecMessage { role, content }),
            _ => None,
        },
        _ => None,
    }
}

/// Reads one message, executable side of [`spec_message_from`].
fn message_from(v: &Json) -> (r: Option<Message>)
    ensures
        ({
            match (r, spec_message_from(v@)) {
                (Some(x), Some(sx)) => x@ == sx,
                (None, None) => true,
                _ => false,
            }
        }),
{
    match v {
        Json::Obj(ms) => {
            let role = str_field(ms, "role");
            let content = str_field(ms, "content");
            match (role, content) {
                (Some(role), Some(content)) => Some(Message { role, content }),
                _ => None,
            }
        },
        _ => None,
    }
}

/// The token counts, from a JSON value.
pub open spec fn spec_usage_from(v: SpecJson) -> Option<Usage> {
    match v {
        SpecJson::Obj(ms) => {
            match (
                spec_u32_field(ms, "prompt_tokens"@),
                spec_u32_field(ms, "completion_tokens"@),
                spec_u32_field(ms, "total_tokens"@),
            ) {
                (Some(p), Some(c), Some(t)) => Some(
                    Usage { prompt_tokens: p, completion_tokens: c, total_tokens: t },
                ),
                _ => None,
            }
        },
        _ => None,
    }
}

/// Reads the token counts, executable side of [`spec_usage_from`].
fn usage_from(v: &Json) -> (r: Option<Usage>)
    ensures
        r == spec_usage_from(v@),
{
    match v {
        Json::Obj(ms) => {
            let p = u32_field(ms, "prompt_tokens");
            let c = u32_field(ms, "completion_tokens");
            let t = u32_field(ms, "total_tokens");
            match (p, c, t) {
                (Some(p), Some(c), Some(t)) => Some(
                    Usage { prompt_tokens: p, completion_tokens: c, total_tokens: t },
                ),
                _ => None,
            }
        },
        _ => None,
    }
}

/// One choice, from a JSON value.
pub open spec fn spec_choice_from(v: SpecJson) -> Option<SpecChoice> {
    match v {
        SpecJson::Obj(ms) => {
            match (
                crate::json::spec_obj_get(ms, "message"@),
                spec_str_field(ms, "finish_reason"@),
                spec_u32_field(ms, "index"@),
            ) {
                (Some(mv), Some(fr), Some(ix)) => match spec_message_from(mv) {
                    Some(m) => Some(SpecChoice { message: m, finish_reason: fr, index: ix }),
                    None => None,
                },
                _ => None,
            }
        },
        _ => None,
    }
}

/// Reads one choice, executable side of [`spec_choice_from`].
fn choice_from(v: &Json) -> (r: Option<Choice>)
    ensures
        ({
            match (r, spec_choice_from(v@)) {
                (Some(x), Some(sx)) => x@ == sx,
                (None, None) => true,
                _ => false,
            }
        }),
{
    match v {
        Json::Obj(ms) => {
            let mv = crate::json::obj_get(ms, "message");
            let fr = str_field(ms, "finish_reason");
            let ix = u32_field(ms, "index");
            match (mv, fr, ix) {
                (Some(mv), Some(fr), Some(ix)) => match message_from(mv) {
                    Some(m) => Some(Choice { message: m, finish_reason: fr, index: ix }),
                    None => None,
                },
                _ => None,
            }
        },
        _ => None,
    }
}

/// The choices of an array of JSON values, or `None` where one is
/// malformed.
pub open spec fn spec_choices_from(es: Seq<SpecJson>) -> Option<Seq<SpecChoice>>
    decreases es.len(),
{
    if es.len() == 0 {
        Some(Seq::empty())
    } else {
        match spec_choice_from(es[0]) {
            Some(c) => match spec_choices_from(es.drop_first()) {
                Some(rest) => Some(seq![c] + rest),
                None => None,
            },
            None => None,
        }
    }
}

/// Reads the choice list from element `idx` on, executable side of
/// [`spec_choices_from`].
fn choices_from_at(es: &Vec<Json>, idx: usize) -> (r: Option<Vec<Choice>>)
    requires
        idx <= es@.len(),
    ensures
        ({
            match (r, spec_choices_from(view_arr(es@).skip(idx as int))) {
                (Some(v), Some(sv)) => v@.len() == sv.len() && forall|k: int|
                    0 <= k < sv.len() ==> v@[k]@ == sv[k],
                (None, None) => true,
                _ => false,
            }
        }),
    decreases es@.len() - idx,
{
    proof {
        crate::json::lemma_view_arr(es@);
    }
    if idx == es.len() {
        proof {
            assert(view_arr(es@).skip(idx as int) =~= Seq::<SpecJson>::empty());
        }
        Some(Vec::new())
    } else {
        proof {
            assert(view_arr(es@).skip(idx as int)[0] == view_arr(es@)[idx as int]);
            assert(view_arr(es@).skip(idx as int).drop_first() =~= view_arr(es@).skip(idx + 1));
        }
        match choice_from(&es[idx]) {
            Some(c) => match choices_from_at(es, idx + 1) {
                Some(mut rest) => {
                    rest.insert(0, c);
                    Some(rest)
                },
                None => None,
            },
            None => None,
        }
    }
}

/// The whole chat answer, from a JSON value.
pub open spec fn spec_chat_response_from(v: SpecJson) -> Option<SpecChatResponse> {
    match v {
        SpecJson::Obj(ms) => {
            match (
                spec_str_field(ms, "id"@),
                spec_str_field(ms, "object"@),
                spec_u64_field(ms, "created"@),
                spec_str_field(ms, "model"@),
                spec_arr_field(ms, "choices"@),
                crate::json::spec_obj_get(ms, "usage"@),
            ) {
                (Some(id), Some(ob), Some(cr), Some(md), Some(es), Some(uv)) => match (
                    spec_choices_from(es),
                    spec_usage_from(uv),
                ) {
                    (Some(cs), Some(us)) => Some(
                        SpecChatResponse {
                            id: id,
                            object: ob,
                            created: cr,
                            model: md,
                            choices: cs,
                            usage: us,
                        },
                    ),
                    _ => None,
                },
                _ => None,
            }
        },
        _ => None,
    }
}

/// The chat answer read out of a whole document, or `None` where the text
/// is not a well-formed answer.
pub open spec fn spec_parse_chat_response(text: Seq<char>) -> Option<SpecChatResponse> {
    match spec_document(text) {
        Some(v) => spec_chat_response_from(v),
        None => None,
    }
}

impl ChatResponse {
    /// Reads a chat answer out of the endpoint's response text. The one
    /// error, `Decode`, comes exactly on text that is not a well-formed
    /// answer.
    pub fn parse(text: &str) -> (r: Result<ChatResponse, VeniceError>)
        ensures
            match r {
                Ok(resp) => spec_parse_chat_response(text@) == Some(resp@),
                Err(e) => spec_parse_chat_response(text@) is None && e == VeniceError::Decode,
            },
    {
        match parse_text(text) {
            Some(v) => match &v {
                Json::Obj(ms) => {
                    let id = str_field(ms, "id");
                    let ob = str_field(ms, "object");
                    let cr = u64_field(ms, "created");
                    let md = str_field(ms, "model");
                    let es = arr_field(ms, "choices");
                    let uv = crate::json::obj_get(ms, "usage");
                    match (id, ob, cr, md, es, uv) {
                        (Some(id), Some(ob), Some(cr), Some(md), Some(es), Some(uv)) => {
                            let cs = choices_from_at(es, 0);
                            let us = usage_from(uv);
                            proof {
                                assert(view_arr(es@).skip(0) =~= view_arr(es@));
                            }
                            match (cs, us) {
                                (Some(cs), Some(us)) => {
                                    let resp = ChatResponse {
                                        id: id,
                                        object: ob,
                                        created: cr,
                                        model: md,
                                        choices: cs,
                                        usage: us,
                                    };
                                    proof {
                                        let sresp = spec_chat_response_from(v@)->0;
                                        assert(resp@.choices =~= sresp.choices);
                                    }
                                    Ok(resp)
                                },
                                _ => Err(VeniceError::Decode),
                            }
                        },
                        _ => Err(VeniceError::Decode),
                    }
                },
                _ => Err(VeniceError::Decode),
            },
            None => Err(VeniceError::Decode),
        }
    }
}

/// Whether some response text reads, by [`spec_parse_chat_response`], to
/// exactly this answer: what [`crate::API::chat`] promises of every answer
/// it hands out.
pub open spec fn wire_chat_response(sr: SpecChatResponse) -> bool {
    exists|t: Seq<char>| spec_parse_chat_response(t) == Some(sr)
}

impl crate::API {
    /// Sends the request over the chat-completion endpoint and reads the
    /// answer. The request body is exactly `req.to_json()`; the reply is
    /// read by [`ChatResponse::parse`], and a malformed one is a `Decode`
    /// error, never a halt.
    pub fn chat(&self, req: ChatRequest) -> (r: Result<ChatResponse, VeniceError>)
        ensures
            r matches Ok(resp) ==> wire_chat_response(resp@),
            r matches Err(e) ==> !(e matches VeniceError::UnknownModel(_)),
    {
        let body = req.to_json();
        match self.call_with_body("chat/completions", body.as_str()) {
            Ok(text) => {
                let parsed = ChatResponse::parse(text.as_str());
                proof {
                    if parsed is Ok {
                        assert(spec_parse_chat_response(text@) == Some(parsed->Ok_0@));
                        assert(wire_chat_response(parsed->Ok_0@));
                    }
                }
                parsed
            },
            Err(e) => Err(e),
        }
    }
}

/// The keys of the wire members, in order.
pub open spec fn member_keys(ms: Seq<(Seq<char>, Seq<char>)>) -> Seq<Seq<char>> {
    Seq::new(ms.len(), |k: int| ms[k].0)
}

/// A key is among the keys after one more member exactly when it was there
/// before or is the new member's own.
proof fn lemma_keys_push(ms: Seq<(Seq<char>, Seq<char>)>, m: (Seq<char>, Seq<char>), x: Seq<char>)
    ensures
        member_keys(ms.push(m)).contains(x) <==> (member_keys(ms).contains(x) || m.0 == x),
{
    assert(member_keys(ms.push(m)) =~= member_keys(ms).push(m.0));
    if m.0 == x {
        assert(member_keys(ms).push(m.0)[member_keys(ms).len() as int] == x);
    }
    if member_keys(ms).contains(x) {
        let i = choose|i: int| 0 <= i < member_keys(ms).len() && member_keys(ms)[i] == x;
        assert(member_keys(ms).push(m.0)[i] == x);
    }
    if member_keys(ms.push(m)).contains(x) && m.0 != x {
        let i = choose|i: int|
            0 <= i < member_keys(ms.push(m)).len() && member_keys(ms.push(m))[i] == x;
        assert(i < member_keys(ms).len());
        assert(member_keys(ms)[i] == x);
    }
}

/// A request parameter left unset never stands as a key among the wire
/// members; one that is set always does; and the three required members
/// are always present. With [`ChatRequest::to_json`]'s contract this says
/// of the whole payload which keys it carries.
#[verifier::rlimit(100)]
pub proof fn lemma_optional_omission(r: SpecChatRequest)
    ensures
        member_keys(spec_request_members(r)).contains("model"@),
        member_keys(spec_request_members(r)).contains("messages"@),
        member_keys(spec_request_members(r)).contains("stream"@),
        member_keys(spec_request_members(r)).contains("frequency_penalty"@)
            <==> r.frequency_penalty is Some,
        member_keys(spec_request_members(r)).contains("max_completion_tokens"@)
            <==> r.max_completion_tokens is Some,
        member_keys(spec_request_members(r)).contains("presence_penalty"@)
            <==> r.presence_penalty is Some,
        member_keys(spec_request_members(r)).contains("prompt"@) <==> r.prompt is Some,
        member_keys(spec_request_members(r)).contains("stop"@) <==> r.stop is Some,
        member_keys(spec_request_members(r)).contains("temperature"@) <==> r.temperature is Some,
        member_keys(spec_request_members(r)).contains("top_p"@) <==> r.top_p is Some,
{
    reveal_strlit("model");
    reveal_strlit("messages");
    reveal_strlit("frequency_penalty");
    reveal_strlit("max_completion_tokens");
    reveal_strlit("presence_penalty");
    reveal_strlit("prompt");
    reveal_strlit("stop");
    reveal_strlit("stream");
    reveal_strlit("temperature");
    reveal_strlit("top_p");
    assert("model"@.len() == 5);
    assert("messages"@.len() == 8);
    assert("frequency_penalty"@.len() == 17);
    assert("max_completion_tokens"@.len() == 21);
    assert("presence_penalty"@.len() == 16);
    assert("prompt"@.len() == 6);
    assert("stop"@.len() == 4);
    assert("stream"@.len() == 6);
    assert("temperature"@.len() == 11);
    assert("top_p"@.len() == 5);
    assert("model"@[0] != "top_p"@[0]);
    assert("prompt"@[0] != "stream"@[0]);

    let ms0 = Seq::<(Seq<char>, Seq<char>)>::empty();
    let ms1 = ms0.push(("model"@, quoted(r.model)));
    let ms2 = ms1.push(("messages"@, seq!['['] + spec_join_msgs(r.messages) + seq![']']));
    let ms3 = match r.frequency_penalty {
        Some(d) => ms2.push(("frequency_penalty"@, spec_decimal_rep(d))),
        None => ms2,
    };
    let ms4 = match r.max_completion_tokens {
        Some(n) => ms3.push(("max_completion_tokens"@, dec_rep(n as nat))),
        None => ms3,
    };
    let ms5 = match r.presence_penalty {
        Some(d) => ms4.push(("presence_penalty"@, spec_decimal_rep(d))),
        None => ms4,
    };
    let ms6 = match r.prompt {
        Some(p) => ms5.push(("prompt"@, quoted(p))),
        None => ms5,
    };
    let ms7 = match r.stop {
        Some(ss) => ms6.push(("stop"@, seq!['['] + spec_join_strs(ss) + seq![']'])),
        None => ms6,
    };
    let ms8 = ms7.push(
        ("stream"@, if r.stream {
            "true"@
        } else {
            "false"@
        }),
    );
    let ms9 = match r.temperature {
        Some(d) => ms8.push(("temperature"@, spec_decimal_rep(d))),
        None => ms8,
    };
    let ms10 = match r.top_p {
        Some(d) => ms9.push(("top_p"@, spec_decimal_rep(d))),
        None => ms9,
    };
    assert(ms10 == spec_request_members(r));

    assert forall|x: Seq<char>| !member_keys(ms0).contains(x) by {
        assert(member_keys(ms0) =~= Seq::<Seq<char>>::empty());
    }
    assert forall|x: Seq<char>| #[trigger]
        member_keys(ms10).contains(x) <==> (x == "model"@ || x == "messages"@ || x == "stream"@ || (
        r.frequency_penalty is Some && x == "frequency_penalty"@) || (r.max_completion_tokens
            is Some && x == "max_completion_tokens"@) || (r.presence_penalty is Some && x
            == "presence_penalty"@) || (r.prompt is Some && x == "prompt"@) || (r.stop is Some && x
            == "stop"@) || (r.temperature is Some && x == "temperature"@) || (r.top_p is Some && x
            == "top_p"@)) by {
        lemma_keys_push(ms0, ms1.last(), x);
        lemma_keys_push(ms1, ms2.last(), x);
        if r.frequency_penalty is Some {
            lemma_keys_push(ms2, ms3.last(), x);
        }
        if r.max_completion_tokens is Some {
            lemma_keys_push(ms3, ms4.last(), x);
        }
        if r.presence_penalty is Some {
            lemma_keys_push(ms4, ms5.last(), x);
        }
        if r.prompt is Some {
            lemma_keys_push(ms5, ms6.last(), x);
        }
        if r.stop is Some {
            lemma_keys_push(ms6, ms7.last(), x);
        }
        lemma_keys_push(ms7, ms8.last(), x);
        if r.temperature is Some {
            lemma_keys_push(ms8, ms9.last(), x);
        }
        if r.top_p is Some {
            lemma_keys_push(ms9, ms10.last(), x);
        }
    }
}

} // verus!
