//! Chat-completion request shapes, the filter-decision arithmetic a proxy in
//! front of a model uses, and how it reads and redacts a model's JSON reply.

use vstd::prelude::*;

use crate::filters::FilterDecision;
use crate::action::opt_view;
use crate::text::{count_words, join2, str_eq, word_count};

verus! {

/// One message of a chat conversation.
#[derive(Debug, Clone, PartialEq, Eq)]
pub struct ChatMessage {
    /// Who wrote it (`user`, `assistant`, ...).
    pub role: String,
    /// What it says.
    pub content: String,
}

/// A chat-completion request passing through the proxy.
#[derive(Debug, Clone, PartialEq, Eq)]
pub struct ChatProxyRequest {
    /// The model asked for.
    pub model: String,
    /// The conversation so far.
    pub messages: Vec<ChatMessage>,
    /// Who is asking, when known.
    pub user_id: Option<String>,
    /// A caller-chosen request id, when given.
    pub request_id: Option<String>,
}

/// The message contents joined by single spaces.
pub open spec fn joined_contents(messages: Seq<ChatMessage>) -> Seq<char>
    decreases messages.len(),
{
    if messages.len() == 0 {
        Seq::empty()
    } else if messages.len() == 1 {
        messages[0].content@
    } else {
        joined_contents(messages.drop_last()) + " "@ + messages.last().content@
    }
}

impl ChatProxyRequest {
    /// A rough token count: the number of white-space separated words in all
    /// message contents, or `None` when there is no text at all.
    pub fn estimated_tokens(&self) -> (r: Option<usize>)
        ensures
            joined_contents(self.messages@).len() == 0 ==> r is None,
            joined_contents(self.messages@).len() > 0 ==> r == Some(
                word_count(joined_contents(self.messages@)) as usize,
            ),
    {
        let n = self.messages.len();
        let mut text = String::new();
        let mut i: usize = 0;
        assert(self.messages@.take(0) =~= Seq::<ChatMessage>::empty());
        while i < n
            invariant
                n == self.messages@.len(),
                i <= n,
                text@ == joined_contents(self.messages@.take(i as int)),
            decreases n - i,
        {
            assert(self.messages@.take(i + 1).drop_last() =~= self.messages@.take(i as int));
            assert(self.messages@.take(i + 1).last() == self.messages@[i as int]);
            if i == 0 {
                text = self.messages[i].content.clone();
                assert(self.messages@.take(1)[0] == self.messages@[0]);
            } else {
                text = crate::text::join3(text.as_str(), " ", self.messages[i].content.as_str());
            }
            i = i + 1;
        }
        assert(self.messages@.take(n as int) =~= self.messages@);
        if text.as_str().is_empty() {
            None
        } else {
            Some(count_words(text.as_str()))
        }
    }
}

/// How strong a filter decision is: allow < warn < redact < block.
pub open spec fn rank(d: FilterDecision) -> u8 {
    match d {
        FilterDecision::Allow => 0,
        FilterDecision::Warn => 1,
        FilterDecision::Redact => 2,
        FilterDecision::Block => 3,
    }
}

/// The strength of a filter decision.
pub fn decision_rank(decision: FilterDecision) -> (r: u8)
    ensures
        r == rank(decision),
{
    match decision {
        FilterDecision::Allow => 0,
        FilterDecision::Warn => 1,
        FilterDecision::Redact => 2,
        FilterDecision::Block => 3,
    }
}

/// The stronger of two filter decisions (the first on a tie).
pub fn combine_decisions(a: FilterDecision, b: FilterDecision) -> (r: FilterDecision)
    ensures
        r == if rank(a) >= rank(b) {
            a
        } else {
            b
        },
{
    if decision_rank(a) >= decision_rank(b) {
        a
    } else {
        b
    }
}

/// Combining filter decisions keeps the strongest: the result is one of the
/// two, at least as strong as each, and the order of the two does not matter.
pub proof fn law_combine_keeps_strongest(a: FilterDecision, b: FilterDecision)
    ensures
        rank(if rank(a) >= rank(b) { a } else { b }) >= rank(a),
        rank(if rank(a) >= rank(b) { a } else { b }) >= rank(b),
        (if rank(a) >= rank(b) { a } else { b }) == (if rank(b) >= rank(a) { b } else { a }),
{
}

/// Errors from running the proxy's listener.
#[derive(Debug, Clone, PartialEq, Eq)]
pub enum ServerError {
    /// The listener could not be bound.
    BindFailed(String),
    /// The server stopped with an error.
    ServerFailed(String),
    /// The configured address could not be resolved.
    InvalidAddress(String),
}

impl ServerError {
    /// The text of the error.
    pub fn message(&self) -> (r: String)
        ensures
            r@ == match self {
                ServerError::BindFailed(m) => "failed to bind listener: "@ + m@,
                ServerError::ServerFailed(m) => "server encountered an error: "@ + m@,
                ServerError::InvalidAddress(m) => "invalid listen address: "@ + m@,
            },
    {
        match self {
            ServerError::BindFailed(m) => join2("failed to bind listener: ", m.as_str()),
            ServerError::ServerFailed(m) => join2("server encountered an error: ", m.as_str()),
            ServerError::InvalidAddress(m) => join2("invalid listen address: ", m.as_str()),
        }
    }
}


// ---------------------------------------------------------------------------
// A model's JSON reply
// ---------------------------------------------------------------------------

/// A JSON value.
#[derive(Debug, PartialEq, Eq)]
pub enum Json {
    Null,
    Bool(bool),
    /// A number, kept as its JSON text.
    Number(String),
    Str(String),
    Array(Vec<Json>),
    /// An object's members in order; a well-formed object has distinct keys.
    Object(Vec<(String, Json)>),
}

/// The value of the first member named `key`.
pub open spec fn member(fields: Seq<(String, Json)>, key: Seq<char>) -> Option<Json>
    decreases fields.len(),
{
    if fields.len() == 0 {
        None
    } else if fields[0].0@ == key {
        Some(fields[0].1)
    } else {
        member(fields.drop_first(), key)
    }
}

/// The value of member `key` of an object; `None` for anything else.
pub open spec fn get(value: Json, key: Seq<char>) -> Option<Json> {
    match value {
        Json::Object(fields) => member(fields@, key),
        _ => None,
    }
}

/// The text of a JSON string.
pub open spec fn as_text(value: Option<Json>) -> Option<Seq<char>> {
    match value {
        Some(Json::Str(s)) => Some(s@),
        _ => None,
    }
}

/// `choice.message.content`, when it is a string.
pub open spec fn choice_text(choice: Json) -> Option<Seq<char>> {
    match get(choice, "message"@) {
        Some(message) => as_text(get(message, "content"@)),
        None => None,
    }
}

/// The text of the first choice that has one.
pub open spec fn first_choice_text(choices: Seq<Json>) -> Option<Seq<char>>
    decreases choices.len(),
{
    if choices.len() == 0 {
        None
    } else {
        match choice_text(choices[0]) {
            Some(t) => Some(t),
            None => first_choice_text(choices.drop_first()),
        }
    }
}

/// The text of a model's reply: the message content of the first choice
/// that has one, otherwise a top-level `content` string.
pub open spec fn reply_text(value: Json) -> Option<Seq<char>> {
    let from_choices = match get(value, "choices"@) {
        Some(Json::Array(items)) => first_choice_text(items@),
        _ => None,
    };
    match from_choices {
        Some(t) => Some(t),
        None => as_text(get(value, "content"@)),
    }
}

fn member_of<'a>(fields: &'a Vec<(String, Json)>, key: &str) -> (r: Option<&'a Json>)
    ensures
        match r {
            Some(j) => member(fields@, key@) == Some(*j),
            None => member(fields@, key@) is None,
        },
{
    let n = fields.len();
    let mut i: usize = 0;
    assert(fields@.skip(0) =~= fields@);
    while i < n
        invariant
            n == fields@.len(),
            i <= n,
            member(fields@, key@) == member(fields@.skip(i as int), key@),
        decreases n - i,
    {
        assert(fields@.skip(i as int)[0] == fields@[i as int]);
        assert(fields@.skip(i as int).drop_first() =~= fields@.skip(i + 1));
        if str_eq(fields[i].0.as_str(), key) {
            return Some(&fields[i].1);
        }
        i = i + 1;
    }
    None
}

fn get_of<'a>(value: &'a Json, key: &str) -> (r: Option<&'a Json>)
    ensures
        match r {
            Some(j) => get(*value, key@) == Some(*j),
            None => get(*value, key@) is None,
        },
{
    match value {
        Json::Object(fields) => member_of(fields, key),
        _ => None,
    }
}

fn text_of(value: Option<&Json>) -> (r: Option<String>)
    ensures
        opt_view(r) == as_text(
            match value {
                Some(j) => Some(*j),
                None => None,
            },
        ),
{
    match value {
        Some(Json::Str(s)) => Some(s.clone()),
        _ => None,
    }
}

fn text_of_choice(choice: &Json) -> (r: Option<String>)
    ensures
        opt_view(r) == choice_text(*choice),
{
    match get_of(choice, "message") {
        Some(message) => text_of(get_of(message, "content")),
        None => None,
    }
}

/// The text of a model's reply: the message content of the first choice
/// that has one, otherwise a top-level `content` string.
pub fn extract_output_text(value: &Json) -> (r: Option<String>)
    ensures
        opt_view(r) == reply_text(*value),
{
    if let Some(Json::Array(choices)) = get_of(value, "choices") {
        let n = choices.len();
        let mut i: usize = 0;
        assert(choices@.skip(0) =~= choices@);
        while i < n
            invariant
                n == choices@.len(),
                i <= n,
                first_choice_text(choices@) == first_choice_text(choices@.skip(i as int)),
                reply_text(*value) == match first_choice_text(choices@) {
                    Some(t) => Some(t),
                    None => as_text(get(*value, "content"@)),
                },
            decreases n - i,
        {
            assert(choices@.skip(i as int)[0] == choices@[i as int]);
            assert(choices@.skip(i as int).drop_first() =~= choices@.skip(i + 1));
            let found = text_of_choice(&choices[i]);
            if found.is_some() {
                assert(first_choice_text(choices@.skip(i as int)) == opt_view(found));
                return found;
            }
            i = i + 1;
        }
        assert(choices@.skip(n as int) =~= Seq::<Json>::empty());
    }
    text_of(get_of(value, "content"))
}

/// What redaction puts in place of a message's content.
pub open spec fn redaction_marker() -> Seq<char> {
    "[redacted by veridion]"@
}

/// `value` is a JSON string holding the redaction marker.
pub open spec fn is_marker(value: Json) -> bool {
    value matches Json::Str(s) && s@ == redaction_marker()
}

/// `out` has the members of `fields`, in order and under the same keys, with
/// every member named `content` replaced by the marker.
pub open spec fn content_redacted(fields: Seq<(String, Json)>, out: Seq<(String, Json)>) -> bool {
    &&& out.len() == fields.len()
    &&& forall|i: int|
        0 <= i < fields.len() ==> {
            &&& (#[trigger] out[i]).0 == fields[i].0
            &&& if fields[i].0@ == "content"@ {
                is_marker(out[i].1)
            } else {
                out[i].1 == fields[i].1
            }
        }
}

/// A message with its content redacted; anything but an object is kept.
pub open spec fn message_redacted(message: Json, out: Json) -> bool {
    match message {
        Json::Object(fields) => out matches Json::Object(o) && content_redacted(fields@, o@),
        _ => out == message,
    }
}

/// `out` has the members of `fields` with every member named `message`
/// redacted.
pub open spec fn messages_redacted(fields: Seq<(String, Json)>, out: Seq<(String, Json)>) -> bool {
    &&& out.len() == fields.len()
    &&& forall|i: int|
        0 <= i < fields.len() ==> {
            &&& (#[trigger] out[i]).0 == fields[i].0
            &&& if fields[i].0@ == "message"@ {
                message_redacted(fields[i].1, out[i].1)
            } else {
                out[i].1 == fields[i].1
            }
        }
}

/// A choice with its message redacted; anything but an object is kept.
pub open spec fn choice_redacted(choice: Json, out: Json) -> bool {
    match choice {
        Json::Object(fields) => out matches Json::Object(o) && messages_redacted(fields@, o@),
        _ => out == choice,
    }
}

/// A list of choices, each redacted; anything but an array is kept.
pub open spec fn choices_redacted(choices: Json, out: Json) -> bool {
    match choices {
        Json::Array(items) => out matches Json::Array(o) && o@.len() == items@.len() && forall|
            i: int,
        |
            0 <= i < items@.len() ==> choice_redacted(items@[i], #[trigger] o@[i]),
        _ => out == choices,
    }
}

/// `out` has the members of a reply object with every choice's message
/// content and a top-level `content` replaced by the marker.
pub open spec fn reply_members_redacted(
    fields: Seq<(String, Json)>,
    out: Seq<(String, Json)>,
) -> bool {
    &&& out.len() == fields.len()
    &&& forall|i: int|
        0 <= i < fields.len() ==> {
            &&& (#[trigger] out[i]).0 == fields[i].0
            &&& if fields[i].0@ == "choices"@ {
                choices_redacted(fields[i].1, out[i].1)
            } else if fields[i].0@ == "content"@ {
                is_marker(out[i].1)
            } else {
                out[i].1 == fields[i].1
            }
        }
}

/// A reply with its text redacted: in an object, every choice's message
/// content and a top-level `content`; a bare string becomes the marker;
/// anything else is kept.
pub open spec fn reply_redacted(payload: Json, out: Json) -> bool {
    match payload {
        Json::Object(fields) => out matches Json::Object(o) && reply_members_redacted(fields@, o@),
        Json::Str(_) => is_marker(out),
        _ => out == payload,
    }
}

fn marker() -> (r: Json)
    ensures
        is_marker(r),
{
    Json::Str(String::from_str("[redacted by veridion]"))
}

fn redact_content_members(fields: Vec<(String, Json)>) -> (out: Vec<(String, Json)>)
    ensures
        content_redacted(fields@, out@),
{
    let ghost orig = fields@;
    let mut out: Vec<(String, Json)> = Vec::new();
    for entry in it: fields.into_iter()
        invariant
            it.seq() == orig,
            out@.len() == it.index(),
            forall|j: int|
                0 <= j < it.index() ==> {
                    &&& (#[trigger] out@[j]).0 == orig[j].0
                    &&& if orig[j].0@ == "content"@ {
                        is_marker(out@[j].1)
                    } else {
                        out@[j].1 == orig[j].1
                    }
                },
    {
        let (key, value) = entry;
        if str_eq(key.as_str(), "content") {
            out.push((key, marker()));
        } else {
            out.push((key, value));
        }
    }
    out
}

fn redact_message(message: Json) -> (r: Json)
    ensures
        message_redacted(message, r),
{
    match message {
        Json::Object(fields) => Json::Object(redact_content_members(fields)),
        other => other,
    }
}

fn redact_message_members(fields: Vec<(String, Json)>) -> (out: Vec<(String, Json)>)
    ensures
        messages_redacted(fields@, out@),
{
    let ghost orig = fields@;
    let mut out: Vec<(String, Json)> = Vec::new();
    for entry in it: fields.into_iter()
        invariant
            it.seq() == orig,
            out@.len() == it.index(),
            forall|j: int|
                0 <= j < it.index() ==> {
                    &&& (#[trigger] out@[j]).0 == orig[j].0
                    &&& if orig[j].0@ == "message"@ {
                        message_redacted(orig[j].1, out@[j].1)
                    } else {
                        out@[j].1 == orig[j].1
                    }
                },
    {
        let (key, value) = entry;
        if str_eq(key.as_str(), "message") {
            out.push((key, redact_message(value)));
        } else {
            out.push((key, value));
        }
    }
    out
}

fn redact_choice(choice: Json) -> (r: Json)
    ensures
        choice_redacted(choice, r),
{
    match choice {
        Json::Object(fields) => Json::Object(redact_message_members(fields)),
        other => other,
    }
}

fn redact_choices(choices: Json) -> (r: Json)
    ensures
        choices_redacted(choices, r),
{
    match choices {
        Json::Array(items) => {
            let ghost orig = items@;
            let mut out: Vec<Json> = Vec::new();
            for item in it: items.into_iter()
                invariant
                    it.seq() == orig,
                    out@.len() == it.index(),
                    forall|j: int| 0 <= j < it.index() ==> choice_redacted(orig[j], #[trigger] out@[j]),
            {
                out.push(redact_choice(item));
            }
            Json::Array(out)
        },
        other => other,
    }
}

fn redact_reply_members(fields: Vec<(String, Json)>) -> (out: Vec<(String, Json)>)
    ensures
        reply_members_redacted(fields@, out@),
{
    let ghost orig = fields@;
    let mut out: Vec<(String, Json)> = Vec::new();
    for entry in it: fields.into_iter()
        invariant
            it.seq() == orig,
            out@.len() == it.index(),
            forall|j: int|
                0 <= j < it.index() ==> {
                    &&& (#[trigger] out@[j]).0 == orig[j].0
                    &&& if orig[j].0@ == "choices"@ {
                        choices_redacted(orig[j].1, out@[j].1)
                    } else if orig[j].0@ == "content"@ {
                        is_marker(out@[j].1)
                    } else {
                        out@[j].1 == orig[j].1
                    }
                },
    {
        let (key, value) = entry;
        if str_eq(key.as_str(), "choices") {
            out.push((key, redact_choices(value)));
        } else if str_eq(key.as_str(), "content") {
            out.push((key, marker()));
        } else {
            out.push((key, value));
        }
    }
    out
}

/// Redact a model's reply: in an object, every choice's message content and
/// a top-level `content` become `[redacted by veridion]`; a bare string
/// becomes that marker; anything else is returned as it is.
pub fn apply_redaction(payload: Json) -> (r: Json)
    ensures
        reply_redacted(payload, r),
{
    match payload {
        Json::Object(fields) => Json::Object(redact_reply_members(fields)),
        Json::Str(_) => marker(),
        other => other,
    }
}

} // verus!
