//! What comes back: the model's replies, the router's complaints, and the
//! answers of tools.

use vstd::prelude::*;

use crate::json;
use crate::json::{Json, JsonView};
use crate::json_text;
use crate::json_text::parse_json;
use crate::text;
use crate::text::{join, trim};

verus! {

/// A tool and the arguments that it is called with, as JSON text.
pub struct ToolCallFunction {
    pub name: String,
    pub arguments: String,
}

/// One call of a tool that the model asks for.
pub struct ToolCall {
    pub id: String,
    pub kind: Option<String>,
    pub function: ToolCallFunction,
}

/// What the model says: text, calls of tools, or both.
pub struct ResponseMessage {
    pub content: Option<String>,
    pub tool_calls: Option<Vec<ToolCall>>,
}

/// One of the answers that a reply offers.
pub struct Choice {
    pub message: ResponseMessage,
}

/// A reply of the model.
pub struct ChatResponse {
    pub choices: Vec<Choice>,
}

/// The mathematical value of a `ToolCall`. Its kind is of no consequence.
pub struct CallView {
    pub id: Seq<char>,
    pub name: Seq<char>,
    pub arguments: Seq<char>,
}

/// The mathematical value of a `ResponseMessage`: a missing list of calls is
/// an empty one.
pub struct ReplyView {
    pub content: Option<Seq<char>>,
    pub calls: Seq<CallView>,
}

impl View for ToolCall {
    type V = CallView;

    open spec fn view(&self) -> CallView {
        CallView {
            id: self.id@,
            name: self.function.name@,
            arguments: self.function.arguments@,
        }
    }
}

/// Views of a list of calls.
pub open spec fn call_views(calls: Seq<ToolCall>) -> Seq<CallView> {
    calls.map_values(|call: ToolCall| call@)
}

impl View for ResponseMessage {
    type V = ReplyView;

    open spec fn view(&self) -> ReplyView {
        ReplyView {
            content: text::opt_string(self.content),
            calls: match self.tool_calls {
                Some(calls) => call_views(calls@),
                None => Seq::empty(),
            },
        }
    }
}

impl View for ChatResponse {
    type V = Seq<ReplyView>;

    open spec fn view(&self) -> Seq<ReplyView> {
        self.choices@.map_values(|choice: Choice| choice.message@)
    }
}

/// `{id, type: "function", function: {name, arguments}}`.
pub open spec fn call_entry_view(call: CallView) -> JsonView {
    JsonView::Object(
        map![
            "id"@ => JsonView::Str(call.id),
            "type"@ => JsonView::Str("function"@),
            "function"@ => JsonView::Object(
                map![
                    "name"@ => JsonView::Str(call.name),
                    "arguments"@ => JsonView::Str(call.arguments),
                ],
            ),
        ],
    )
}

/// The calls of a message as they stand in the conversation.
pub open spec fn calls_view(calls: Seq<CallView>) -> JsonView {
    JsonView::Array(calls.map_values(|call: CallView| call_entry_view(call)))
}

fn call_entry(call: &ToolCall) -> (entry: Json)
    ensures
        entry@ == call_entry_view(call@),
{
    let function = Json::object().with("name", Json::text(call.function.name.as_str())).with(
        "arguments",
        Json::text(call.function.arguments.as_str()),
    );
    Json::object().with("id", Json::text(call.id.as_str())).with(
        "type",
        Json::text("function"),
    ).with("function", function)
}

/// The calls of a message as they stand in the conversation.
pub fn calls_json(calls: &Vec<ToolCall>) -> (json: Json)
    ensures
        json@ == calls_view(call_views(calls@)),
{
    let mut entries: Vec<Json> = Vec::new();
    let mut i: usize = 0;
    while i < calls.len()
        invariant
            i <= calls@.len(),
            entries@.len() == i,
            forall|k: int| 0 <= k < i ==> (#[trigger] entries@[k])@ == call_entry_view(calls@[k]@),
        decreases calls@.len() - i,
    {
        entries.push(call_entry(&calls[i]));
        i += 1;
    }
    assert(json::views(entries@) =~= call_views(calls@).map_values(
        |call: CallView| call_entry_view(call),
    ));
    Json::array(entries)
}

/// The arguments that a tool is called with, by the outcome of reading their
/// text: an object is handed on, another value is not.
pub open spec fn outcome_arguments(outcome: Result<JsonView, Seq<char>>) -> Result<
    Option<JsonView>,
    Seq<char>,
> {
    match outcome {
        Ok(JsonView::Object(members)) => Ok(Some(JsonView::Object(members))),
        Ok(_) => Ok(None),
        Err(e) => Err(e),
    }
}

/// The arguments that a text stands for. White space stands for none.
pub open spec fn arguments_view(s: Seq<char>) -> Result<Option<JsonView>, Seq<char>> {
    if text::trimmed(s).len() == 0 {
        Ok(None)
    } else {
        outcome_arguments(json_text::parsed(text::trimmed(s)))
    }
}

/// The view of the arguments of a call.
pub open spec fn arguments_outcome(arguments: Result<Option<Json>, String>) -> Result<
    Option<JsonView>,
    Seq<char>,
> {
    match arguments {
        Ok(arguments) => Ok(json::opt_view(arguments)),
        Err(e) => Err(e@),
    }
}

/// The arguments that a tool is called with, by the outcome of reading their
/// text.
pub fn arguments_of(outcome: Result<Json, String>) -> (arguments: Result<Option<Json>, String>)
    ensures
        arguments_outcome(arguments) == outcome_arguments(json_text::outcome_view(outcome)),
{
    match outcome {
        Ok(Json::Object(entries)) => Ok(Some(Json::Object(entries))),
        Ok(_) => Ok(None),
        Err(e) => Err(e),
    }
}

/// Reads the arguments of a call.
pub fn parse_args(s: &str) -> (arguments: Result<Option<Json>, String>)
    ensures
        arguments_outcome(arguments) == arguments_view(s@),
{
    let trimmed = trim(s);
    if trimmed.as_str().is_empty() {
        Ok(None)
    } else {
        arguments_of(parse_json(trimmed.as_str()))
    }
}

/// The text at the end of a path of keys into a document.
pub open spec fn text_at(value: JsonView, first: Seq<char>, second: Seq<char>) -> Option<
    Seq<char>,
> {
    match json::member(value, first) {
        Some(inner) => json::text_member(inner, second),
        None => None,
    }
}

/// The `metadata` of the `error` in an envelope.
pub open spec fn error_metadata(envelope: JsonView) -> Option<JsonView> {
    match json::member(envelope, "error"@) {
        Some(error) => json::member(error, "metadata"@),
        None => None,
    }
}

/// The text of a member of the metadata of the error in an envelope.
pub open spec fn metadata_text(envelope: JsonView, key: Seq<char>) -> Option<Seq<char>> {
    match error_metadata(envelope) {
        Some(metadata) => json::text_member(metadata, key),
        None => None,
    }
}

/// The remark on a provider, where there is one.
pub open spec fn provider_remark(provider: Option<Seq<char>>) -> Option<Seq<char>> {
    match provider {
        Some(provider) => Some("(provider: "@ + provider + ")"@),
        None => None,
    }
}

/// The remark on the message of a provider's own error, where there is one.
pub open spec fn inner_remark(inner: Option<JsonView>) -> Option<Seq<char>> {
    match inner {
        Some(inner) => match json::text_member(inner, "message"@) {
            Some(message) => Some("— "@ + message),
            None => None,
        },
        None => None,
    }
}

/// What there is to say of an error envelope: its message, the provider, and
/// the message of the provider's own error, `inner`.
pub open spec fn error_parts(envelope: JsonView, inner: Option<JsonView>) -> Seq<Seq<char>> {
    let said = text::push_opt(Seq::empty(), text_at(envelope, "error"@, "message"@));
    let with_provider = text::push_opt(
        said,
        provider_remark(metadata_text(envelope, "provider_name"@)),
    );
    text::push_opt(with_provider, inner_remark(inner))
}

/// The message for an error envelope: what there is to say of it, or else the
/// body that it came in.
pub open spec fn envelope_message(
    body: Seq<char>,
    envelope: JsonView,
    inner: Option<JsonView>,
) -> Seq<char> {
    let parts = error_parts(envelope, inner);
    if parts.len() == 0 {
        body
    } else {
        text::joined(parts, " "@)
    }
}

/// The document that an outcome of reading gave.
pub open spec fn read_document(outcome: Result<JsonView, Seq<char>>) -> Option<JsonView> {
    match outcome {
        Ok(value) => Some(value),
        Err(_) => None,
    }
}

/// The message for the body of an error response.
pub open spec fn error_message_view(body: Seq<char>) -> Seq<char> {
    match json_text::parsed(body) {
        Ok(envelope) => envelope_message(
            body,
            envelope,
            match metadata_text(envelope, "raw"@) {
                Some(raw) => read_document(json_text::parsed(raw)),
                None => None,
            },
        ),
        Err(_) => body,
    }
}

fn metadata_str<'a>(envelope: &'a Json, key: &str) -> (s: Option<&'a str>)
    ensures
        text::opt_text(s) == metadata_text(envelope@, key@),
{
    match envelope.get("error") {
        Some(error) => match error.get("metadata") {
            Some(metadata) => metadata.get_str(key),
            None => None,
        },
        None => None,
    }
}

fn push_part(parts: &mut Vec<String>, part: Option<String>)
    ensures
        text::texts(final(parts)@) == text::push_opt(
            text::texts(old(parts)@),
            text::opt_string(part),
        ),
{
    match part {
        Some(part) => {
            let ghost said = text::texts(parts@);
            parts.push(part);
            assert(text::texts(parts@) =~= said.push(part@));
        },
        None => {},
    }
}

/// The message for an error envelope that came in `body`; `inner` is the
/// provider's own error, where it could be read.
pub fn compose_error_message(body: &str, envelope: &Json, inner: Option<&Json>) -> (message: String)
    ensures
        message@ == envelope_message(
            body@,
            envelope@,
            match inner {
                Some(inner) => Some(inner@),
                None => None,
            },
        ),
{
    let mut parts: Vec<String> = Vec::new();
    assert(text::texts(parts@) =~= Seq::empty());
    let said = match envelope.get("error") {
        Some(error) => match error.get_str("message") {
            Some(message) => Some(message.to_owned()),
            None => None,
        },
        None => None,
    };
    push_part(&mut parts, said);
    let provider = match metadata_str(envelope, "provider_name") {
        Some(provider) => Some("(provider: ".to_owned().concat(provider).concat(")")),
        None => None,
    };
    push_part(&mut parts, provider);
    let inner_message = match inner {
        Some(inner) => match inner.get_str("message") {
            Some(message) => Some("— ".to_owned().concat(message)),
            None => None,
        },
        None => None,
    };
    push_part(&mut parts, inner_message);
    assert(parts@.len() == text::texts(parts@).len());
    if parts.len() == 0 {
        body.to_owned()
    } else {
        join(&parts, " ")
    }
}

/// Pulls a message for people out of the body of an error response. The router
/// wraps the provider's own error, as text, into `error.metadata.raw`.
pub fn extract_error_message(body: &str) -> (message: String)
    ensures
        message@ == error_message_view(body@),
{
    match parse_json(body) {
        Ok(envelope) => {
            let inner = match metadata_str(&envelope, "raw") {
                Some(raw) => match parse_json(raw) {
                    Ok(inner) => Some(inner),
                    Err(_) => None,
                },
                None => None,
            };
            compose_error_message(
                body,
                &envelope,
                match &inner {
                    Some(inner) => Some(inner),
                    None => None,
                },
            )
        },
        Err(_) => body.to_owned(),
    }
}

/// The reason phrase that `http` has for a status, or its remark that it has
/// none.
pub uninterp spec fn status_reason(code: u16) -> Seq<char>;

/// A status as it is shown: its number and a reason phrase.
pub open spec fn status_view(code: u16) -> Seq<char> {
    text::decimal(code as nat) + " "@ + status_reason(code)
}

/// `http::StatusCode` as it displays itself: the number, a space and the
/// reason phrase. Numbers of three digits are statuses.
#[verifier::external_body]
pub(crate) fn status_text(code: u16) -> (s: String)
    requires
        100 <= code <= 999,
    ensures
        s@ == text::decimal(code as nat) + " "@ + status_reason(code),
{
    http::StatusCode::from_u16(code).unwrap().to_string()
}

/// Whether a status reports success.
pub open spec fn success(code: u16) -> bool {
    200 <= code < 300
}

/// Whether a status reports success.
pub fn is_success(code: u16) -> (yes: bool)
    ensures
        yes == success(code),
{
    200 <= code && code < 300
}

/// A reply is read as it came: its text, its calls in order, and of each call
/// the id, the tool and the arguments. A reply without a list of calls makes
/// none.
pub proof fn law_replies_seen(
    response: ChatResponse,
    message: ResponseMessage,
    calls: Vec<ToolCall>,
    i: int,
)
    requires
        message.tool_calls == Some(calls),
        0 <= i < calls@.len(),
    ensures
        message@.content == text::opt_string(message.content),
        message@.calls.len() == calls@.len(),
        message@.calls[i].id == calls@[i].id@,
        message@.calls[i].name == calls@[i].function.name@,
        message@.calls[i].arguments == calls@[i].function.arguments@,
        (ResponseMessage { content: message.content, tool_calls: None })@.calls.len() == 0,
        (ResponseMessage { content: message.content, tool_calls: None })@.content
            == message@.content,
        response@.len() == response.choices@.len(),
        forall|k: int|
            0 <= k < response@.len() ==> #[trigger] response@[k] == response.choices@[k].message@,
{
}

/// What is reported of a refused request. Of a body that is JSON: the message
/// of the error, then the provider in brackets, then behind a dash the message
/// within what the provider itself said, each where it is there and with a
/// space between every two. Where none is there, and where the body is no JSON,
/// the body itself.
pub proof fn law_error_message(body: Seq<char>, envelope: JsonView)
    requires
        json_text::parsed(body) == Ok::<JsonView, Seq<char>>(envelope),
    ensures
        ({
            let error = json::member(envelope, "error"@);
            let message = match error {
                Some(error) => json::text_member(error, "message"@),
                None => None,
            };
            let metadata = match error {
                Some(error) => json::member(error, "metadata"@),
                None => None,
            };
            let provider = match metadata {
                Some(metadata) => json::text_member(metadata, "provider_name"@),
                None => None,
            };
            let raw = match metadata {
                Some(metadata) => json::text_member(metadata, "raw"@),
                None => None,
            };
            let inner = match raw {
                Some(raw) => match json_text::parsed(raw) {
                    Ok(said) => json::text_member(said, "message"@),
                    Err(_) => None,
                },
                None => None,
            };
            let reported = error_message_view(body);
            match (message, provider, inner) {
                (None, None, None) => reported == body,
                (Some(m), None, None) => reported == m,
                (None, Some(p), None) => reported == "(provider: "@ + p + ")"@,
                (None, None, Some(s)) => reported == "— "@ + s,
                (Some(m), Some(p), None) => reported == m + " "@ + ("(provider: "@ + p + ")"@),
                (Some(m), None, Some(s)) => reported == m + " "@ + ("— "@ + s),
                (None, Some(p), Some(s)) => reported == ("(provider: "@ + p + ")"@) + " "@ + ("— "@
                    + s),
                (Some(m), Some(p), Some(s)) => reported == m + " "@ + ("(provider: "@ + p + ")"@)
                    + " "@ + ("— "@ + s),
            }
        }),
{
    reveal_with_fuel(text::joined, 4);
    let inner = match metadata_text(envelope, "raw"@) {
        Some(raw) => read_document(json_text::parsed(raw)),
        None => None,
    };
    let parts = error_parts(envelope, inner);
    if parts.len() == 2 {
        assert(parts.drop_last().len() == 1 && parts.drop_last()[0] == parts[0]);
    } else if parts.len() == 3 {
        assert(parts.drop_last().len() == 2 && parts.drop_last().last() == parts[1]);
        assert(parts.drop_last().drop_last()[0] == parts[0]);
    }
}

/// A body that is no JSON is reported as it is.
pub proof fn law_plain_error_message(body: Seq<char>)
    requires
        json_text::parsed(body) is Err,
    ensures
        error_message_view(body) == body,
{
}

} // verus!
