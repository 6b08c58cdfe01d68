//! What travels to clients: the events of a streamed response and the bodies
//! of the plain responses.
use crate::template::same_text;
use vstd::prelude::*;

verus! {

/// What the generation worker hands to the request handler.
#[derive(Debug, Clone, PartialEq, Eq)]
pub enum StreamToken {
    /// A text delta.
    Token(String),
    /// The generation is over.
    Done,
    /// The generation failed with this message.
    Error(String),
}

/// The result of a generation given in one piece.
#[derive(Debug, Clone, PartialEq, Eq)]
pub struct InferenceResponse {
    pub text: String,
    pub tokens_generated: usize,
}

/// The body of a blocking inference response.
#[derive(Debug, Clone, PartialEq, Eq)]
pub struct InferenceApiResponse {
    pub text: String,
    pub tokens_generated: usize,
}

impl InferenceApiResponse {
    /// The body for a finished generation.
    pub fn from_response(r: InferenceResponse) -> (out: Self)
        ensures
            out.text == r.text,
            out.tokens_generated == r.tokens_generated,
    {
        InferenceApiResponse { text: r.text, tokens_generated: r.tokens_generated }
    }
}

/// The body listing the loaded models.
#[derive(Debug, Clone, PartialEq, Eq)]
pub struct LoadedModelsResponse {
    pub models: Vec<String>,
}

/// The lower-case hexadecimal digit of `n`, for `n < 16`.
pub open spec fn hex_digit(n: int) -> char {
    seq!['0', '1', '2', '3', '4', '5', '6', '7', '8', '9', 'a', 'b', 'c', 'd', 'e', 'f'][n]
}

/// How a character is written inside a JSON string: quote and backslash
/// escaped, the short escapes for backspace, tab, newline, form feed and
/// carriage return, `\u00XX` for the other control characters, and every
/// other character as it is.
pub open spec fn json_escape_char(c: char) -> Seq<char> {
    if c == '"' {
        seq!['\\', '"']
    } else if c == '\\' {
        seq!['\\', '\\']
    } else if c == '\u{8}' {
        seq!['\\', 'b']
    } else if c == '\t' {
        seq!['\\', 't']
    } else if c == '\n' {
        seq!['\\', 'n']
    } else if c == '\u{c}' {
        seq!['\\', 'f']
    } else if c == '\r' {
        seq!['\\', 'r']
    } else if (c as u32) < 32 {
        seq!['\\', 'u', '0', '0', hex_digit(c as int / 16), hex_digit(c as int % 16)]
    } else {
        seq![c]
    }
}

/// The characters of `s`, each written as inside a JSON string.
pub open spec fn json_escaped(s: Seq<char>) -> Seq<char>
    decreases s.len(),
{
    if s.len() == 0 {
        Seq::empty()
    } else {
        json_escaped(s.drop_last()) + json_escape_char(s.last())
    }
}

/// The JSON string literal of `s`, quotes and escapes included.
pub open spec fn json_quoted(s: Seq<char>) -> Seq<char> {
    seq!['"'] + json_escaped(s) + seq!['"']
}

/// Relies on `serde_json::to_string` on a string: its JSON literal, escaped
/// as `json_escape_char` states. Writing a `str` to a `String` cannot fail,
/// so the error arm is never taken.
#[verifier::external_body]
fn quote_json(s: &str) -> (r: String)
    ensures
        r@ == json_quoted(s@),
{
    match serde_json::to_string(s) {
        Ok(q) => q,
        Err(_) => String::new(),
    }
}

/// The opening of a text event's JSON object.
pub open spec fn text_open() -> Seq<char> {
    "{\"text\":"@
}

/// The payload of a content event around an already quoted JSON string.
pub fn frame_text(quoted: &str) -> (r: String)
    ensures
        r@ == text_open() + quoted@ + "}"@,
{
    let mut out = String::new();
    out.append("{\"text\":");
    out.append(quoted);
    out.append("}");
    out
}

/// The payload of a content event: `{"text":...}` holding `delta`.
pub fn text_event(delta: &str) -> (r: String)
    ensures
        r@ == text_open() + json_quoted(delta@) + "}"@,
{
    let q = quote_json(delta);
    frame_text(q.as_str())
}

/// The first event of a stream, naming the model that answers.
pub fn model_event(name: &str) -> (r: String)
    ensures
        r@ == "[MODEL: "@ + name@ + "]"@,
{
    let mut out = String::new();
    out.append("[MODEL: ");
    out.append(name);
    out.append("]");
    out
}

/// The last event of a stream that ended normally.
pub fn done_event() -> (r: String)
    ensures
        r@ == "[DONE]"@,
{
    "[DONE]".to_owned()
}

/// The last event of a stream that failed.
pub fn error_event(message: &str) -> (r: String)
    ensures
        r@ == "[ERROR] "@ + message@,
{
    let mut out = String::new();
    out.append("[ERROR] ");
    out.append(message);
    out
}

/// The event that carries a worker's token to the client.
pub fn frame_stream_token(t: &StreamToken) -> (r: String)
    ensures
        r@ == match t {
            StreamToken::Token(d) => text_open() + json_quoted(d@) + "}"@,
            StreamToken::Done => "[DONE]"@,
            StreamToken::Error(e) => "[ERROR] "@ + e@,
        },
{
    match t {
        StreamToken::Token(d) => text_event(d.as_str()),
        StreamToken::Done => done_event(),
        StreamToken::Error(e) => error_event(e.as_str()),
    }
}

/// Whether `s` begins with `p`.
pub open spec fn begins_with(s: Seq<char>, p: Seq<char>) -> bool {
    p.len() <= s.len() && s.subrange(0, p.len() as int) == p
}

/// Whether `s` begins with `p`.
pub fn starts_with(s: &str, p: &str) -> (r: bool)
    ensures
        r == begins_with(s@, p@),
{
    let n = p.unicode_len();
    if n > s.unicode_len() {
        return false;
    }
    let mut i: usize = 0;
    while i < n
        invariant
            n == p@.len(),
            n <= s@.len(),
            i <= n,
            forall|k: int| 0 <= k < i ==> s@[k] == p@[k],
        decreases n - i,
    {
        if s.get_char(i) != p.get_char(i) {
            proof {
                assert(s@.subrange(0, n as int)[i as int] != p@[i as int]);
            }
            return false;
        }
        i = i + 1;
    }
    proof {
        assert(s@.subrange(0, n as int) =~= p@);
    }
    true
}

/// A stream event as a client reads it.
#[derive(Debug, Clone, PartialEq, Eq)]
pub enum StreamEvent {
    /// `[MODEL: name]`: which model answers.
    Model(String),
    /// A content event: a JSON text object or a raw delta.
    Content(String),
    /// `[DONE]`: the stream ended normally.
    Done,
    /// `[ERROR] message`: the stream failed.
    Error(String),
}

/// A stream event with its text as character sequences.
pub enum EventView {
    Model(Seq<char>),
    Content(Seq<char>),
    Done,
    Error(Seq<char>),
}

impl StreamEvent {
    /// The event with its text as character sequences.
    pub open spec fn view(&self) -> EventView {
        match self {
            StreamEvent::Model(n) => EventView::Model(n@),
            StreamEvent::Content(c) => EventView::Content(c@),
            StreamEvent::Done => EventView::Done,
            StreamEvent::Error(m) => EventView::Error(m@),
        }
    }
}

/// How a client reads the payload `s` of an event.
pub open spec fn classify(s: Seq<char>) -> EventView {
    if s == "[DONE]"@ {
        EventView::Done
    } else if begins_with(s, "[MODEL: "@) && s.len() > 8 && s.last() == ']' {
        EventView::Model(s.subrange(8, s.len() - 1))
    } else if begins_with(s, "[ERROR] "@) {
        EventView::Error(s.subrange(8, s.len() as int))
    } else {
        EventView::Content(s)
    }
}

/// Tells the sentinels of a stream from its content events.
pub fn classify_event(payload: &str) -> (r: StreamEvent)
    ensures
        r.view() == classify(payload@),
{
    proof {
        reveal_strlit("[MODEL: ");
        reveal_strlit("[ERROR] ");
    }
    let n = payload.unicode_len();
    if same_text(payload, "[DONE]") {
        StreamEvent::Done
    } else if starts_with(payload, "[MODEL: ") && n > 8 && payload.get_char(n - 1) == ']' {
        StreamEvent::Model(payload.substring_char(8, n - 1).to_owned())
    } else if starts_with(payload, "[ERROR] ") {
        StreamEvent::Error(payload.substring_char(8, n).to_owned())
    } else {
        StreamEvent::Content(payload.to_owned())
    }
}

/// Every event the server frames reads back as what it was: the model
/// banner names the model, an error event carries its message, the final
/// event reads as the end, and a content event, whatever its text, is never
/// taken for a sentinel.
pub proof fn lemma_events_distinguishable(name: Seq<char>, message: Seq<char>, quoted: Seq<char>)
    ensures
        classify("[MODEL: "@ + name + "]"@) == EventView::Model(name),
        classify("[ERROR] "@ + message) == EventView::Error(message),
        classify("[DONE]"@) == EventView::Done,
        classify(text_open() + quoted + "}"@) == EventView::Content(text_open() + quoted + "}"@),
{
    reveal_strlit("[MODEL: ");
    reveal_strlit("[ERROR] ");
    reveal_strlit("[DONE]");
    reveal_strlit("]");
    reveal_strlit("{\"text\":");
    let m = "[MODEL: "@ + name + "]"@;
    assert(m.subrange(0, 8) =~= "[MODEL: "@);
    assert(m.subrange(8, m.len() - 1) =~= name);
    assert(m[1] == 'M');
    assert(m != "[DONE]"@) by {
        assert("[DONE]"@[1] == 'D');
    }
    let e = "[ERROR] "@ + message;
    assert(e.subrange(0, 8) =~= "[ERROR] "@);
    assert(e.subrange(8, e.len() as int) =~= message);
    assert(e != "[DONE]"@) by {
        assert(e.len() >= 8);
    }
    assert(!begins_with(e, "[MODEL: "@)) by {
        assert(e[1] == 'E');
        if begins_with(e, "[MODEL: "@) {
            assert(e.subrange(0, 8)[1] == 'M');
        }
    }
    let t = text_open() + quoted + "}"@;
    assert(t[0] == '{');
    assert(t != "[DONE]"@) by {
        assert("[DONE]"@[0] == '[');
    }
    assert(!begins_with(t, "[MODEL: "@)) by {
        if begins_with(t, "[MODEL: "@) {
            assert(t.subrange(0, 8)[0] == '[');
        }
    }
    assert(!begins_with(t, "[ERROR] "@)) by {
        if begins_with(t, "[ERROR] "@) {
            assert(t.subrange(0, 8)[0] == '[');
        }
    }
}

} // verus!
