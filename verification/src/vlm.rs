//! What is sent to the models and what is made of their replies.
use vstd::prelude::*;
use base64::Engine;
use crate::config::{Config, ConfigView, VlmConfig, VlmView};
use crate::downscale::bytes_result;
use crate::json::{first_member, items_view, json_result, list, members_view, number, object, streamed_json, text, with_member, written_json, Json, JsonView};
use crate::scan::{clip, first_chars, strip_trailing, without_trailing};
use crate::text::{cat2, cat3, cat4, decimal, decimal_text, headers_view, one, text_result, texts};

verus! {

/// What the model is told before it sees a screenshot.
pub const SYSTEM_PROMPT: &'static str = r#"You are a TV screen analyzer. You receive one screenshot of a Samsung TV screen. Respond with ONLY a single JSON object — no markdown fences, no prose — exactly matching this schema:
{
  "screen_type": "string (e.g. live_tv, streaming_app, menu, game)",
  "title": "string, short headline of what's on screen",
  "summary": "string, 1-3 sentence description",
  "detected_elements": [ { "name": "string", "description": "string", "confidence": 0.0 } ],
  "suggested_actions": [ "string" ],
  "error": null
}
confidence is a number between 0 and 1. error must be null on success."#;

/// What the model is asked along with a screenshot.
pub const USER_PROMPT: &'static str = "Analyze this TV screen and return the JSON object described in the system prompt.";

// ---------------------------------------------------------------------------
// Base64

/// The character that stands for six bits in standard Base64.
pub open spec fn base64_char(bits: int) -> char {
    if bits < 26 {
        ((65 + bits) as u8) as char
    } else if bits < 52 {
        ((97 + bits - 26) as u8) as char
    } else if bits < 62 {
        ((48 + bits - 52) as u8) as char
    } else if bits == 62 {
        '+'
    } else {
        '/'
    }
}

/// Standard Base64 with padding: four characters for every three bytes, the last
/// group filled up with `=`.
pub open spec fn base64_text(b: Seq<u8>) -> Seq<char>
    decreases b.len(),
{
    if b.len() == 0 {
        Seq::empty()
    } else if b.len() == 1 {
        seq![base64_char((b[0] / 4) as int), base64_char((b[0] % 4) * 16), '=', '=']
    } else if b.len() == 2 {
        seq![
            base64_char((b[0] / 4) as int),
            base64_char((b[0] % 4) * 16 + b[1] / 16),
            base64_char((b[1] % 16) * 4),
            '=',
        ]
    } else {
        seq![
            base64_char((b[0] / 4) as int),
            base64_char((b[0] % 4) * 16 + b[1] / 16),
            base64_char((b[1] % 16) * 4 + b[2] / 64),
            base64_char((b[2] % 64) as int),
        ] + base64_text(b.skip(3))
    }
}

/// Whether the Base64 of so many bytes can be held in memory.
pub open spec fn encodable(len: nat) -> bool {
    (len + 2) / 3 * 4 <= isize::MAX
}

/// Calls `encode` of the `base64` crate's engine `general_purpose::STANDARD`, which
/// writes the bytes in the standard alphabet with padding. It panics where the text
/// would not fit in memory.
#[verifier::external_body]
fn base64_encode(bytes: &Vec<u8>) -> (s: String)
    requires
        encodable(bytes@.len()),
    ensures
        s@ == base64_text(bytes@),
{
    base64::engine::general_purpose::STANDARD.encode(bytes)
}

// ---------------------------------------------------------------------------
// Requests

/// A request to an OpenAI-compatible endpoint: a POST of a JSON body.
#[derive(Debug, PartialEq)]
pub struct ChatRequest {
    pub url: String,
    pub headers: Vec<(String, String)>,
    pub timeout_secs: u64,
    pub body: Json,
    /// What is noted before the request is sent.
    pub notes: Vec<String>,
}

pub struct ChatView {
    pub url: Seq<char>,
    pub headers: Seq<(Seq<char>, Seq<char>)>,
    pub timeout_secs: u64,
    pub body: JsonView,
    pub notes: Seq<Seq<char>>,
}

impl View for ChatRequest {
    type V = ChatView;

    open spec fn view(&self) -> ChatView {
        ChatView {
            url: self.url@,
            headers: headers_view(self.headers@),
            timeout_secs: self.timeout_secs,
            body: self.body@,
            notes: texts(self.notes@),
        }
    }
}

impl ChatRequest {
    /// The text of the body.
    pub fn payload(&self) -> (s: String)
        ensures
            s@ == written_json(self.body@),
    {
        self.body.write()
    }
}

/// The URL of an endpoint's chat completions.
pub open spec fn chat_url(base_url: Seq<char>) -> Seq<char> {
    without_trailing(base_url, '/') + "/chat/completions"@
}

/// The headers of a request to an endpoint.
pub open spec fn chat_headers(api_key: Option<Seq<char>>) -> Seq<(Seq<char>, Seq<char>)> {
    match api_key {
        Some(key) => seq![
            ("Content-Type"@, "application/json"@),
            ("Authorization"@, "Bearer "@ + key),
        ],
        None => seq![("Content-Type"@, "application/json"@)],
    }
}

/// What is noted of a request to an endpoint.
pub open spec fn chat_note(ep: VlmView) -> Seq<char> {
    "POST "@ + chat_url(ep.base_url) + " model="@ + ep.model
}

/// The request that puts a body to an endpoint.
pub open spec fn chat(ep: VlmView, body: JsonView) -> ChatView {
    ChatView {
        url: chat_url(ep.base_url),
        headers: chat_headers(ep.api_key),
        timeout_secs: ep.timeout_secs,
        body,
        notes: seq![chat_note(ep)],
    }
}

/// Puts a body to an endpoint.
pub fn chat_completion(ep: &VlmConfig, body: Json) -> (request: ChatRequest)
    ensures
        request@ == chat(ep@, body@),
{
    let base = strip_trailing(ep.base_url.as_str(), '/');
    let mut headers: Vec<(String, String)> = Vec::new();
    headers.push(("Content-Type".to_owned(), "application/json".to_owned()));
    match &ep.api_key {
        Some(key) => {
            headers.push(("Authorization".to_owned(), cat2("Bearer ", key.as_str())));
        },
        None => {},
    }
    assert(headers_view(headers@) =~= chat_headers(ep@.api_key));
    let url = cat2(base.as_str(), "/chat/completions");
    let notes = one(cat4("POST ", url.as_str(), " model=", ep.model.as_str()));
    ChatRequest { url, headers, timeout_secs: ep.timeout_secs, body, notes }
}

/// A body for a model: deterministic, of bounded length, with messages.
pub open spec fn chat_body(ep: VlmView, messages: Seq<JsonView>) -> JsonView {
    JsonView::Object(
        seq![
            ("model"@, JsonView::Text(ep.model)),
            ("temperature"@, JsonView::Number(decimal_text(0))),
            ("max_tokens"@, JsonView::Number(decimal_text(ep.max_tokens as nat))),
            ("messages"@, JsonView::List(messages)),
        ],
    )
}

/// Writes a body for a model.
fn write_body(ep: &VlmConfig, messages: Vec<Json>) -> (body: Json)
    ensures
        body@ == chat_body(ep@, items_view(messages@)),
{
    let m = first_member("model", text(ep.model.as_str()));
    let m = with_member(m, "temperature", number(0));
    let m = with_member(m, "max_tokens", number(ep.max_tokens as u64));
    let m = with_member(m, "messages", list(messages));
    assert(members_view(m@) =~= chat_body(ep@, items_view(messages@))->Object_0);
    object(m)
}

/// A message of a role.
pub open spec fn message(role: Seq<char>, content: JsonView) -> JsonView {
    JsonView::Object(seq![("role"@, JsonView::Text(role)), ("content"@, content)])
}

/// Writes a message.
fn write_message(role: &str, content: Json) -> (value: Json)
    ensures
        value@ == message(role@, content@),
{
    let m = with_member(first_member("role", text(role)), "content", content);
    assert(members_view(m@) =~= message(role@, content@)->Object_0);
    object(m)
}

/// An image, inline, as a URL.
pub open spec fn data_uri(png: Seq<u8>) -> Seq<char> {
    "data:image/png;base64,"@ + base64_text(png)
}

/// What the user says to the model: the screenshot, and what to do with it.
pub open spec fn question(png: Seq<u8>) -> JsonView {
    JsonView::List(
        seq![
            JsonView::Object(
                seq![
                    ("type"@, JsonView::Text("image_url"@)),
                    (
                        "image_url"@,
                        JsonView::Object(seq![("url"@, JsonView::Text(data_uri(png)))]),
                    ),
                ],
            ),
            JsonView::Object(
                seq![("type"@, JsonView::Text("text"@)), ("text"@, JsonView::Text(USER_PROMPT@))],
            ),
        ],
    )
}

/// Writes what the user says to the model.
fn write_question(png: &Vec<u8>) -> (value: Json)
    requires
        encodable(png@.len()),
    ensures
        value@ == question(png@),
{
    let encoded = base64_encode(png);
    let uri = cat2("data:image/png;base64,", encoded.as_str());
    let link = object(first_member("url", text(uri.as_str())));
    let image_part = object(
        with_member(first_member("type", text("image_url")), "image_url", link),
    );
    let text_part = object(
        with_member(first_member("type", text("text")), "text", text(USER_PROMPT)),
    );
    let mut parts: Vec<Json> = Vec::new();
    parts.push(image_part);
    parts.push(text_part);
    proof {
        let q = question(png@)->List_0;
        assert(link@->Object_0 =~= q[0]->Object_0[1].1->Object_0);
        assert(image_part@->Object_0 =~= q[0]->Object_0);
        assert(text_part@->Object_0 =~= q[1]->Object_0);
        assert(items_view(parts@) =~= q);
    }
    list(parts)
}

/// What is noted of an image of so many bytes.
pub open spec fn payload_note(len: nat) -> Seq<char> {
    "image payload "@ + decimal_text(len) + " bytes"@
}

/// The request for the analysis of a screenshot.
pub open spec fn analysis_request(c: ConfigView, png: Seq<u8>) -> ChatView {
    ChatView {
        notes: seq![payload_note(png.len()), chat_note(c.vlm)],
        ..chat(
            c.vlm,
            chat_body(
                c.vlm,
                seq![
                    message("system"@, JsonView::Text(SYSTEM_PROMPT@)),
                    message("user"@, question(png)),
                ],
            ),
        )
    }
}

/// Asks the model for the analysis of a screenshot.
fn ask_about(cfg: &Config, png: &Vec<u8>) -> (request: ChatRequest)
    requires
        encodable(png@.len()),
    ensures
        request@ == analysis_request(cfg@, png@),
{
    let mut messages: Vec<Json> = Vec::new();
    messages.push(write_message("system", text(SYSTEM_PROMPT)));
    messages.push(write_message("user", write_question(png)));
    assert(items_view(messages@) =~= seq![
        message("system"@, JsonView::Text(SYSTEM_PROMPT@)),
        message("user"@, question(png@)),
    ]);
    let mut request = chat_completion(&cfg.vlm, write_body(&cfg.vlm, messages));
    let size = decimal(png.len() as u64);
    let mut notes = one(cat3("image payload ", size.as_str(), " bytes"));
    let ghost first = texts(notes@);
    let ghost second = texts(request.notes@);
    notes.append(&mut request.notes);
    assert(texts(notes@) =~= first + second);
    assert(texts(notes@) =~= analysis_request(cfg@, png@).notes);
    ChatRequest { notes, ..request }
}

/// What is to be sent for the image that was prepared. Without an image nothing is
/// sent: the analysis fails for the reason that there is none.
pub open spec fn analysis(c: ConfigView, image: Result<Seq<u8>, Seq<char>>) -> Result<
    ChatView,
    Seq<char>,
> {
    match image {
        Ok(png) => Ok(analysis_request(c, png)),
        Err(e) => Err(e),
    }
}

/// What a request, or a failure, holds.
pub open spec fn request_result(r: Result<ChatRequest, String>) -> Result<ChatView, Seq<char>> {
    match r {
        Ok(request) => Ok(request@),
        Err(e) => Err(e@),
    }
}

/// Asks the model for the analysis of the image that was prepared, if there is one.
pub fn analyze(cfg: &Config, image: Result<Vec<u8>, String>) -> (r: Result<ChatRequest, String>)
    requires
        image matches Ok(png) ==> encodable(png@.len()),
    ensures
        request_result(r) == analysis(cfg@, bytes_result(image)),
{
    match image {
        Ok(png) => Ok(ask_about(cfg, &png)),
        Err(e) => Err(e),
    }
}

/// What a model is asked that repairs an answer.
pub open spec fn repair_prompt(broken: Seq<char>, schema_hint: Seq<char>) -> Seq<char> {
    "Repair the following text so it becomes a single valid JSON object that matches this schema. Return ONLY the JSON object, with no markdown fences and no commentary.\n\nSchema:\n"@
        + schema_hint + "\n\nText to repair:\n"@ + broken
}

/// The request for the repair of an answer.
pub open spec fn repair_request(
    c: ConfigView,
    broken: Seq<char>,
    schema_hint: Seq<char>,
) -> ChatView {
    chat(
        c.repair_endpoint(),
        chat_body(
            c.repair_endpoint(),
            seq![message("user"@, JsonView::Text(repair_prompt(broken, schema_hint)))],
        ),
    )
}

/// Asks the repair endpoint to make an answer fit the schema.
pub fn repair(cfg: &Config, broken: &str, schema_hint: &str) -> (request: ChatRequest)
    ensures
        request@ == repair_request(cfg@, broken@, schema_hint@),
{
    let ep = cfg.llm_endpoint();
    let prompt = cat4(
        "Repair the following text so it becomes a single valid JSON object that matches this schema. Return ONLY the JSON object, with no markdown fences and no commentary.\n\nSchema:\n",
        schema_hint,
        "\n\nText to repair:\n",
        broken,
    );
    let mut messages: Vec<Json> = Vec::new();
    messages.push(write_message("user", text(prompt.as_str())));
    assert(items_view(messages@) =~= seq![
        message("user"@, JsonView::Text(repair_prompt(broken@, schema_hint@))),
    ]);
    chat_completion(ep, write_body(ep, messages))
}

// ---------------------------------------------------------------------------
// Replies

/// What came of a request.
#[derive(Debug, PartialEq)]
pub enum ChatOutcome {
    /// The endpoint refused: the HTTP status and the body as text.
    Status { code: u16, text: String },
    /// The endpoint could not be reached; why.
    Unreachable(String),
    /// The reply could not be read; whether time ran out, and why.
    Unread { timed_out: bool, text: String },
    /// The reply.
    Reply(Vec<u8>),
}

/// The text of the first choice in a reply.
pub open spec fn first_choice(reply: JsonView) -> Option<Seq<char>> {
    match reply.get("choices"@) {
        Some(choices) => match choices.nth(0) {
            Some(choice) => match choice.get("message"@) {
                Some(message) => match message.get("content"@) {
                    Some(content) => content.as_text(),
                    None => None,
                },
                None => None,
            },
            None => None,
        },
        None => None,
    }
}

/// The answer that a reply gives, or why it gives none.
pub open spec fn reply_answer(reply: Result<JsonView, Seq<char>>) -> Result<Seq<char>, Seq<char>> {
    match reply {
        Ok(v) => match first_choice(v) {
            Some(content) => Ok(content),
            None => Err("VLM response missing choices[0].message.content"@),
        },
        Err(e) => Err("VLM response was not JSON: Failed to read JSON: "@ + e),
    }
}

/// The answer that the outcome of a request gives, or why it gives none.
pub open spec fn answer(outcome: ChatOutcome) -> Result<Seq<char>, Seq<char>> {
    match outcome {
        ChatOutcome::Status { code, text } => Err(
            "VLM endpoint returned HTTP "@ + decimal_text(code as nat) + ": "@ + first_chars(
                text@,
                300,
            ),
        ),
        ChatOutcome::Unreachable(e) => Err("VLM request failed: "@ + e@),
        ChatOutcome::Unread { timed_out, text } => if timed_out {
            Err("VLM response was not JSON: "@ + text@)
        } else {
            Err("VLM response was not JSON: Failed to read JSON: "@ + text@)
        },
        ChatOutcome::Reply(bytes) => reply_answer(streamed_json(bytes@)),
    }
}

/// Finds the text of the first choice in a reply.
fn read_choice(reply: &Json) -> (content: Option<&String>)
    ensures
        match content {
            Some(s) => first_choice(reply@) == Some(s@),
            None => first_choice(reply@) is None,
        },
{
    let choices = match reply.get("choices") {
        Some(v) => v,
        None => {
            return None;
        },
    };
    let choice = match choices.nth(0) {
        Some(v) => v,
        None => {
            return None;
        },
    };
    let message = match choice.get("message") {
        Some(v) => v,
        None => {
            return None;
        },
    };
    match message.get("content") {
        Some(Json::Text(s)) => Some(s),
        _ => None,
    }
}

/// Reads the answer from what parsing made of a reply.
pub fn read_answer(reply: Result<Json, String>) -> (r: Result<String, String>)
    ensures
        text_result(r) == reply_answer(json_result(reply)),
{
    match reply {
        Ok(v) => match read_choice(&v) {
            Some(content) => Ok(content.clone()),
            None => Err("VLM response missing choices[0].message.content".to_owned()),
        },
        Err(e) => Err(cat2("VLM response was not JSON: Failed to read JSON: ", e.as_str())),
    }
}

/// Reads the answer from the outcome of a request.
pub fn chat_answer(outcome: ChatOutcome) -> (r: Result<String, String>)
    ensures
        text_result(r) == answer(outcome),
{
    match outcome {
        ChatOutcome::Status { code, text } => {
            let status = decimal(code as u64);
            let start = clip(text.as_str(), 300);
            Err(cat4("VLM endpoint returned HTTP ", status.as_str(), ": ", start.as_str()))
        },
        ChatOutcome::Unreachable(e) => Err(cat2("VLM request failed: ", e.as_str())),
        ChatOutcome::Unread { timed_out, text } => if timed_out {
            Err(cat2("VLM response was not JSON: ", text.as_str()))
        } else {
            Err(cat2("VLM response was not JSON: Failed to read JSON: ", text.as_str()))
        },
        ChatOutcome::Reply(bytes) => read_answer(Json::read(&bytes)),
    }
}

// ---------------------------------------------------------------------------
// Laws

/// Slashes at the end of a base URL make no difference.
pub proof fn law_trailing_slash(base_url: Seq<char>)
    ensures
        chat_url(base_url.push('/')) == chat_url(base_url),
{
    assert(base_url.push('/').drop_last() =~= base_url);
}

proof fn lemma_base64_chars(x: int, y: int)
    requires
        0 <= x < 64,
        0 <= y < 64,
    ensures
        base64_char(x) == base64_char(y) ==> x == y,
        base64_char(x) != '=',
        base64_char(y) != '=',
{
}

/// Different bytes have different Base64.
pub proof fn law_base64_distinct(a: Seq<u8>, b: Seq<u8>)
    requires
        base64_text(a) == base64_text(b),
    ensures
        a == b,
    decreases a.len(),
{
    let s = base64_text(a);
    let t = base64_text(b);
    if a.len() > 0 && b.len() > 0 {
        let a1 = if a.len() > 1 { a[1] } else { 0 };
        let b1 = if b.len() > 1 { b[1] } else { 0 };
        let a2 = if a.len() > 2 { a[2] } else { 0 };
        let b2 = if b.len() > 2 { b[2] } else { 0 };
        assert(s[0] == t[0] && s[1] == t[1] && s[2] == t[2] && s[3] == t[3]);
        lemma_base64_chars((a[0] / 4) as int, (b[0] / 4) as int);
        lemma_base64_chars((a[0] % 4) * 16 + a1 / 16, (b[0] % 4) * 16 + b1 / 16);
        lemma_base64_chars((a1 % 16) * 4 + a2 / 64, (b1 % 16) * 4 + b2 / 64);
        lemma_base64_chars((a2 % 64) as int, (b2 % 64) as int);
        if a.len() > 3 || b.len() > 3 || (a.len() == 3 && b.len() == 3) {
            assert(s.skip(4) =~= t.skip(4));
            if a.len() >= 3 {
                assert(s.skip(4) =~= base64_text(a.skip(3)));
            } else {
                assert(s.skip(4) =~= Seq::<char>::empty());
            }
            if b.len() >= 3 {
                assert(t.skip(4) =~= base64_text(b.skip(3)));
            } else {
                assert(t.skip(4) =~= Seq::<char>::empty());
            }
            if a.len() >= 3 && b.len() >= 3 {
                law_base64_distinct(a.skip(3), b.skip(3));
                assert(a =~= seq![a[0], a[1], a[2]] + a.skip(3));
                assert(b =~= seq![b[0], b[1], b[2]] + b.skip(3));
            }
        }
    }
    assert(a.len() == 0 <==> s.len() == 0);
    assert(b.len() == 0 <==> t.len() == 0);
    assert(a.len() == b.len());
    assert(a =~= b);
}

/// Only the analysis endpoint counts for an analysis: neither the repair endpoint nor
/// any other setting changes what is sent, and it goes to the analysis endpoint.
pub proof fn law_analysis_goes_by_its_endpoint(
    a: ConfigView,
    b: ConfigView,
    image: Result<Seq<u8>, Seq<char>>,
)
    requires
        a.vlm == b.vlm,
    ensures
        analysis(a, image) == analysis(b, image),
        analysis(a, image) matches Ok(request) ==> request.url == chat_url(a.vlm.base_url),
{
}

/// Without an image nothing is sent, and the analysis fails for that reason.
pub proof fn law_no_image_no_request(c: ConfigView, image: Result<Seq<u8>, Seq<char>>)
    ensures
        analysis(c, image) is Ok <==> image is Ok,
        image matches Err(e) ==> analysis(c, image) == Err::<ChatView, Seq<char>>(e),
{
}

/// The model's text is handed on as it is: not checked, trimmed or stripped of fences.
pub proof fn law_answer_is_untouched(reply: JsonView, content: Seq<char>)
    requires
        first_choice(reply) == Some(content),
    ensures
        reply_answer(Ok(reply)) == Ok::<Seq<char>, Seq<char>>(content),
{
}

/// Repairs go to the repair endpoint, with the broken text whole and last.
pub proof fn law_repair_holds_the_text(c: ConfigView, broken: Seq<char>, schema_hint: Seq<char>)
    ensures
        repair_request(c, broken, schema_hint).url == chat_url(c.repair_endpoint().base_url),
        repair_prompt(broken, schema_hint).skip(
            repair_prompt(broken, schema_hint).len() - broken.len(),
        ) == broken,
{
    let p = repair_prompt(broken, schema_hint);
    assert(p.skip(p.len() - broken.len()) =~= broken);
}

/// Two screenshots that the model is asked about in the same way are the same.
pub proof fn law_screenshot_is_sent_whole(c: ConfigView, a: Seq<u8>, b: Seq<u8>)
    requires
        analysis_request(c, a) == analysis_request(c, b),
    ensures
        a == b,
{
    let ma = analysis_request(c, a).body->Object_0[3].1->List_0;
    let mb = analysis_request(c, b).body->Object_0[3].1->List_0;
    let qa = ma[1]->Object_0[1].1->List_0;
    let qb = mb[1]->Object_0[1].1->List_0;
    assert(qa == question(a)->List_0);
    assert(qb == question(b)->List_0);
    let ua = qa[0]->Object_0[1].1->Object_0[0].1;
    let ub = qb[0]->Object_0[1].1->Object_0[0].1;
    assert(ua == JsonView::Text(data_uri(a)));
    assert(ub == JsonView::Text(data_uri(b)));
    let n = "data:image/png;base64,"@.len() as int;
    assert(data_uri(a).skip(n) =~= base64_text(a));
    assert(data_uri(b).skip(n) =~= base64_text(b));
    law_base64_distinct(a, b);
}

// ---------------------------------------------------------------------------
// Laws: what is sent

/// Whether a request carries what an endpoint asks for: its address, its timeout, a JSON
/// body, and its key just if it has one.
pub open spec fn is_addressed_to(r: ChatView, ep: VlmView) -> bool {
    &&& r.url == chat_url(ep.base_url)
    &&& r.timeout_secs == ep.timeout_secs
    &&& r.headers.contains(("Content-Type"@, "application/json"@))
    &&& ep.api_key matches Some(key) ==> r.headers.contains(("Authorization"@, "Bearer "@ + key))
        && r.headers.len() == 2
    &&& ep.api_key is None ==> r.headers.len() == 1 && forall|i: int|
        0 <= i < r.headers.len() ==> (#[trigger] r.headers[i]).0 != "Authorization"@
}

proof fn lemma_addressed(r: ChatView, ep: VlmView, body: JsonView)
    requires
        r.url == chat(ep, body).url,
        r.headers == chat(ep, body).headers,
        r.timeout_secs == chat(ep, body).timeout_secs,
    ensures
        is_addressed_to(r, ep),
{
    reveal_strlit("Content-Type");
    reveal_strlit("Authorization");
    assert("Content-Type"@.len() == 12);
    assert("Authorization"@.len() == 13);
    assert(r.headers[0] == ("Content-Type"@, "application/json"@));
    if let Some(key) = ep.api_key {
        assert(r.headers[1] == ("Authorization"@, "Bearer "@ + key));
    }
}

/// A question about a screenshot goes to the analysis endpoint, with its key if it has
/// one; a repair goes to the repair endpoint, with its key if it has one.
pub proof fn law_requests_are_addressed(
    c: ConfigView,
    png: Seq<u8>,
    broken: Seq<char>,
    schema_hint: Seq<char>,
)
    ensures
        analysis(c, Ok(png)) matches Ok(r) && is_addressed_to(r, c.vlm),
        is_addressed_to(
            repair_request(c, broken, schema_hint),
            match c.llm {
                Some(llm) => llm,
                None => c.vlm,
            },
        ),
{
    let r = analysis_request(c, png);
    lemma_addressed(r, c.vlm, r.body);
    let q = repair_request(c, broken, schema_hint);
    lemma_addressed(q, c.repair_endpoint(), q.body);
}

/// An address is the base URL, without slashes at its end, and the path of chat
/// completions.
pub proof fn law_url(base_url: Seq<char>)
    requires
        base_url.len() == 0 || base_url.last() != '/',
    ensures
        chat_url(base_url) == base_url + "/chat/completions"@,
{
}

proof fn lemma_body_members(ep: VlmView, messages: Seq<JsonView>)
    ensures
        ({
            let b = chat_body(ep, messages);
            &&& b.get("model"@) == Some(JsonView::Text(ep.model))
            &&& b.get("temperature"@) == Some(JsonView::Number("0"@))
            &&& b.get("max_tokens"@) == Some(JsonView::Number(decimal_text(ep.max_tokens as nat)))
            &&& b.get("messages"@) == Some(JsonView::List(messages))
        }),
{
    reveal_strlit("model");
    reveal_strlit("temperature");
    reveal_strlit("max_tokens");
    reveal_strlit("messages");
    reveal_strlit("0");
    reveal_with_fuel(crate::json::found_under, 5);
    assert("model"@.len() == 5);
    assert("temperature"@.len() == 11);
    assert("max_tokens"@.len() == 10);
    assert("messages"@.len() == 8);
    assert(decimal_text(0) =~= "0"@);
    let m = chat_body(ep, messages)->Object_0;
    assert(m[0].0 == "model"@);
    assert(m.skip(1)[0].0 == "temperature"@);
    assert(m.skip(1).skip(1)[0].0 == "max_tokens"@);
    assert(m.skip(1).skip(1).skip(1)[0].0 == "messages"@);
}

proof fn lemma_message_members(role: Seq<char>, content: JsonView)
    ensures
        message(role, content).get("role"@) == Some(JsonView::Text(role)),
        message(role, content).get("content"@) == Some(content),
{
    reveal_strlit("role");
    reveal_strlit("content");
    reveal_with_fuel(crate::json::found_under, 3);
    assert("role"@.len() == 4);
    assert("content"@.len() == 7);
    let m = message(role, content)->Object_0;
    assert(m[0].0 == "role"@);
    assert(m.skip(1)[0].0 == "content"@);
}

proof fn lemma_question_parts(png: Seq<u8>)
    ensures
        question(png).nth(0) matches Some(i) && i.get("type"@) == Some(JsonView::Text("image_url"@))
            && (i.get("image_url"@) matches Some(link) && link.get("url"@) == Some(
            JsonView::Text("data:image/png;base64,"@ + base64_text(png)),
        )),
        question(png).nth(1) matches Some(t) && t.get("type"@) == Some(JsonView::Text("text"@))
            && t.get("text"@) == Some(JsonView::Text(USER_PROMPT@)),
        question(png).nth(2) is None,
{
    reveal_strlit("type");
    reveal_strlit("image_url");
    reveal_strlit("url");
    reveal_strlit("text");
    reveal_with_fuel(crate::json::found_under, 3);
    assert("type"@.len() == 4);
    assert("image_url"@.len() == 9);
    assert("text"@.len() == 4);
    assert("type"@[1] == 'y');
    assert("text"@[1] == 'e');
    let i = question(png)->List_0[0]->Object_0;
    assert(i[0].0 == "type"@);
    assert(i.skip(1)[0].0 == "image_url"@);
    let t = question(png)->List_0[1]->Object_0;
    assert(t[0].0 == "type"@);
    assert(t.skip(1)[0].0 == "text"@);
}

/// Whether a message is of a role and has a content.
pub open spec fn is_message(m: Option<JsonView>, role: Seq<char>, content: JsonView) -> bool {
    m matches Some(v) && v.get("role"@) == Some(JsonView::Text(role)) && v.get("content"@) == Some(
        content,
    )
}

/// Whether a body asks a model of an endpoint, with its bound on the answer, and without
/// chance.
pub open spec fn asks_model(body: JsonView, ep: VlmView) -> bool {
    &&& body.get("model"@) == Some(JsonView::Text(ep.model))
    &&& body.get("temperature"@) == Some(JsonView::Number("0"@))
    &&& body.get("max_tokens"@) == Some(JsonView::Number(decimal_text(ep.max_tokens as nat)))
}

/// A question about a screenshot holds the system prompt, then the screenshot inline and
/// the user prompt, in two messages.
pub proof fn law_question_holds_screenshot(c: ConfigView, png: Seq<u8>)
    ensures
        analysis(c, Ok(png)) matches Ok(r) && asks_model(r.body, c.vlm) && (r.body.get("messages"@)
            matches Some(m) && is_message(m.nth(0), "system"@, JsonView::Text(SYSTEM_PROMPT@)) && (
        m.nth(1) matches Some(user) && user.get("role"@) == Some(JsonView::Text("user"@)) && (
        user.get("content"@) matches Some(q) && {
            &&& q.nth(0) matches Some(i) && i.get("type"@) == Some(JsonView::Text("image_url"@)) && (
            i.get("image_url"@) matches Some(link) && link.get("url"@) == Some(
                JsonView::Text("data:image/png;base64,"@ + base64_text(png)),
            ))
            &&& q.nth(1) matches Some(t) && t.get("type"@) == Some(JsonView::Text("text"@))
                && t.get("text"@) == Some(JsonView::Text(USER_PROMPT@))
            &&& q.nth(2) is None
        })) && m.nth(2) is None),
{
    let messages = seq![
        message("system"@, JsonView::Text(SYSTEM_PROMPT@)),
        message("user"@, question(png)),
    ];
    lemma_body_members(c.vlm, messages);
    lemma_message_members("system"@, JsonView::Text(SYSTEM_PROMPT@));
    lemma_message_members("user"@, question(png));
    lemma_question_parts(png);
}

/// A repair is one message of the user, in words: what to do, the schema, and the text to
/// repair, whole and last.
pub proof fn law_repair_asks_for_repair(c: ConfigView, broken: Seq<char>, schema_hint: Seq<char>)
    ensures
        ({
            let ep = match c.llm {
                Some(llm) => llm,
                None => c.vlm,
            };
            let r = repair_request(c, broken, schema_hint);
            let todo =
                "Repair the following text so it becomes a single valid JSON object that matches this schema. Return ONLY the JSON object, with no markdown fences and no commentary.\n\nSchema:\n"@;
            &&& asks_model(r.body, ep)
            &&& r.body.get("messages"@) matches Some(m) && is_message(
                m.nth(0),
                "user"@,
                JsonView::Text(todo + schema_hint + "\n\nText to repair:\n"@ + broken),
            ) && m.nth(1) is None
        }),
{
    let ep = c.repair_endpoint();
    let prompt = JsonView::Text(repair_prompt(broken, schema_hint));
    lemma_body_members(ep, seq![message("user"@, prompt)]);
    lemma_message_members("user"@, prompt);
}

/// Before a question the size of the image is noted, and before each request where it
/// goes and to which model.
pub proof fn law_requests_are_noted(
    c: ConfigView,
    png: Seq<u8>,
    broken: Seq<char>,
    schema_hint: Seq<char>,
)
    ensures
        analysis(c, Ok(png)) matches Ok(r) && r.notes == seq![
            "image payload "@ + decimal_text(png.len()) + " bytes"@,
            "POST "@ + r.url + " model="@ + c.vlm.model,
        ],
        ({
            let r = repair_request(c, broken, schema_hint);
            let ep = match c.llm {
                Some(llm) => llm,
                None => c.vlm,
            };
            r.notes == seq!["POST "@ + r.url + " model="@ + ep.model]
        }),
{
}

// ---------------------------------------------------------------------------
// Laws: what is made of replies

/// The answer is the content of the message of the first choice, and there is one just if
/// all of these are there and the content is a text.
pub proof fn law_answer_is_first_choice(reply: JsonView, content: Seq<char>)
    ensures
        reply_answer(Ok(reply)) == Ok::<Seq<char>, Seq<char>>(content) <==> (reply.get("choices"@)
            matches Some(choices) && (choices.nth(0) matches Some(choice) && (choice.get(
            "message"@,
        ) matches Some(m) && m.get("content"@) == Some(JsonView::Text(content))))),
        reply_answer(Ok(reply)) matches Err(e) ==> e
            == "VLM response missing choices[0].message.content"@,
{
}

/// Refusals, failures to connect, failures to read and replies that are no JSON are
/// failures, each in its words. Of a refusal's text the first 300 characters count.
pub proof fn law_failed_requests(code: u16, text: String, timed_out: bool, bytes: Vec<u8>)
    ensures
        answer(ChatOutcome::Status { code, text }) matches Err(e) && (text@.len() <= 300 ==> e
            == "VLM endpoint returned HTTP "@ + decimal_text(code as nat) + ": "@ + text@) && (
        text@.len() > 300 ==> e == "VLM endpoint returned HTTP "@ + decimal_text(code as nat)
            + ": "@ + text@.take(300)),
        answer(ChatOutcome::Unreachable(text)) == Err::<Seq<char>, Seq<char>>(
            "VLM request failed: "@ + text@,
        ),
        answer(ChatOutcome::Unread { timed_out: true, text }) == Err::<Seq<char>, Seq<char>>(
            "VLM response was not JSON: "@ + text@,
        ),
        answer(ChatOutcome::Unread { timed_out: false, text }) == Err::<Seq<char>, Seq<char>>(
            "VLM response was not JSON: Failed to read JSON: "@ + text@,
        ),
        streamed_json(bytes@) matches Err(e) ==> answer(ChatOutcome::Reply(bytes)) == Err::<
            Seq<char>,
            Seq<char>,
        >("VLM response was not JSON: Failed to read JSON: "@ + e),
        streamed_json(bytes@) matches Ok(v) ==> answer(ChatOutcome::Reply(bytes)) == reply_answer(
            Ok(v),
        ),
{
}

// ---------------------------------------------------------------------------
// Laws: Base64

/// Four characters stand for every three bytes begun.
pub proof fn law_base64_length(b: Seq<u8>)
    ensures
        base64_text(b).len() == (b.len() + 2) / 3 * 4,
    decreases b.len(),
{
    if b.len() >= 3 {
        law_base64_length(b.skip(3));
    }
}

/// Whole groups of three bytes can be written one after the other.
pub proof fn law_base64_by_groups(a: Seq<u8>, b: Seq<u8>)
    requires
        a.len() % 3 == 0,
    ensures
        base64_text(a + b) == base64_text(a) + base64_text(b),
    decreases a.len(),
{
    if a.len() > 0 {
        let w = a + b;
        assert(w.skip(3) =~= a.skip(3) + b);
        assert(w[0] == a[0] && w[1] == a[1] && w[2] == a[2]);
        law_base64_by_groups(a.skip(3), b);
        assert(base64_text(w) =~= base64_text(a) + base64_text(b));
    } else {
        assert(a + b =~= b);
        assert(base64_text(a) + base64_text(b) =~= base64_text(b));
    }
}

/// The model is told the very schema that a repair is asked to meet, between what it is
/// and what else it is to heed.
#[verifier::rlimit(60)]
pub proof fn law_one_schema_for_all()
    ensures
        SYSTEM_PROMPT@
            == "You are a TV screen analyzer. You receive one screenshot of a Samsung TV screen. Respond with ONLY a single JSON object — no markdown fences, no prose — exactly matching this schema:\n"@
            + crate::validate::SCHEMA_HINT@ + "\nconfidence is a number between 0 and 1. error must be null on success."@,
        USER_PROMPT@
            == "Analyze this TV screen and return the JSON object described in the system prompt."@,
{
    reveal_strlit(
        r#"You are a TV screen analyzer. You receive one screenshot of a Samsung TV screen. Respond with ONLY a single JSON object — no markdown fences, no prose — exactly matching this schema:
{
  "screen_type": "string (e.g. live_tv, streaming_app, menu, game)",
  "title": "string, short headline of what's on screen",
  "summary": "string, 1-3 sentence description",
  "detected_elements": [ { "name": "string", "description": "string", "confidence": 0.0 } ],
  "suggested_actions": [ "string" ],
  "error": null
}
confidence is a number between 0 and 1. error must be null on success."#,
    );
    reveal_strlit("You are a TV screen analyzer. You receive one screenshot of a Samsung TV screen. Respond with ONLY a single JSON object — no markdown fences, no prose — exactly matching this schema:\n");
    reveal_strlit("{\n  \"screen_type\": \"string (e.g. live_tv, streaming_app, menu, game)\",\n  \"title\": \"string, short headline of what's on screen\",\n  \"summary\": \"string, 1-3 sentence description\",\n  \"detected_elements\": [ { \"name\": \"string\", \"description\": \"string\", \"confidence\": 0.0 } ],\n  \"suggested_actions\": [ \"string\" ],\n  \"error\": null\n}");
    reveal_strlit("\nconfidence is a number between 0 and 1. error must be null on success.");
}

} // verus!
