//! The routes of the sidecar and the replies it gives.
use vstd::prelude::*;
use crate::json::{body_of, first_member, object, text, written_json, Body, BodyView, JsonView};
use crate::scan::{cut_at, up_to};
use crate::text::{cat2, cat4, decimal, decimal_text, headers_view, same_text};
use crate::validate::{error_object, failure, is_failure, law_failure_shape};

verus! {

// ---------------------------------------------------------------------------
// Replies

/// An HTTP reply: a status, headers, and a JSON body or none.
#[derive(Debug, PartialEq)]
pub struct Reply {
    pub status: u16,
    pub headers: Vec<(String, String)>,
    pub body: Option<Body>,
}

pub struct ReplyView {
    pub status: u16,
    pub headers: Seq<(Seq<char>, Seq<char>)>,
    pub body: Option<BodyView>,
}

impl View for Reply {
    type V = ReplyView;

    open spec fn view(&self) -> ReplyView {
        ReplyView {
            status: self.status,
            headers: headers_view(self.headers@),
            body: match self.body {
                Some(b) => Some(b@),
                None => None,
            },
        }
    }
}

/// The headers that let pages of any origin call the sidecar.
pub open spec fn cors() -> Seq<(Seq<char>, Seq<char>)> {
    seq![
        ("Access-Control-Allow-Origin"@, "*"@),
        ("Access-Control-Allow-Methods"@, "POST, GET, OPTIONS"@),
        ("Access-Control-Allow-Headers"@, "Content-Type"@),
        ("Access-Control-Expose-Headers"@, "X-Timings-Ms"@),
    ]
}

/// Adds a header.
fn add_header(headers: &mut Vec<(String, String)>, name: &str, value: &str)
    ensures
        headers_view(final(headers)@) == headers_view(old(headers)@).push((name@, value@)),
{
    let ghost before = headers_view(headers@);
    headers.push((name.to_owned(), value.to_owned()));
    assert(headers_view(headers@) =~= before.push((name@, value@)));
}

/// Adds the headers that let pages of any origin call the sidecar.
fn add_cors(headers: &mut Vec<(String, String)>)
    ensures
        headers_view(final(headers)@) == headers_view(old(headers)@) + cors(),
{
    let ghost before = headers_view(headers@);
    add_header(headers, "Access-Control-Allow-Origin", "*");
    add_header(headers, "Access-Control-Allow-Methods", "POST, GET, OPTIONS");
    add_header(headers, "Access-Control-Allow-Headers", "Content-Type");
    add_header(headers, "Access-Control-Expose-Headers", "X-Timings-Ms");
    assert(headers_view(headers@) =~= before + cors());
}

/// The headers that let pages of any origin call the sidecar.
pub fn cors_headers() -> (headers: Vec<(String, String)>)
    ensures
        headers_view(headers@) == cors(),
{
    let mut headers: Vec<(String, String)> = Vec::new();
    let ghost none = headers_view(headers@);
    add_cors(&mut headers);
    assert(none + cors() =~= cors());
    headers
}

/// A reply with a JSON body.
pub open spec fn json_reply(
    status: u16,
    body: BodyView,
    extra: Seq<(Seq<char>, Seq<char>)>,
) -> ReplyView {
    ReplyView {
        status,
        headers: seq![("Content-Type"@, "application/json"@)] + cors() + extra,
        body: Some(body),
    }
}

/// Replies with a JSON body.
pub fn json_response(status: u16, body: Body, extra: Vec<(String, String)>) -> (reply: Reply)
    ensures
        reply@ == json_reply(status, body@, headers_view(extra@)),
{
    let mut headers: Vec<(String, String)> = Vec::new();
    assert(headers_view(headers@) =~= Seq::<(Seq<char>, Seq<char>)>::empty());
    add_header(&mut headers, "Content-Type", "application/json");
    add_cors(&mut headers);
    let ghost before = headers_view(headers@);
    let ghost all = headers_view(extra@);
    let mut more = extra;
    headers.append(&mut more);
    assert(headers_view(headers@) =~= before + all);
    assert(before =~= seq![("Content-Type"@, "application/json"@)] + cors());
    Reply { status, headers, body: Some(body) }
}

// ---------------------------------------------------------------------------
// Routes

/// What is to be done about a request.
#[derive(Debug, PartialEq)]
pub enum Handling {
    /// To reply at once.
    Reply(Reply),
    /// To analyze the screen, then reply with [`analysis_reply`].
    Analyze,
}

pub enum HandlingView {
    Reply(ReplyView),
    Analyze,
}

impl View for Handling {
    type V = HandlingView;

    open spec fn view(&self) -> HandlingView {
        match *self {
            Handling::Reply(r) => HandlingView::Reply(r@),
            Handling::Analyze => HandlingView::Analyze,
        }
    }
}

/// The body that says all is well.
pub open spec fn healthy() -> JsonView {
    JsonView::Object(seq![("status"@, JsonView::Text("ok"@))])
}

/// What is to be done about a request for a URL. The query, from the first question
/// mark on, does not count.
pub open spec fn handled(method: Seq<char>, url: Seq<char>) -> HandlingView {
    let path = up_to(url, '?');
    if method == "OPTIONS"@ {
        HandlingView::Reply(ReplyView { status: 204, headers: cors(), body: None })
    } else if method == "GET"@ && path == "/health"@ {
        HandlingView::Reply(json_reply(200, body_of(healthy()), Seq::empty()))
    } else if method == "POST"@ && path == "/analyze-screen"@ {
        HandlingView::Analyze
    } else {
        HandlingView::Reply(
            json_reply(
                404,
                body_of(failure("NOT_FOUND"@, "no route "@ + method + " "@ + path)),
                Seq::empty(),
            ),
        )
    }
}

/// Decides what is to be done about a request.
pub fn handle(method: &str, url: &str) -> (h: Handling)
    ensures
        h@ == handled(method@, url@),
{
    let path = cut_at(url, '?');
    let none: Vec<(String, String)> = Vec::new();
    assert(headers_view(none@) =~= Seq::<(Seq<char>, Seq<char>)>::empty());
    if same_text(method, "OPTIONS") {
        Handling::Reply(Reply { status: 204, headers: cors_headers(), body: None })
    } else if same_text(method, "GET") && same_text(path.as_str(), "/health") {
        Handling::Reply(
            json_response(200, Body::of(object(first_member("status", text("ok")))), none),
        )
    } else if same_text(method, "POST") && same_text(path.as_str(), "/analyze-screen") {
        Handling::Analyze
    } else {
        let message = cat4("no route ", method, " ", path.as_str());
        Handling::Reply(
            json_response(404, Body::of(error_object("NOT_FOUND", message.as_str())), none),
        )
    }
}

/// The reply that ends an analysis.
pub open spec fn analyzed(status: u16, body: BodyView, timings: Seq<char>) -> ReplyView {
    json_reply(status, body, seq![("X-Timings-Ms"@, timings)])
}

/// Replies with what an analysis came to.
pub fn analysis_reply(status: u16, body: Body, timings: &str) -> (reply: Reply)
    ensures
        reply@ == analyzed(status, body@, timings@),
{
    let mut extra: Vec<(String, String)> = Vec::new();
    extra.push(("X-Timings-Ms".to_owned(), timings.to_owned()));
    assert(headers_view(extra@) =~= seq![("X-Timings-Ms"@, timings@)]);
    json_response(status, body, extra)
}

/// The name of the nth request.
pub fn request_id(n: u64) -> (id: String)
    ensures
        id@ == "req-"@ + decimal_text(n as nat),
{
    let number = decimal(n);
    cat2("req-", number.as_str())
}

// ---------------------------------------------------------------------------
// Laws

/// Whether a reply lets pages of any origin read it.
pub open spec fn is_open(reply: ReplyView) -> bool {
    reply.headers.contains(("Access-Control-Allow-Origin"@, "*"@))
}

/// Every reply lets pages of any origin read it.
pub proof fn law_every_reply_is_open(
    method: Seq<char>,
    url: Seq<char>,
    status: u16,
    body: BodyView,
    timings: Seq<char>,
)
    ensures
        handled(method, url) matches HandlingView::Reply(r) ==> is_open(r),
        is_open(analyzed(status, body, timings)),
{
    let star = ("Access-Control-Allow-Origin"@, "*"@);
    let r = analyzed(status, body, timings);
    assert(cors()[0] == star);
    assert(r.headers[1] == star);
    if let HandlingView::Reply(q) = handled(method, url) {
        assert(q.headers[0] == star || q.headers[1] == star);
    }
}

/// A preflight is answered with an empty 204, whatever it asks about.
pub proof fn law_preflight(url: Seq<char>)
    ensures
        handled("OPTIONS"@, url) == HandlingView::Reply(
            ReplyView { status: 204, headers: cors(), body: None },
        ),
{
}

/// A query makes no difference to what is done.
pub proof fn law_query_is_ignored(method: Seq<char>, path: Seq<char>, query: Seq<char>)
    requires
        !path.contains('?'),
    ensures
        handled(method, path + "?"@ + query) == handled(method, path),
{
    reveal_strlit("?");
    lemma_up_to_cut(path, query);
    lemma_up_to_whole(path);
}

proof fn lemma_up_to_whole(s: Seq<char>)
    requires
        !s.contains('?'),
    ensures
        up_to(s, '?') == s,
    decreases s.len(),
{
    if s.len() > 0 {
        assert(s[0] != '?');
        assert forall|i: int| 0 <= i < s.skip(1).len() implies s.skip(1)[i] != '?' by {
            assert(s.skip(1)[i] == s[i + 1]);
        }
        lemma_up_to_whole(s.skip(1));
        assert(seq![s[0]] + s.skip(1) =~= s);
    } else {
        assert(s =~= Seq::<char>::empty());
    }
}

proof fn lemma_up_to_cut(s: Seq<char>, rest: Seq<char>)
    requires
        !s.contains('?'),
    ensures
        up_to(s + "?"@ + rest, '?') == up_to(s, '?'),
    decreases s.len(),
{
    reveal_strlit("?");
    let w = s + "?"@ + rest;
    if s.len() > 0 {
        assert(s[0] != '?');
        assert(w[0] == s[0]);
        assert forall|i: int| 0 <= i < s.skip(1).len() implies s.skip(1)[i] != '?' by {
            assert(s.skip(1)[i] == s[i + 1]);
        }
        lemma_up_to_cut(s.skip(1), rest);
        assert(w.skip(1) =~= s.skip(1) + "?"@ + rest);
    } else {
        assert(w[0] == '?');
    }
}

/// An unknown route is answered in the shape of an analysis, with its error filled in.
pub proof fn law_unknown_route_is_shaped(method: Seq<char>, url: Seq<char>)
    ensures
        handled(method, url) matches HandlingView::Reply(r) ==> r.status == 404 ==> is_failure(
            r.body->0.value,
        ),
{
    law_failure_shape("NOT_FOUND"@, "no route "@ + method + " "@ + up_to(url, '?'));
}

// ---------------------------------------------------------------------------
// Laws: route by route

/// Whether headers hold the four that open the sidecar to pages of any origin.
pub open spec fn opens_to_all(headers: Seq<(Seq<char>, Seq<char>)>) -> bool {
    &&& headers.contains(("Access-Control-Allow-Origin"@, "*"@))
    &&& headers.contains(("Access-Control-Allow-Methods"@, "POST, GET, OPTIONS"@))
    &&& headers.contains(("Access-Control-Allow-Headers"@, "Content-Type"@))
    &&& headers.contains(("Access-Control-Expose-Headers"@, "X-Timings-Ms"@))
}

proof fn lemma_json_reply_headers(status: u16, body: BodyView, extra: Seq<(Seq<char>, Seq<char>)>)
    ensures
        ({
            let r = json_reply(status, body, extra);
            &&& r.status == status
            &&& r.body == Some(body)
            &&& opens_to_all(r.headers)
            &&& r.headers.contains(("Content-Type"@, "application/json"@))
            &&& r.headers.len() == 5 + extra.len()
            &&& forall|i: int| 0 <= i < extra.len() ==> r.headers.contains(#[trigger] extra[i])
        }),
{
    let r = json_reply(status, body, extra);
    assert(r.headers[0] == ("Content-Type"@, "application/json"@));
    assert(r.headers[1] == ("Access-Control-Allow-Origin"@, "*"@));
    assert(r.headers[2] == ("Access-Control-Allow-Methods"@, "POST, GET, OPTIONS"@));
    assert(r.headers[3] == ("Access-Control-Allow-Headers"@, "Content-Type"@));
    assert(r.headers[4] == ("Access-Control-Expose-Headers"@, "X-Timings-Ms"@));
    assert forall|i: int| 0 <= i < extra.len() implies r.headers.contains(#[trigger] extra[i]) by {
        assert(r.headers[5 + i] == extra[i]);
    }
}

/// A reply with a JSON body says so, opens to pages of any origin, and carries its status,
/// its body and the headers that it was given besides, and no others.
pub proof fn law_json_replies(status: u16, body: BodyView, extra: Seq<(Seq<char>, Seq<char>)>)
    ensures
        ({
            let r = json_reply(status, body, extra);
            &&& r.status == status
            &&& r.body == Some(body)
            &&& opens_to_all(r.headers)
            &&& r.headers.contains(("Content-Type"@, "application/json"@))
            &&& r.headers.len() == 5 + extra.len()
            &&& forall|i: int| 0 <= i < extra.len() ==> r.headers.contains(#[trigger] extra[i])
        }),
{
    lemma_json_reply_headers(status, body, extra);
}

/// The reply to an analysis has its status, its body and its timings.
pub proof fn law_analysis_is_replied(status: u16, body: BodyView, timings: Seq<char>)
    ensures
        ({
            let r = analyzed(status, body, timings);
            &&& r.status == status
            &&& r.body == Some(body)
            &&& r.headers.contains(("X-Timings-Ms"@, timings))
            &&& r.headers.contains(("Content-Type"@, "application/json"@))
            &&& opens_to_all(r.headers)
            &&& r.headers.len() == 6
        }),
{
    let extra = seq![("X-Timings-Ms"@, timings)];
    lemma_json_reply_headers(status, body, extra);
    assert(extra[0] == ("X-Timings-Ms"@, timings));
}

/// The path of a URL is what comes before its first question mark.
pub open spec fn is_path_of(path: Seq<char>, url: Seq<char>) -> bool {
    &&& !path.contains('?')
    &&& url == path || exists|query: Seq<char>| url == #[trigger] (path + seq!['?'] + query)
}

proof fn lemma_path_is_unique(path: Seq<char>, url: Seq<char>)
    requires
        is_path_of(path, url),
    ensures
        up_to(url, '?') == path,
{
    reveal_strlit("?");
    if url == path {
        lemma_up_to_whole(path);
    } else {
        let query = choose|query: Seq<char>| url == #[trigger] (path + seq!['?'] + query);
        assert(seq!['?'] =~= "?"@);
        lemma_up_to_cut(path, query);
        lemma_up_to_whole(path);
    }
}

/// A preflight of any URL gets an empty 204 that opens to pages of any origin.
pub proof fn law_preflight_opens(url: Seq<char>)
    ensures
        handled("OPTIONS"@, url) matches HandlingView::Reply(r) && r.status == 204 && r.body is None
            && opens_to_all(r.headers) && r.headers.len() == 4,
{
    let h = cors();
    assert(h[0] == ("Access-Control-Allow-Origin"@, "*"@));
    assert(h[1] == ("Access-Control-Allow-Methods"@, "POST, GET, OPTIONS"@));
    assert(h[2] == ("Access-Control-Allow-Headers"@, "Content-Type"@));
    assert(h[3] == ("Access-Control-Expose-Headers"@, "X-Timings-Ms"@));
}

/// Asked for its health, the sidecar says that its status is ok.
pub proof fn law_health(url: Seq<char>)
    requires
        is_path_of("/health"@, url),
    ensures
        handled("GET"@, url) matches HandlingView::Reply(r) && r.status == 200 && (r.body
            matches Some(b) && b.value.get("status"@) == Some(JsonView::Text("ok"@)) && b.text
            == written_json(b.value)),
{
    lemma_path_is_unique("/health"@, url);
    lemma_methods_differ();
    reveal_with_fuel(crate::json::found_under, 2);
    assert(healthy()->Object_0[0].0 == "status"@);
}

proof fn lemma_methods_differ()
    ensures
        "GET"@ != "OPTIONS"@,
        "POST"@ != "OPTIONS"@,
        "GET"@ != "POST"@,
        "/health"@ != "/analyze-screen"@,
{
    reveal_strlit("GET");
    reveal_strlit("POST");
    reveal_strlit("OPTIONS");
    reveal_strlit("/health");
    reveal_strlit("/analyze-screen");
    assert("GET"@.len() == 3);
    assert("POST"@.len() == 4);
    assert("OPTIONS"@.len() == 7);
    assert("/health"@.len() == 7);
    assert("/analyze-screen"@.len() == 15);
}

/// An analysis is made just if it is posted for.
pub proof fn law_analysis_is_posted_for(method: Seq<char>, path: Seq<char>, url: Seq<char>)
    requires
        is_path_of(path, url),
    ensures
        handled(method, url) is Analyze <==> method == "POST"@ && path == "/analyze-screen"@,
{
    lemma_path_is_unique(path, url);
    lemma_methods_differ();
}

/// Any other request is told that there is no such route, with method and path.
pub proof fn law_no_such_route(method: Seq<char>, path: Seq<char>, url: Seq<char>)
    requires
        is_path_of(path, url),
        method != "OPTIONS"@,
        !(method == "GET"@ && path == "/health"@),
        !(method == "POST"@ && path == "/analyze-screen"@),
    ensures
        handled(method, url) matches HandlingView::Reply(r) && r.status == 404 && (r.body
            matches Some(b) && is_failure(b.value) && b.value.get("error"@)->0.get("code"@) == Some(
            JsonView::Text("NOT_FOUND"@),
        ) && b.value.get("error"@)->0.get("message"@) == Some(
            JsonView::Text("no route "@ + method + " "@ + path),
        ) && b.text == written_json(b.value)),
{
    lemma_path_is_unique(path, url);
    law_failure_shape("NOT_FOUND"@, "no route "@ + method + " "@ + path);
}

} // verus!
