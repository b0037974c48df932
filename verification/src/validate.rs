//! The shape of an analysis, and the answer that stands in for one on failure.
use vstd::prelude::*;
use crate::json::{first_member, list, members_view, object, text, with_member, items_view, Json, JsonView};
use crate::number::{is_unit_literal, unit_literal};
use crate::text::{cat2, cat4, decimal, decimal_text, texts};

verus! {

/// The schema as it is put to a model that repairs an answer.
pub const SCHEMA_HINT: &'static str = "{\n  \"screen_type\": \"string (e.g. live_tv, streaming_app, menu, game)\",\n  \"title\": \"string, short headline of what's on screen\",\n  \"summary\": \"string, 1-3 sentence description\",\n  \"detected_elements\": [ { \"name\": \"string\", \"description\": \"string\", \"confidence\": 0.0 } ],\n  \"suggested_actions\": [ \"string\" ],\n  \"error\": null\n}";

// ---------------------------------------------------------------------------
// The schema

/// Whether there is a text under a key.
pub open spec fn has_text(v: JsonView, key: Seq<char>) -> bool {
    v.get(key) matches Some(JsonView::Text(_))
}

/// Whether there is a number between zero and one under a key.
pub open spec fn has_unit_number(v: JsonView, key: Seq<char>) -> bool {
    match v.get(key) {
        Some(JsonView::Number(n)) => is_unit_literal(n),
        _ => false,
    }
}

/// Whether a value describes one element seen on the screen.
pub open spec fn is_element(v: JsonView) -> bool {
    &&& v is Object
    &&& has_text(v, "name"@)
    &&& has_text(v, "description"@)
    &&& has_unit_number(v, "confidence"@)
}

/// Whether a value is an object with everything an analysis has but its `error`.
pub open spec fn has_analysis_fields(v: JsonView) -> bool {
    &&& v is Object
    &&& has_text(v, "screen_type"@)
    &&& has_text(v, "title"@)
    &&& has_text(v, "summary"@)
    &&& match v.get("detected_elements"@) {
        Some(JsonView::List(items)) => forall|i: int|
            0 <= i < items.len() ==> is_element(#[trigger] items[i]),
        _ => false,
    }
    &&& match v.get("suggested_actions"@) {
        Some(JsonView::List(items)) => forall|i: int|
            0 <= i < items.len() ==> (#[trigger] items[i]) is Text,
        _ => false,
    }
}

/// Whether a value is an analysis as the schema has it.
pub open spec fn is_analysis(v: JsonView) -> bool {
    has_analysis_fields(v) && v.get("error"@) == Some(JsonView::Null)
}

/// Whether a value has the shape of an analysis and reports a failure in its `error`.
pub open spec fn is_failure(v: JsonView) -> bool {
    &&& has_analysis_fields(v)
    &&& v.get("error"@) matches Some(e)
    &&& e is Object
    &&& has_text(e, "code"@)
    &&& has_text(e, "message"@)
}

// ---------------------------------------------------------------------------
// What is wrong with a value

/// The complaint, if any, about a text that should be under a key.
pub open spec fn text_problem(v: JsonView, key: Seq<char>, label: Seq<char>) -> Seq<Seq<char>> {
    if has_text(v, key) {
        Seq::empty()
    } else {
        seq![label + " must be a string"@]
    }
}

/// What a list item is called in complaints.
pub open spec fn item_label(list: Seq<char>, i: nat) -> Seq<char> {
    list + "["@ + decimal_text(i) + "]"@
}

/// The complaints about one element.
pub open spec fn element_problems(v: JsonView, label: Seq<char>) -> Seq<Seq<char>> {
    if v is Object {
        text_problem(v, "name"@, label + ".name"@) + text_problem(
            v,
            "description"@,
            label + ".description"@,
        ) + if has_unit_number(v, "confidence"@) {
            Seq::empty()
        } else {
            seq![label + ".confidence must be a number between 0 and 1"@]
        }
    } else {
        seq![label + " must be an object"@]
    }
}

/// The complaints about the first `n` elements.
pub open spec fn elements_problems(items: Seq<JsonView>, n: nat) -> Seq<Seq<char>>
    decreases n,
{
    if n == 0 {
        Seq::empty()
    } else {
        elements_problems(items, (n - 1) as nat) + element_problems(
            items[n - 1],
            item_label("detected_elements"@, (n - 1) as nat),
        )
    }
}

/// The complaints about the first `n` suggested actions.
pub open spec fn actions_problems(items: Seq<JsonView>, n: nat) -> Seq<Seq<char>>
    decreases n,
{
    if n == 0 {
        Seq::empty()
    } else {
        actions_problems(items, (n - 1) as nat) + if items[n - 1] is Text {
            Seq::empty()
        } else {
            seq![item_label("suggested_actions"@, (n - 1) as nat) + " must be a string"@]
        }
    }
}

/// Everything that keeps a value from being an analysis.
pub open spec fn problems(v: JsonView) -> Seq<Seq<char>> {
    if v is Object {
        text_problem(v, "screen_type"@, "screen_type"@) + text_problem(v, "title"@, "title"@)
            + text_problem(v, "summary"@, "summary"@) + (match v.get("detected_elements"@) {
            Some(JsonView::List(items)) => elements_problems(items, items.len()),
            _ => seq!["detected_elements must be an array"@],
        }) + (match v.get("suggested_actions"@) {
            Some(JsonView::List(items)) => actions_problems(items, items.len()),
            _ => seq!["suggested_actions must be an array"@],
        }) + if v.get("error"@) == Some(JsonView::Null) {
            Seq::empty()
        } else {
            seq!["error must be null"@]
        }
    } else {
        seq!["the answer must be a JSON object"@]
    }
}

/// Adds a complaint.
fn complain(out: &mut Vec<String>, complaint: String)
    ensures
        texts(final(out)@) == texts(old(out)@) + seq![complaint@],
{
    let ghost before = texts(out@);
    out.push(complaint);
    assert(texts(out@) =~= before + seq![complaint@]);
}

/// Checks for a text under a key.
fn check_text(out: &mut Vec<String>, value: &Json, key: &str, label: &str)
    ensures
        texts(final(out)@) == texts(old(out)@) + text_problem(value@, key@, label@),
{
    assert(texts(out@) + Seq::<Seq<char>>::empty() =~= texts(out@));
    match value.get(key) {
        Some(Json::Text(_)) => {},
        _ => {
            complain(out, cat2(label, " must be a string"));
        },
    }
}

/// Names a list item.
fn label_item(list: &str, i: usize) -> (label: String)
    ensures
        label@ == item_label(list@, i as nat),
{
    let n = decimal(i as u64);
    cat4(list, "[", n.as_str(), "]")
}

/// Checks one element.
fn check_element(out: &mut Vec<String>, value: &Json, label: &str)
    ensures
        texts(final(out)@) == texts(old(out)@) + element_problems(value@, label@),
{
    let ghost before = texts(out@);
    match value {
        Json::Object(_) => {
            let name = cat2(label, ".name");
            check_text(out, value, "name", name.as_str());
            let description = cat2(label, ".description");
            check_text(out, value, "description", description.as_str());
            let ghost so_far = texts(out@);
            let fits = match value.get("confidence") {
                Some(Json::Number(n)) => unit_literal(n.as_str()),
                _ => false,
            };
            if !fits {
                complain(out, cat2(label, ".confidence must be a number between 0 and 1"));
            } else {
                assert(so_far + Seq::<Seq<char>>::empty() =~= so_far);
            }
        },
        _ => {
            complain(out, cat2(label, " must be an object"));
        },
    }
    assert(texts(out@) =~= before + element_problems(value@, label@));
}

/// Checks the list of elements.
fn check_elements(out: &mut Vec<String>, items: &Vec<Json>)
    ensures
        texts(final(out)@) == texts(old(out)@) + elements_problems(
            items_view(items@),
            items@.len(),
        ),
{
    let ghost before = texts(out@);
    let ghost all = items_view(items@);
    let mut i: usize = 0;
    assert(before + Seq::<Seq<char>>::empty() =~= before);
    while i < items.len()
        invariant
            i <= items@.len(),
            all == items_view(items@),
            texts(out@) == before + elements_problems(all, i as nat),
        decreases items@.len() - i,
    {
        let label = label_item("detected_elements", i);
        check_element(out, &items[i], label.as_str());
        i = i + 1;
        assert(all[i - 1] == items@[i - 1]@);
        assert(texts(out@) =~= before + elements_problems(all, i as nat));
    }
}

/// Checks the list of suggested actions.
fn check_actions(out: &mut Vec<String>, items: &Vec<Json>)
    ensures
        texts(final(out)@) == texts(old(out)@) + actions_problems(
            items_view(items@),
            items@.len(),
        ),
{
    let ghost before = texts(out@);
    let ghost all = items_view(items@);
    let mut i: usize = 0;
    assert(before + Seq::<Seq<char>>::empty() =~= before);
    while i < items.len()
        invariant
            i <= items@.len(),
            all == items_view(items@),
            texts(out@) == before + actions_problems(all, i as nat),
        decreases items@.len() - i,
    {
        match &items[i] {
            Json::Text(_) => {},
            _ => {
                let label = label_item("suggested_actions", i);
                complain(out, cat2(label.as_str(), " must be a string"));
            },
        }
        i = i + 1;
        assert(all[i - 1] == items@[i - 1]@);
        assert(texts(out@) =~= before + actions_problems(all, i as nat));
    }
}

/// Lists everything that keeps a value from being an analysis.
pub fn validate(value: &Json) -> (found: Vec<String>)
    ensures
        texts(found@) == problems(value@),
        found@.len() == 0 <==> is_analysis(value@),
{
    let mut out: Vec<String> = Vec::new();
    assert(texts(out@) =~= Seq::<Seq<char>>::empty());
    match value {
        Json::Object(_) => {
            check_text(&mut out, value, "screen_type", "screen_type");
            check_text(&mut out, value, "title", "title");
            check_text(&mut out, value, "summary", "summary");
            match value.get("detected_elements") {
                Some(Json::List(items)) => {
                    assert(items_view(items@) =~= Json::List(*items)@->List_0);
                    check_elements(&mut out, items);
                },
                _ => {
                    complain(&mut out, "detected_elements must be an array".to_owned());
                },
            }
            match value.get("suggested_actions") {
                Some(Json::List(items)) => {
                    assert(items_view(items@) =~= Json::List(*items)@->List_0);
                    check_actions(&mut out, items);
                },
                _ => {
                    complain(&mut out, "suggested_actions must be an array".to_owned());
                },
            }
            match value.get("error") {
                Some(Json::Null) => {},
                _ => {
                    complain(&mut out, "error must be null".to_owned());
                },
            }
        },
        _ => {
            complain(&mut out, "the answer must be a JSON object".to_owned());
        },
    }
    assert(texts(out@) =~= problems(value@));
    proof {
        law_no_problems(value@);
    }
    out
}

proof fn lemma_elements(items: Seq<JsonView>, n: nat)
    requires
        n <= items.len(),
    ensures
        elements_problems(items, n).len() == 0 <==> forall|i: int|
            0 <= i < n ==> is_element(#[trigger] items[i]),
    decreases n,
{
    if n > 0 {
        lemma_elements(items, (n - 1) as nat);
        assert(is_element(items[n - 1]) || !is_element(items[n - 1]));
    }
}

proof fn lemma_actions(items: Seq<JsonView>, n: nat)
    requires
        n <= items.len(),
    ensures
        actions_problems(items, n).len() == 0 <==> forall|i: int|
            0 <= i < n ==> (#[trigger] items[i]) is Text,
    decreases n,
{
    if n > 0 {
        lemma_actions(items, (n - 1) as nat);
        assert(items[n - 1] is Text || !(items[n - 1] is Text));
    }
}

/// A value is an analysis just if there is nothing to complain about.
pub proof fn law_no_problems(v: JsonView)
    ensures
        problems(v).len() == 0 <==> is_analysis(v),
{
    if let Some(JsonView::List(items)) = v.get("detected_elements"@) {
        lemma_elements(items, items.len());
    }
    if let Some(JsonView::List(items)) = v.get("suggested_actions"@) {
        lemma_actions(items, items.len());
    }
}

// ---------------------------------------------------------------------------
// Failures

/// The value that reports a failure.
pub open spec fn failure(code: Seq<char>, message: Seq<char>) -> JsonView {
    JsonView::Object(
        seq![
            ("screen_type"@, JsonView::Text(""@)),
            ("title"@, JsonView::Text(""@)),
            ("summary"@, JsonView::Text(""@)),
            ("detected_elements"@, JsonView::List(Seq::empty())),
            ("suggested_actions"@, JsonView::List(Seq::empty())),
            (
                "error"@,
                JsonView::Object(
                    seq![("code"@, JsonView::Text(code)), ("message"@, JsonView::Text(message))],
                ),
            ),
        ],
    )
}

/// Reports a failure in a value that has the shape of an analysis.
pub fn error_object(code: &str, message: &str) -> (value: Json)
    ensures
        value@ == failure(code@, message@),
        is_failure(value@),
{
    let e = object(with_member(first_member("code", text(code)), "message", text(message)));
    let no_elements: Vec<Json> = Vec::new();
    let no_actions: Vec<Json> = Vec::new();
    assert(items_view(no_elements@) =~= Seq::empty());
    assert(items_view(no_actions@) =~= Seq::empty());
    let m = first_member("screen_type", text(""));
    let m = with_member(m, "title", text(""));
    let m = with_member(m, "summary", text(""));
    let m = with_member(m, "detected_elements", list(no_elements));
    let m = with_member(m, "suggested_actions", list(no_actions));
    let m = with_member(m, "error", e);
    proof {
        law_failure_shape(code@, message@);
        let f = failure(code@, message@)->Object_0;
        assert(e@->Object_0 =~= f[5].1->Object_0);
        assert(members_view(m@) =~= f);
    }
    object(m)
}

/// What reports a failure has the shape of an analysis, and its code and message
/// are the ones given.
pub proof fn law_failure_shape(code: Seq<char>, message: Seq<char>)
    ensures
        is_failure(failure(code, message)),
        failure(code, message).get("error"@)->0.get("code"@) == Some(JsonView::Text(code)),
        failure(code, message).get("error"@)->0.get("message"@) == Some(JsonView::Text(message)),
        !is_analysis(failure(code, message)),
{
    reveal_strlit("screen_type");
    reveal_strlit("title");
    reveal_strlit("summary");
    reveal_strlit("detected_elements");
    reveal_strlit("suggested_actions");
    reveal_strlit("error");
    reveal_strlit("code");
    reveal_strlit("message");
    reveal_with_fuel(crate::json::found_under, 7);
    let f = failure(code, message);
    let m = f->Object_0;
    assert(m[0].0 == "screen_type"@);
    assert("screen_type"@.len() == 11);
    assert("title"@.len() == 5);
    assert("summary"@.len() == 7);
    assert("detected_elements"@.len() == 17);
    assert("suggested_actions"@.len() == 17);
    assert("detected_elements"@[0] != "suggested_actions"@[0]);
    assert("error"@.len() == 5);
    assert("error"@[0] != "title"@[0]);
    assert("code"@.len() == 4);
    assert("message"@.len() == 7);
}

// ---------------------------------------------------------------------------
// Laws

/// Whether an item says what one element is: its name and description in words, and a
/// confidence between zero and one.
pub open spec fn says_what_it_saw(item: JsonView) -> bool {
    &&& item.get("name"@) matches Some(JsonView::Text(_))
    &&& item.get("description"@) matches Some(JsonView::Text(_))
    &&& item.get("confidence"@) matches Some(JsonView::Number(n))
    &&& is_unit_literal(n)
}

/// An analysis says in words what kind of screen it is, its title and a summary; it
/// lists elements and suggested actions; and its error is null. Whatever says all that
/// is an analysis.
pub proof fn law_schema(v: JsonView)
    ensures
        is_analysis(v) <==> {
            &&& v.get("screen_type"@) matches Some(JsonView::Text(_))
            &&& v.get("title"@) matches Some(JsonView::Text(_))
            &&& v.get("summary"@) matches Some(JsonView::Text(_))
            &&& v.get("detected_elements"@) matches Some(JsonView::List(items))
            &&& forall|i: int| 0 <= i < items.len() ==> says_what_it_saw(#[trigger] items[i])
            &&& v.get("suggested_actions"@) matches Some(JsonView::List(actions))
            &&& forall|i: int| 0 <= i < actions.len() ==> (#[trigger] actions[i]) is Text
            &&& v.get("error"@) == Some(JsonView::Null)
        },
{
    if let Some(JsonView::List(items)) = v.get("detected_elements"@) {
        assert forall|i: int| 0 <= i < items.len() implies is_element(#[trigger] items[i])
            == says_what_it_saw(items[i]) by {}
        if forall|i: int| 0 <= i < items.len() ==> is_element(#[trigger] items[i]) {
            assert forall|i: int| 0 <= i < items.len() implies says_what_it_saw(
                #[trigger] items[i],
            ) by {
                assert(is_element(items[i]));
            }
        }
        if forall|i: int| 0 <= i < items.len() ==> says_what_it_saw(#[trigger] items[i]) {
            assert forall|i: int| 0 <= i < items.len() implies is_element(#[trigger] items[i]) by {
                assert(says_what_it_saw(items[i]));
            }
        }
    }
}

/// An object of the six members, in the order of the schema, is an analysis.
pub proof fn law_six_members_are_an_analysis(
    screen_type: Seq<char>,
    title: Seq<char>,
    summary: Seq<char>,
    elements: Seq<JsonView>,
    actions: Seq<JsonView>,
)
    requires
        forall|i: int| 0 <= i < elements.len() ==> says_what_it_saw(#[trigger] elements[i]),
        forall|i: int| 0 <= i < actions.len() ==> (#[trigger] actions[i]) is Text,
    ensures
        is_analysis(
            JsonView::Object(
                seq![
                    ("screen_type"@, JsonView::Text(screen_type)),
                    ("title"@, JsonView::Text(title)),
                    ("summary"@, JsonView::Text(summary)),
                    ("detected_elements"@, JsonView::List(elements)),
                    ("suggested_actions"@, JsonView::List(actions)),
                    ("error"@, JsonView::Null),
                ],
            ),
        ),
{
    reveal_strlit("screen_type");
    reveal_strlit("title");
    reveal_strlit("summary");
    reveal_strlit("detected_elements");
    reveal_strlit("suggested_actions");
    reveal_strlit("error");
    reveal_with_fuel(crate::json::found_under, 7);
    assert("screen_type"@.len() == 11);
    assert("title"@.len() == 5);
    assert("summary"@.len() == 7);
    assert("detected_elements"@.len() == 17);
    assert("suggested_actions"@.len() == 17);
    assert("detected_elements"@[0] != "suggested_actions"@[0]);
    assert("error"@.len() == 5);
    assert("error"@[0] != "title"@[0]);
    let v = JsonView::Object(
        seq![
            ("screen_type"@, JsonView::Text(screen_type)),
            ("title"@, JsonView::Text(title)),
            ("summary"@, JsonView::Text(summary)),
            ("detected_elements"@, JsonView::List(elements)),
            ("suggested_actions"@, JsonView::List(actions)),
            ("error"@, JsonView::Null),
        ],
    );
    assert(v.get("screen_type"@) == Some(JsonView::Text(screen_type)));
    assert(v.get("title"@) == Some(JsonView::Text(title)));
    assert(v.get("summary"@) == Some(JsonView::Text(summary)));
    assert(v.get("detected_elements"@) == Some(JsonView::List(elements)));
    assert(v.get("suggested_actions"@) == Some(JsonView::List(actions)));
    assert(v.get("error"@) == Some(JsonView::Null));
    law_schema(v);
}

/// What reports a failure says nothing of a screen.
pub proof fn law_failure_says_nothing_else(code: Seq<char>, message: Seq<char>)
    ensures
        ({
            let f = failure(code, message);
            &&& f.get("screen_type"@) == Some(JsonView::Text(""@))
            &&& f.get("title"@) == Some(JsonView::Text(""@))
            &&& f.get("summary"@) == Some(JsonView::Text(""@))
            &&& f.get("detected_elements"@) == Some(JsonView::List(Seq::empty()))
            &&& f.get("suggested_actions"@) == Some(JsonView::List(Seq::empty()))
        }),
{
    reveal_strlit("screen_type");
    reveal_strlit("title");
    reveal_strlit("summary");
    reveal_strlit("detected_elements");
    reveal_strlit("suggested_actions");
    reveal_with_fuel(crate::json::found_under, 7);
    assert("screen_type"@.len() == 11);
    assert("title"@.len() == 5);
    assert("summary"@.len() == 7);
    assert("detected_elements"@.len() == 17);
    assert("suggested_actions"@.len() == 17);
    assert("detected_elements"@[0] != "suggested_actions"@[0]);
}

proof fn lemma_elements_kept(items: Seq<JsonView>, n: nat, m: nat, p: Seq<char>)
    requires
        n <= m,
        elements_problems(items, n).contains(p),
    ensures
        elements_problems(items, m).contains(p),
    decreases m,
{
    if n < m {
        lemma_elements_kept(items, n, (m - 1) as nat, p);
        let a = elements_problems(items, (m - 1) as nat);
        let k = choose|k: int| 0 <= k < a.len() && a[k] == p;
        assert(elements_problems(items, m)[k] == p);
    }
}

proof fn lemma_actions_kept(items: Seq<JsonView>, n: nat, m: nat, p: Seq<char>)
    requires
        n <= m,
        actions_problems(items, n).contains(p),
    ensures
        actions_problems(items, m).contains(p),
    decreases m,
{
    if n < m {
        lemma_actions_kept(items, n, (m - 1) as nat, p);
        let a = actions_problems(items, (m - 1) as nat);
        let k = choose|k: int| 0 <= k < a.len() && a[k] == p;
        assert(actions_problems(items, m)[k] == p);
    }
}

/// The pieces of the list of complaints, each in its place.
proof fn lemma_problem_pieces(v: JsonView, p: Seq<char>)
    requires
        v is Object,
        ({
            ||| text_problem(v, "screen_type"@, "screen_type"@).contains(p)
            ||| text_problem(v, "title"@, "title"@).contains(p)
            ||| text_problem(v, "summary"@, "summary"@).contains(p)
            ||| v.get("detected_elements"@) matches Some(JsonView::List(items))
                && elements_problems(items, items.len()).contains(p)
            ||| !(v.get("detected_elements"@) matches Some(JsonView::List(_))) && p
                == "detected_elements must be an array"@
            ||| v.get("suggested_actions"@) matches Some(JsonView::List(items)) && actions_problems(
                items,
                items.len(),
            ).contains(p)
            ||| !(v.get("suggested_actions"@) matches Some(JsonView::List(_))) && p
                == "suggested_actions must be an array"@
            ||| v.get("error"@) != Some(JsonView::Null) && p == "error must be null"@
        }),
    ensures
        problems(v).contains(p),
{
    let a = text_problem(v, "screen_type"@, "screen_type"@);
    let b = text_problem(v, "title"@, "title"@);
    let c = text_problem(v, "summary"@, "summary"@);
    let d = match v.get("detected_elements"@) {
        Some(JsonView::List(items)) => elements_problems(items, items.len()),
        _ => seq!["detected_elements must be an array"@],
    };
    let e = match v.get("suggested_actions"@) {
        Some(JsonView::List(items)) => actions_problems(items, items.len()),
        _ => seq!["suggested_actions must be an array"@],
    };
    let f = if v.get("error"@) == Some(JsonView::Null) {
        Seq::empty()
    } else {
        seq!["error must be null"@]
    };
    let all = a + b + c + d + e + f;
    assert(problems(v) == all);
    if a.contains(p) {
        let k = choose|k: int| 0 <= k < a.len() && a[k] == p;
        assert(all[k] == p);
    } else if b.contains(p) {
        let k = choose|k: int| 0 <= k < b.len() && b[k] == p;
        assert(all[a.len() + k] == p);
    } else if c.contains(p) {
        let k = choose|k: int| 0 <= k < c.len() && c[k] == p;
        assert(all[a.len() + b.len() + k] == p);
    } else if v.get("error"@) != Some(JsonView::Null) && p == "error must be null"@ {
        assert(all[a.len() as int + b.len() + c.len() + d.len() + e.len()] == p);
    } else {
        if !(v.get("detected_elements"@) matches Some(JsonView::List(_))) && p
            == "detected_elements must be an array"@ {
            assert(d[0] == p);
        }
        if !(v.get("suggested_actions"@) matches Some(JsonView::List(_))) && p
            == "suggested_actions must be an array"@ {
            assert(e[0] == p);
        }
        if d.contains(p) {
            let k = choose|k: int| 0 <= k < d.len() && d[k] == p;
            assert(all[a.len() + b.len() + c.len() + k] == p);
        } else {
            let k = choose|k: int| 0 <= k < e.len() && e[k] == p;
            assert(all[a.len() + b.len() + c.len() + d.len() + k] == p);
        }
    }
}

/// Every member of an object that does not fit the schema is complained about by name.
pub proof fn law_members_are_complained_about(v: JsonView)
    requires
        v is Object,
    ensures
        !(v.get("screen_type"@) matches Some(JsonView::Text(_))) ==> problems(v).contains(
            "screen_type"@ + " must be a string"@,
        ),
        !(v.get("title"@) matches Some(JsonView::Text(_))) ==> problems(v).contains(
            "title"@ + " must be a string"@,
        ),
        !(v.get("summary"@) matches Some(JsonView::Text(_))) ==> problems(v).contains(
            "summary"@ + " must be a string"@,
        ),
        !(v.get("detected_elements"@) matches Some(JsonView::List(_))) ==> problems(v).contains(
            "detected_elements must be an array"@,
        ),
        !(v.get("suggested_actions"@) matches Some(JsonView::List(_))) ==> problems(v).contains(
            "suggested_actions must be an array"@,
        ),
        v.get("error"@) != Some(JsonView::Null) ==> problems(v).contains("error must be null"@),
{
    let st = "screen_type"@ + " must be a string"@;
    let ti = "title"@ + " must be a string"@;
    let su = "summary"@ + " must be a string"@;
    if !(v.get("screen_type"@) matches Some(JsonView::Text(_))) {
        assert(text_problem(v, "screen_type"@, "screen_type"@)[0] == st);
        lemma_problem_pieces(v, st);
    }
    if !(v.get("title"@) matches Some(JsonView::Text(_))) {
        assert(text_problem(v, "title"@, "title"@)[0] == ti);
        lemma_problem_pieces(v, ti);
    }
    if !(v.get("summary"@) matches Some(JsonView::Text(_))) {
        assert(text_problem(v, "summary"@, "summary"@)[0] == su);
        lemma_problem_pieces(v, su);
    }
    if !(v.get("detected_elements"@) matches Some(JsonView::List(_))) {
        lemma_problem_pieces(v, "detected_elements must be an array"@);
    }
    if !(v.get("suggested_actions"@) matches Some(JsonView::List(_))) {
        lemma_problem_pieces(v, "suggested_actions must be an array"@);
    }
    if v.get("error"@) != Some(JsonView::Null) {
        lemma_problem_pieces(v, "error must be null"@);
    }
}

/// Every item of a list that does not fit the schema is complained about by its place.
pub proof fn law_items_are_complained_about(v: JsonView, items: Seq<JsonView>, i: int)
    requires
        0 <= i < items.len(),
    ensures
        v.get("detected_elements"@) == Some(JsonView::List(items)) && !(items[i] is Object)
            ==> problems(v).contains(
            "detected_elements"@ + "["@ + decimal_text(i as nat) + "]"@ + " must be an object"@,
        ),
        v.get("detected_elements"@) == Some(JsonView::List(items)) && items[i] is Object && !(
        items[i].get("name"@) matches Some(JsonView::Text(_))) ==> problems(v).contains(
            "detected_elements"@ + "["@ + decimal_text(i as nat) + "]"@ + ".name"@
                + " must be a string"@,
        ),
        v.get("suggested_actions"@) == Some(JsonView::List(items)) && !(items[i] is Text)
            ==> problems(v).contains(
            "suggested_actions"@ + "["@ + decimal_text(i as nat) + "]"@ + " must be a string"@,
        ),
{
    let n = i as nat;
    if v.get("detected_elements"@) == Some(JsonView::List(items)) {
        let label = item_label("detected_elements"@, n);
        let here = element_problems(items[i], label);
        let before = elements_problems(items, n);
        let upto = elements_problems(items, n + 1);
        assert(upto =~= before + here);
        if !(items[i] is Object) {
            let p = label + " must be an object"@;
            assert(here[0] == p);
            assert(upto[before.len() as int] == p);
            lemma_elements_kept(items, n + 1, items.len(), p);
            lemma_problem_pieces(v, p);
        } else if !(items[i].get("name"@) matches Some(JsonView::Text(_))) {
            let p = label + ".name"@ + " must be a string"@;
            assert(here[0] == p);
            assert(upto[before.len() as int] == p);
            lemma_elements_kept(items, n + 1, items.len(), p);
            lemma_problem_pieces(v, p);
        }
    }
    if v.get("suggested_actions"@) == Some(JsonView::List(items)) && !(items[i] is Text) {
        let p = item_label("suggested_actions"@, n) + " must be a string"@;
        let before = actions_problems(items, n);
        let upto = actions_problems(items, n + 1);
        assert(upto[before.len() as int] == p);
        lemma_actions_kept(items, n + 1, items.len(), p);
        lemma_problem_pieces(v, p);
    }
}

/// What is no object gets that one complaint.
pub proof fn law_only_objects_fit(v: JsonView)
    requires
        !(v is Object),
    ensures
        problems(v) == seq!["the answer must be a JSON object"@],
        !is_analysis(v),
{
}

/// Every description and confidence that does not fit the schema is complained about by
/// its place.
pub proof fn law_elements_are_complained_about(v: JsonView, items: Seq<JsonView>, i: int)
    requires
        0 <= i < items.len(),
        v.get("detected_elements"@) == Some(JsonView::List(items)),
        items[i] is Object,
    ensures
        !(items[i].get("description"@) matches Some(JsonView::Text(_))) ==> problems(v).contains(
            "detected_elements"@ + "["@ + decimal_text(i as nat) + "]"@ + ".description"@
                + " must be a string"@,
        ),
        !(items[i].get("confidence"@) matches Some(JsonView::Number(n)) && is_unit_literal(n))
            ==> problems(v).contains(
            "detected_elements"@ + "["@ + decimal_text(i as nat) + "]"@
                + ".confidence must be a number between 0 and 1"@,
        ),
{
    let n = i as nat;
    let label = item_label("detected_elements"@, n);
    let a = text_problem(items[i], "name"@, label + ".name"@);
    let b = text_problem(items[i], "description"@, label + ".description"@);
    let here = element_problems(items[i], label);
    let before = elements_problems(items, n);
    let upto = elements_problems(items, n + 1);
    assert(upto =~= before + here);
    if !(items[i].get("description"@) matches Some(JsonView::Text(_))) {
        let p = label + ".description"@ + " must be a string"@;
        assert(here[a.len() as int] == p);
        assert(upto[before.len() as int + a.len()] == p);
        lemma_elements_kept(items, n + 1, items.len(), p);
        lemma_problem_pieces(v, p);
    }
    if !(items[i].get("confidence"@) matches Some(JsonView::Number(l)) && is_unit_literal(l)) {
        let p = label + ".confidence must be a number between 0 and 1"@;
        assert(here[a.len() as int + b.len()] == p);
        assert(upto[before.len() as int + a.len() + b.len()] == p);
        lemma_elements_kept(items, n + 1, items.len(), p);
        lemma_problem_pieces(v, p);
    }
}

} // verus!
