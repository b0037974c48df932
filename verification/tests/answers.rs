use analyze_screen_sidecar::extract::extract_json_candidate;
use analyze_screen_sidecar::json::{Body, first_member, list, number, object, text, with_member, Json};
use analyze_screen_sidecar::pipeline::{
    after_check, after_recheck, after_repair, parse_and_validate, validate_parsed, Ask, Event, Pipeline,
};
use analyze_screen_sidecar::validate::{error_object, validate, SCHEMA_HINT};

fn s(t: &str) -> String {
    t.to_string()
}

fn parse(t: &str) -> Result<Json, String> {
    match Body::parse(t) {
        Ok(b) => Ok(b.value),
        Err(e) => Err(e),
    }
}

const GOOD: &str = r#"{"screen_type":"menu","title":"t","summary":"s","detected_elements":[{"name":"n","description":"d","confidence":0.9}],"suggested_actions":["go"],"error":null}"#;

struct Course {
    status: u16,
    body: Json,
    text: String,
    stages: Vec<String>,
    notes: Vec<String>,
    repaired: Option<(String, String)>,
}

fn course(
    budget: u64,
    capture: Result<&str, &str>,
    secs1: u64,
    answer: Result<&str, &str>,
    secs2: u64,
    repair: Result<&str, &str>,
) -> Course {
    let mut p = Pipeline::start();
    let mut stages = Vec::new();
    let mut notes = Vec::new();
    let mut repaired = None;
    let mut asked_time = false;
    let owned = |r: Result<&str, &str>| match r {
        Ok(t) => Ok(t.to_string()),
        Err(e) => Err(e.to_string()),
    };
    loop {
        if let Some(name) = p.stage() {
            stages.push(name.to_string());
        }
        let event = match p.ask() {
            Ask::Capture => Event::Captured(owned(capture)),
            Ask::Elapsed => {
                let secs = if asked_time { secs2 } else { secs1 };
                asked_time = true;
                Event::Elapsed(secs)
            }
            Ask::Analyze { path } => {
                assert_eq!(Ok(path), capture);
                Event::Answered(owned(answer))
            }
            Ask::Proceed => Event::Proceeding,
            Ask::Repair { broken, schema_hint } => {
                assert!(repaired.is_none());
                repaired = Some((broken.to_string(), schema_hint.to_string()));
                Event::Answered(owned(repair))
            }
            Ask::Nothing => {
                if let Pipeline::Done { status, body } = p {
                    return Course {
                        status,
                        body: body.value,
                        text: body.text,
                        stages,
                        notes,
                        repaired,
                    };
                }
                unreachable!()
            }
        };
        let (next, more) = p.step(budget, event);
        notes.extend(more);
        p = next;
    }
}

fn run(
    budget: u64,
    capture: Result<&str, &str>,
    secs1: u64,
    answer: Result<&str, &str>,
    secs2: u64,
    repair: Result<&str, &str>,
) -> (u16, Json, Vec<String>) {
    let c = course(budget, capture, secs1, answer, secs2, repair);
    (c.status, c.body, c.stages)
}

fn code(body: &Json) -> String {
    match body.get("error").unwrap().get("code") {
        Some(Json::Text(t)) => t.clone(),
        _ => panic!("no code"),
    }
}

fn message(body: &Json) -> String {
    match body.get("error").unwrap().get("message") {
        Some(Json::Text(t)) => t.clone(),
        _ => panic!("no message"),
    }
}

#[test]
fn valid_answer_is_returned() {
    let (status, body, stages) = run(90, Ok("/p"), 0, Ok(GOOD), 0, Err("unused"));
    assert_eq!(status, 200);
    assert_eq!(body, parse(GOOD).unwrap());
    assert_eq!(stages, vec![s("screenshot"), s("vlm_call"), s("validate")]);
}

#[test]
fn fenced_answer_is_recovered() {
    let raw = format!("Here {{it}} is:\n```json\n{GOOD}\n```\nbye");
    let (status, body, stages) = run(90, Ok("/p"), 0, Ok(&raw), 0, Err("unused"));
    assert_eq!(status, 200);
    assert_eq!(body, parse(GOOD).unwrap());
    assert_eq!(stages.len(), 3);
}

#[test]
fn broken_answer_is_repaired() {
    let repaired = format!("Sure: {GOOD}");
    let (status, body, stages) = run(90, Ok("/p"), 0, Ok("{\"title\": oops"), 0, Ok(&repaired));
    assert_eq!(status, 200);
    assert_eq!(body, parse(GOOD).unwrap());
    assert_eq!(stages, vec![s("screenshot"), s("vlm_call"), s("validate"), s("llm_repair")]);
}

#[test]
fn failures_have_their_status() {
    let (status, body, _) = run(90, Err("no tv"), 0, Ok(GOOD), 0, Ok(GOOD));
    assert_eq!((status, code(&body), message(&body)), (502, s("SCREENSHOT_FAILED"), s("no tv")));
    let (status, body, _) = run(90, Ok("/p"), 90, Ok(GOOD), 0, Ok(GOOD));
    assert_eq!((status, code(&body)), (504, s("TIMEOUT")));
    assert_eq!(message(&body), "total request budget exhausted after screenshot");
    let (status, body, _) = run(90, Ok("/p"), 89, Err("down"), 0, Ok(GOOD));
    assert_eq!((status, code(&body), message(&body)), (502, s("VLM_FAILED"), s("down")));
    let (status, body, _) = run(90, Ok("/p"), 0, Ok("junk"), 91, Ok(GOOD));
    assert_eq!((status, code(&body)), (504, s("TIMEOUT")));
    assert_eq!(message(&body), "total request budget exhausted before repair pass");
    let (status, body, _) = run(90, Ok("/p"), 0, Ok("junk"), 1, Err("llm down"));
    assert_eq!((status, code(&body), message(&body)), (502, s("REPAIR_FAILED"), s("llm down")));
    let (status, body, _) = run(90, Ok("/p"), 0, Ok("junk"), 1, Ok("{}"));
    assert_eq!((status, code(&body)), (422, s("VLM_OUTPUT_INVALID")));
    assert_eq!(
        message(&body),
        "VLM output failed validation even after repair: screen_type must be a string; \
         title must be a string; summary must be a string; detected_elements must be an array; \
         suggested_actions must be an array; error must be null"
    );
}

#[test]
fn failures_are_shaped_like_analyses() {
    let (_, body, _) = run(1, Err("x"), 0, Ok(""), 0, Ok(""));
    assert_eq!(validate(&body), vec![s("error must be null")]);
    assert_eq!(body, error_object("SCREENSHOT_FAILED", "x"));
}

#[test]
fn unawaited_events_change_nothing() {
    let (p, notes) = Pipeline::start().step(10, Event::Elapsed(99));
    assert_eq!(p, Pipeline::Capturing);
    assert!(notes.is_empty());
    let done = Pipeline::Done { status: 200, body: Body::of(Json::Null) };
    assert_eq!(
        done.step(10, Event::Captured(Ok(s("/x")))).0,
        Pipeline::Done { status: 200, body: Body::of(Json::Null) }
    );
}

#[test]
fn complaints_are_exact() {
    assert_eq!(validate(&Json::Null), vec![s("the answer must be a JSON object")]);
    assert!(validate(&parse(GOOD).unwrap()).is_empty());
    let bad = r#"{"screen_type":1,"title":"t","summary":"s","detected_elements":[3,{"name":"n","confidence":1.5}],"suggested_actions":["a",null],"error":null}"#;
    assert_eq!(
        validate(&parse(bad).unwrap()),
        vec![
            s("screen_type must be a string"),
            s("detected_elements[0] must be an object"),
            s("detected_elements[1].description must be a string"),
            s("detected_elements[1].confidence must be a number between 0 and 1"),
            s("suggested_actions[1] must be a string"),
        ]
    );
    assert_eq!(validate_parsed(Err(s("eof"))), Err(vec![s("not valid JSON: eof")]));
    assert_eq!(
        parse_and_validate("{\"a\": oops"),
        Err(vec![s("not valid JSON: expected value at line 1 column 7")])
    );
    assert_eq!(parse_and_validate("[]"), Err(vec![s("the answer must be a JSON object")]));
    assert_eq!(parse_and_validate(GOOD), Ok(Body::parse(GOOD).unwrap()));
    assert!(SCHEMA_HINT.starts_with('{') && SCHEMA_HINT.contains("detected_elements"));
}

#[test]
fn objects_are_extracted() {
    assert_eq!(extract_json_candidate("no object"), None);
    assert_eq!(extract_json_candidate("{ open"), None);
    assert_eq!(extract_json_candidate("a {\"k\":{}} b {}"), Some(s("{\"k\":{}}")));
    assert_eq!(extract_json_candidate(r#"x {"a":"}\"{"} y"#), Some(s(r#"{"a":"}\"{"}"#)));
    assert_eq!(extract_json_candidate("{ \"a {} b"), Some(s("{}")));
    assert_eq!(extract_json_candidate("```\n{\"a\":1}\n"), Some(s("{\"a\":1}")));
    assert_eq!(extract_json_candidate("```\nnothing\n``` {\"b\":2}"), Some(s("{\"b\":2}")));
    assert_eq!(extract_json_candidate("{x} ```json\n{\"a\":1}\n```"), Some(s("{\"a\":1}")));
    assert_eq!(
        extract_json_candidate("the `object`:\n```json\n{\"a\":\"`b`\"}\n``` {}"),
        Some(s("{\"a\":\"`b`\"}"))
    );
}

#[test]
fn json_is_built_and_read() {
    let v = object(with_member(first_member("a", number(7)), "b", list(vec![text("x"), Json::Bool(true)])));
    assert_eq!(v.get("a"), Some(&Json::Number(s("7"))));
    assert_eq!(v.get("b").unwrap().nth(0), Some(&text("x")));
    assert_eq!(v.get("b").unwrap().nth(2), None);
    assert_eq!(v.get("c"), None);
    assert_eq!(v.nth(0), None);
    assert_eq!(Json::Null.get("a"), None);
}

#[test]
fn text_becomes_a_value_and_back() {
    let v = parse(" {\"b\": [1, -2, 0.5, 1e3, true, null], \"a\": \"x\\n\", \"b\": {}} ").unwrap();
    assert_eq!(v, object(with_member(first_member("a", text("x\n")), "b", Json::Object(Vec::new()))));
    let v = parse("[1, -2, 0.50, 1e3, 18446744073709551615]").unwrap();
    let n = |t: &str| Json::Number(s(t));
    assert_eq!(v, list(vec![n("1"), n("-2"), n("0.5"), n("1000.0"), n("18446744073709551615")]));
    assert_eq!(v.write(), "[1,-2,0.5,1000.0,18446744073709551615]");
    assert_eq!(error_object("C", "m \"q\"").write(),
        r#"{"detected_elements":[],"error":{"code":"C","message":"m \"q\""},"screen_type":"","suggested_actions":[],"summary":"","title":""}"#);
    assert_eq!(parse(&parse(GOOD).unwrap().write()), parse(GOOD));
    assert_eq!(parse(""), Err(s("EOF while parsing a value at line 1 column 0")));
    assert_eq!(Json::Null.write(), "null");
}

#[test]
fn repairs_get_the_whole_answer() {
    let raw = "see: {\"title\": 1} and more";
    let c = course(90, Ok("/p"), 0, Ok(raw), 0, Ok(GOOD));
    assert_eq!(c.status, 200);
    assert_eq!(c.repaired, Some((s(raw), s(SCHEMA_HINT))));
    assert_eq!(course(90, Ok("/p"), 0, Ok(GOOD), 0, Ok(GOOD)).repaired, None);
}

#[test]
fn checks_are_noted() {
    assert!(course(90, Ok("/p"), 0, Ok(GOOD), 0, Err("x")).notes.is_empty());
    let fenced = format!("```json\n{GOOD}\n```");
    assert_eq!(
        course(90, Ok("/p"), 0, Ok(&fenced), 0, Err("x")).notes,
        vec![
            s("strict validation failed: not valid JSON: expected value at line 1 column 1"),
            s("recovered via fence/JSON extraction"),
        ]
    );
    assert_eq!(
        course(90, Ok("/p"), 0, Ok("[]"), 0, Ok(GOOD)).notes,
        vec![
            s("strict validation failed: the answer must be a JSON object"),
            s("no JSON object found to extract"),
            s("recovered via LLM repair pass"),
        ]
    );
    let notes = course(90, Ok("/p"), 0, Ok("x {oops} y"), 0, Err("down")).notes;
    assert_eq!(notes.len(), 2);
    assert_eq!(
        notes[1],
        "extracted candidate still invalid: not valid JSON: key must be a string at line 1 column 2"
    );
}

#[test]
fn verdicts_lead_on() {
    let bad = || Err(vec![s("a"), s("b")]);
    assert_eq!(
        after_check(s("{} x"), bad()),
        (
            Pipeline::Rechecking { raw: s("{} x"), candidate: s("{}") },
            vec![s("strict validation failed: a; b")]
        )
    );
    assert_eq!(after_recheck(s("r"), bad()).0, Pipeline::Unrecovered { raw: s("r") });
    let (end, notes) = after_repair(bad());
    assert!(notes.is_empty());
    match end {
        Pipeline::Done { status, body } => {
            assert_eq!(status, 422);
            assert_eq!(message(&body.value), "VLM output failed validation even after repair: a; b");
        }
        other => panic!("{:?}", other),
    }
}

#[test]
fn numbers_are_sent_as_they_were_read() {
    for literal in ["0.9500000000000362", "0.1", "1", "0.30000000000000004", "5e-324", "0.9999999999999999"] {
        let answer = GOOD.replace("0.9}", &format!("{literal}}}"));
        let c = course(90, Ok("/p"), 0, Ok(&answer), 0, Err("unused"));
        assert_eq!(c.status, 200);
        let value: serde_json::Value = serde_json::from_str(&answer).unwrap();
        assert_eq!(c.text, value.to_string());
    }
    let c = course(90, Err("no tv"), 0, Ok(GOOD), 0, Err("unused"));
    assert_eq!(c.text, error_object("SCREENSHOT_FAILED", "no tv").write());
}
