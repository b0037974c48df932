//! The course of one analysis: capture, ask, validate, extract, repair.
//!
//! The pipeline performs nothing itself. [`Pipeline::ask`] says what to do next; the
//! driver does it and hands the outcome back with [`Pipeline::step`], which also tells
//! what is worth a note in the log.
use vstd::prelude::*;
use crate::extract::{candidate, extract_json_candidate};
use crate::json::{body_of, body_result, parsed_body, parsed_json, rewritten_json, written_json, Body, BodyView, JsonView};
use crate::scan::{join, joined};
use crate::text::{cat2, is_ascii_text, none, one, text_result, texts};
use crate::validate::{error_object, failure, is_analysis, is_failure, law_failure_shape, problems, validate, SCHEMA_HINT};

verus! {

// ---------------------------------------------------------------------------
// States and events

/// Where an analysis stands.
#[derive(Debug, PartialEq)]
pub enum Pipeline {
    /// Waits for a screenshot.
    Capturing,
    /// Waits for the time spent so far, before the model is asked.
    Captured { path: String },
    /// Waits for the model's answer to the screenshot.
    Asking { path: String },
    /// Checks the answer as it is.
    Checking { raw: String },
    /// Checks the object found in the answer.
    Rechecking { raw: String, candidate: String },
    /// Waits for the time spent so far, before a repair is asked for.
    Unrecovered { raw: String },
    /// Waits for the repaired answer.
    Repairing { raw: String },
    /// Checks the repaired answer.
    Final { candidate: String },
    /// The HTTP status and the body to reply with.
    Done { status: u16, body: Body },
}

/// What the driver reports.
#[derive(Debug, PartialEq)]
pub enum Event {
    /// The path of the screenshot, or why there is none.
    Captured(Result<String, String>),
    /// Whole seconds since the request began.
    Elapsed(u64),
    /// The model's text, or why there is none.
    Answered(Result<String, String>),
    /// Nothing: the analysis goes on by itself.
    Proceeding,
}

/// What an analysis asks of its driver.
#[derive(Debug, PartialEq)]
pub enum Ask<'a> {
    /// To capture the screen.
    Capture,
    /// The whole seconds since the request began.
    Elapsed,
    /// To put the screenshot at a path to the model.
    Analyze { path: &'a str },
    /// To let the analysis go on by itself.
    Proceed,
    /// To have a text repaired so that it fits a schema.
    Repair { broken: &'a str, schema_hint: &'a str },
    /// Nothing more.
    Nothing,
}

pub enum AskView {
    Capture,
    Elapsed,
    Analyze { path: Seq<char> },
    Proceed,
    Repair { broken: Seq<char>, schema_hint: Seq<char> },
    Nothing,
}

impl<'a> View for Ask<'a> {
    type V = AskView;

    open spec fn view(&self) -> AskView {
        match *self {
            Ask::Capture => AskView::Capture,
            Ask::Elapsed => AskView::Elapsed,
            Ask::Analyze { path } => AskView::Analyze { path: path@ },
            Ask::Proceed => AskView::Proceed,
            Ask::Repair { broken, schema_hint } => AskView::Repair {
                broken: broken@,
                schema_hint: schema_hint@,
            },
            Ask::Nothing => AskView::Nothing,
        }
    }
}

pub enum PipelineView {
    Capturing,
    Captured { path: Seq<char> },
    Asking { path: Seq<char> },
    Checking { raw: Seq<char> },
    Rechecking { raw: Seq<char>, candidate: Seq<char> },
    Unrecovered { raw: Seq<char> },
    Repairing { raw: Seq<char> },
    Final { candidate: Seq<char> },
    Done { status: u16, body: BodyView },
}

pub enum EventView {
    Captured(Result<Seq<char>, Seq<char>>),
    Elapsed(u64),
    Answered(Result<Seq<char>, Seq<char>>),
    Proceeding,
}

impl View for Pipeline {
    type V = PipelineView;

    open spec fn view(&self) -> PipelineView {
        match *self {
            Pipeline::Capturing => PipelineView::Capturing,
            Pipeline::Captured { path } => PipelineView::Captured { path: path@ },
            Pipeline::Asking { path } => PipelineView::Asking { path: path@ },
            Pipeline::Checking { raw } => PipelineView::Checking { raw: raw@ },
            Pipeline::Rechecking { raw, candidate } => PipelineView::Rechecking {
                raw: raw@,
                candidate: candidate@,
            },
            Pipeline::Unrecovered { raw } => PipelineView::Unrecovered { raw: raw@ },
            Pipeline::Repairing { raw } => PipelineView::Repairing { raw: raw@ },
            Pipeline::Final { candidate } => PipelineView::Final { candidate: candidate@ },
            Pipeline::Done { status, body } => PipelineView::Done { status, body: body@ },
        }
    }
}

impl View for Event {
    type V = EventView;

    open spec fn view(&self) -> EventView {
        match *self {
            Event::Captured(r) => EventView::Captured(text_result(r)),
            Event::Elapsed(secs) => EventView::Elapsed(secs),
            Event::Answered(r) => EventView::Answered(text_result(r)),
            Event::Proceeding => EventView::Proceeding,
        }
    }
}

// ---------------------------------------------------------------------------
// Transitions

/// What validation says of what parsing gave: the value if it is an analysis,
/// else what is wrong.
pub open spec fn verdict(parsed: Result<BodyView, Seq<char>>) -> Result<BodyView, Seq<Seq<char>>> {
    match parsed {
        Ok(b) => if is_analysis(b.value) {
            Ok(b)
        } else {
            Err(problems(b.value))
        },
        Err(e) => Err(seq!["not valid JSON: "@ + e]),
    }
}

/// The end of an analysis that failed.
pub open spec fn failed(status: u16, code: Seq<char>, message: Seq<char>) -> PipelineView {
    PipelineView::Done { status, body: body_of(failure(code, message)) }
}

/// The text to parse after a repair: the object found in it, else all of it.
pub open spec fn repaired_candidate(repaired: Seq<char>) -> Seq<char> {
    match candidate(repaired) {
        Some(c) => c,
        None => repaired,
    }
}

/// Where the check of an answer leads.
pub open spec fn checked(
    raw: Seq<char>,
    found: Result<BodyView, Seq<Seq<char>>>,
) -> PipelineView {
    match found {
        Ok(b) => PipelineView::Done { status: 200, body: b },
        Err(_) => match candidate(raw) {
            Some(c) => PipelineView::Rechecking { raw, candidate: c },
            None => PipelineView::Unrecovered { raw },
        },
    }
}

/// What is noted of the check of an answer.
pub open spec fn check_notes(
    raw: Seq<char>,
    found: Result<BodyView, Seq<Seq<char>>>,
) -> Seq<Seq<char>> {
    match found {
        Ok(_) => Seq::empty(),
        Err(complaints) => {
            let failed = "strict validation failed: "@ + joined(complaints, "; "@);
            match candidate(raw) {
                Some(_) => seq![failed],
                None => seq![failed, "no JSON object found to extract"@],
            }
        },
    }
}

/// Where the check of the object found in an answer leads.
pub open spec fn rechecked(
    raw: Seq<char>,
    found: Result<BodyView, Seq<Seq<char>>>,
) -> PipelineView {
    match found {
        Ok(b) => PipelineView::Done { status: 200, body: b },
        Err(_) => PipelineView::Unrecovered { raw },
    }
}

/// What is noted of the check of the object found in an answer.
pub open spec fn recheck_notes(found: Result<BodyView, Seq<Seq<char>>>) -> Seq<Seq<char>> {
    match found {
        Ok(_) => seq!["recovered via fence/JSON extraction"@],
        Err(complaints) => seq![
            "extracted candidate still invalid: "@ + joined(complaints, "; "@),
        ],
    }
}

/// Where the check of a repaired answer leads.
pub open spec fn concluded(found: Result<BodyView, Seq<Seq<char>>>) -> PipelineView {
    match found {
        Ok(b) => PipelineView::Done { status: 200, body: b },
        Err(complaints) => failed(
            422,
            "VLM_OUTPUT_INVALID"@,
            "VLM output failed validation even after repair: "@ + joined(complaints, "; "@),
        ),
    }
}

/// What is noted of the check of a repaired answer.
pub open spec fn conclusion_notes(found: Result<BodyView, Seq<Seq<char>>>) -> Seq<Seq<char>> {
    match found {
        Ok(_) => seq!["recovered via LLM repair pass"@],
        Err(_) => Seq::empty(),
    }
}

/// What parsing and validation say of a text.
pub open spec fn judged(text: Seq<char>) -> Result<BodyView, Seq<Seq<char>>> {
    verdict(parsed_body(text))
}

/// Where an analysis stands after an event. An event that it does not wait for
/// changes nothing.
pub open spec fn next(p: PipelineView, budget: u64, event: EventView) -> PipelineView {
    match (p, event) {
        (PipelineView::Capturing, EventView::Captured(Ok(path))) => PipelineView::Captured { path },
        (PipelineView::Capturing, EventView::Captured(Err(e))) => failed(
            502,
            "SCREENSHOT_FAILED"@,
            e,
        ),
        (PipelineView::Captured { path }, EventView::Elapsed(secs)) => if secs >= budget {
            failed(504, "TIMEOUT"@, "total request budget exhausted after screenshot"@)
        } else {
            PipelineView::Asking { path }
        },
        (PipelineView::Asking { path }, EventView::Answered(Ok(raw))) => PipelineView::Checking {
            raw,
        },
        (PipelineView::Asking { path }, EventView::Answered(Err(e))) => failed(
            502,
            "VLM_FAILED"@,
            e,
        ),
        (PipelineView::Checking { raw }, EventView::Proceeding) => checked(raw, judged(raw)),
        (PipelineView::Rechecking { raw, candidate }, EventView::Proceeding) => rechecked(
            raw,
            judged(candidate),
        ),
        (PipelineView::Unrecovered { raw }, EventView::Elapsed(secs)) => if secs >= budget {
            failed(504, "TIMEOUT"@, "total request budget exhausted before repair pass"@)
        } else {
            PipelineView::Repairing { raw }
        },
        (PipelineView::Repairing { raw }, EventView::Answered(Ok(repaired))) =>
            PipelineView::Final { candidate: repaired_candidate(repaired) },
        (PipelineView::Repairing { raw }, EventView::Answered(Err(e))) => failed(
            502,
            "REPAIR_FAILED"@,
            e,
        ),
        (PipelineView::Final { candidate }, EventView::Proceeding) => concluded(judged(candidate)),
        _ => p,
    }
}

/// What is noted when an event is taken in.
pub open spec fn notes(p: PipelineView, event: EventView) -> Seq<Seq<char>> {
    match (p, event) {
        (PipelineView::Checking { raw }, EventView::Proceeding) => check_notes(raw, judged(raw)),
        (PipelineView::Rechecking { raw, candidate }, EventView::Proceeding) => recheck_notes(
            judged(candidate),
        ),
        (PipelineView::Final { candidate }, EventView::Proceeding) => conclusion_notes(
            judged(candidate),
        ),
        _ => Seq::empty(),
    }
}

/// What an analysis asks for in a state.
pub open spec fn asked(p: PipelineView) -> AskView {
    match p {
        PipelineView::Capturing => AskView::Capture,
        PipelineView::Captured { path } => AskView::Elapsed,
        PipelineView::Asking { path } => AskView::Analyze { path },
        PipelineView::Checking { raw } => AskView::Proceed,
        PipelineView::Rechecking { raw, candidate } => AskView::Proceed,
        PipelineView::Unrecovered { raw } => AskView::Elapsed,
        PipelineView::Repairing { raw } => AskView::Repair {
            broken: raw,
            schema_hint: SCHEMA_HINT@,
        },
        PipelineView::Final { candidate } => AskView::Proceed,
        PipelineView::Done { status, body } => AskView::Nothing,
    }
}

/// What validation gave.
pub open spec fn verdict_view(r: Result<Body, Vec<String>>) -> Result<BodyView, Seq<Seq<char>>> {
    match r {
        Ok(v) => Ok(v@),
        Err(found) => Err(texts(found@)),
    }
}

/// Validates what parsing gave.
pub fn validate_parsed(parsed: Result<Body, String>) -> (r: Result<Body, Vec<String>>)
    ensures
        verdict_view(r) == verdict(body_result(parsed)),
{
    match parsed {
        Ok(b) => {
            let found = validate(&b.value);
            if found.len() == 0 {
                Ok(b)
            } else {
                Err(found)
            }
        },
        Err(e) => {
            let found = one(cat2("not valid JSON: ", e.as_str()));
            Err(found)
        },
    }
}

/// Parses a text and validates what it says.
pub fn parse_and_validate(text: &str) -> (r: Result<Body, Vec<String>>)
    ensures
        verdict_view(r) == judged(text@),
{
    validate_parsed(Body::parse(text))
}

/// Goes on after the check of an answer, with what is noted of it.
pub fn after_check(raw: String, found: Result<Body, Vec<String>>) -> (r: (Pipeline, Vec<String>))
    ensures
        r.0@ == checked(raw@, verdict_view(found)),
        texts(r.1@) == check_notes(raw@, verdict_view(found)),
{
    match found {
        Ok(body) => (Pipeline::Done { status: 200, body }, none()),
        Err(complaints) => {
            let list = join(&complaints, "; ");
            let mut noted = one(cat2("strict validation failed: ", list.as_str()));
            match extract_json_candidate(raw.as_str()) {
                Some(candidate) => (Pipeline::Rechecking { raw, candidate }, noted),
                None => {
                    let ghost before = texts(noted@);
                    noted.push("no JSON object found to extract".to_owned());
                    assert(texts(noted@) =~= before.push("no JSON object found to extract"@));
                    (Pipeline::Unrecovered { raw }, noted)
                },
            }
        },
    }
}

/// Goes on after the check of the object found in an answer, with what is noted of it.
pub fn after_recheck(raw: String, found: Result<Body, Vec<String>>) -> (r: (Pipeline, Vec<String>))
    ensures
        r.0@ == rechecked(raw@, verdict_view(found)),
        texts(r.1@) == recheck_notes(verdict_view(found)),
{
    match found {
        Ok(body) => (
            Pipeline::Done { status: 200, body },
            one("recovered via fence/JSON extraction".to_owned()),
        ),
        Err(complaints) => {
            let list = join(&complaints, "; ");
            (
                Pipeline::Unrecovered { raw },
                one(cat2("extracted candidate still invalid: ", list.as_str())),
            )
        },
    }
}

/// Goes on after the check of a repaired answer, with what is noted of it.
pub fn after_repair(found: Result<Body, Vec<String>>) -> (r: (Pipeline, Vec<String>))
    ensures
        r.0@ == concluded(verdict_view(found)),
        texts(r.1@) == conclusion_notes(verdict_view(found)),
{
    match found {
        Ok(body) => (
            Pipeline::Done { status: 200, body },
            one("recovered via LLM repair pass".to_owned()),
        ),
        Err(complaints) => {
            let list = join(&complaints, "; ");
            let message = cat2("VLM output failed validation even after repair: ", list.as_str());
            (fail(422, "VLM_OUTPUT_INVALID", message.as_str()), none())
        },
    }
}

/// Ends an analysis that failed.
fn fail(status: u16, code: &str, message: &str) -> (p: Pipeline)
    ensures
        p@ == failed(status, code@, message@),
{
    Pipeline::Done { status, body: Body::of(error_object(code, message)) }
}

impl Pipeline {
    /// Where every analysis starts.
    pub fn start() -> (p: Pipeline)
        ensures
            p@ == PipelineView::Capturing,
    {
        Pipeline::Capturing
    }

    /// What to do next.
    pub fn ask<'a>(&'a self) -> (a: Ask<'a>)
        ensures
            a@ == asked(self@),
    {
        match self {
            Pipeline::Capturing => Ask::Capture,
            Pipeline::Captured { path: _ } => Ask::Elapsed,
            Pipeline::Asking { path } => Ask::Analyze { path: path.as_str() },
            Pipeline::Checking { raw: _ } => Ask::Proceed,
            Pipeline::Rechecking { raw: _, candidate: _ } => Ask::Proceed,
            Pipeline::Unrecovered { raw: _ } => Ask::Elapsed,
            Pipeline::Repairing { raw } => Ask::Repair {
                broken: raw.as_str(),
                schema_hint: SCHEMA_HINT,
            },
            Pipeline::Final { candidate: _ } => Ask::Proceed,
            Pipeline::Done { status: _, body: _ } => Ask::Nothing,
        }
    }

    /// Takes an event in: where the analysis then stands, and what is noted. `budget`
    /// is the whole seconds that the request may take.
    pub fn step(self, budget: u64, event: Event) -> (r: (Pipeline, Vec<String>))
        ensures
            r.0@ == next(self@, budget, event@),
            texts(r.1@) == notes(self@, event@),
    {
        match (self, event) {
            (Pipeline::Capturing, Event::Captured(r)) => match r {
                Ok(path) => (Pipeline::Captured { path }, none()),
                Err(e) => (fail(502, "SCREENSHOT_FAILED", e.as_str()), none()),
            },
            (Pipeline::Captured { path }, Event::Elapsed(secs)) => if secs >= budget {
                (fail(504, "TIMEOUT", "total request budget exhausted after screenshot"), none())
            } else {
                (Pipeline::Asking { path }, none())
            },
            (Pipeline::Asking { path: _ }, Event::Answered(r)) => match r {
                Ok(raw) => (Pipeline::Checking { raw }, none()),
                Err(e) => (fail(502, "VLM_FAILED", e.as_str()), none()),
            },
            (Pipeline::Checking { raw }, Event::Proceeding) => {
                let found = parse_and_validate(raw.as_str());
                after_check(raw, found)
            },
            (Pipeline::Rechecking { raw, candidate }, Event::Proceeding) => after_recheck(
                raw,
                parse_and_validate(candidate.as_str()),
            ),
            (Pipeline::Unrecovered { raw }, Event::Elapsed(secs)) => if secs >= budget {
                (fail(504, "TIMEOUT", "total request budget exhausted before repair pass"), none())
            } else {
                (Pipeline::Repairing { raw }, none())
            },
            (Pipeline::Repairing { raw: _ }, Event::Answered(r)) => match r {
                Ok(repaired) => match extract_json_candidate(repaired.as_str()) {
                    Some(candidate) => (Pipeline::Final { candidate }, none()),
                    None => (Pipeline::Final { candidate: repaired }, none()),
                },
                Err(e) => (fail(502, "REPAIR_FAILED", e.as_str()), none()),
            },
            (Pipeline::Final { candidate }, Event::Proceeding) => after_repair(
                parse_and_validate(candidate.as_str()),
            ),
            (p, _) => (p, none()),
        }
    }
}

// ---------------------------------------------------------------------------
// Stages

/// The stage that begins when an analysis reaches a state, if one does.
pub open spec fn stage_of(p: PipelineView) -> Option<Seq<char>> {
    match p {
        PipelineView::Capturing => Some("screenshot"@),
        PipelineView::Asking { path } => Some("vlm_call"@),
        PipelineView::Checking { raw } => Some("validate"@),
        PipelineView::Repairing { raw } => Some("llm_repair"@),
        _ => None,
    }
}

impl Pipeline {
    /// The stage that begins here, if one does.
    pub fn stage(&self) -> (name: Option<&'static str>)
        ensures
            match name {
                Some(n) => stage_of(self@) == Some(n@),
                None => stage_of(self@) is None,
            },
    {
        match self {
            Pipeline::Capturing => Some("screenshot"),
            Pipeline::Asking { path: _ } => Some("vlm_call"),
            Pipeline::Checking { raw: _ } => Some("validate"),
            Pipeline::Repairing { raw: _ } => Some("llm_repair"),
            _ => None,
        }
    }
}

/// The names of the stages are plain.
pub proof fn law_stage_names_are_ascii(p: PipelineView)
    ensures
        stage_of(p) matches Some(name) ==> is_ascii_text(name),
{
    reveal_strlit("screenshot");
    reveal_strlit("vlm_call");
    reveal_strlit("validate");
    reveal_strlit("llm_repair");
}

// ---------------------------------------------------------------------------
// Laws: every reply

/// Whether a status and a body may be replied: an analysis with 200, or a failure
/// in the shape of an analysis whose code belongs to the status.
pub open spec fn is_reply(status: u16, body: BodyView) -> bool {
    ||| status == 200 && is_analysis(body.value)
    ||| is_failure(body.value) && exists|code: Seq<char>, message: Seq<char>|
        body == body_of(#[trigger] failure(code, message)) && belongs(status, code)
}

/// The failure codes that go with a status.
pub open spec fn belongs(status: u16, code: Seq<char>) -> bool {
    ||| status == 422 && code == "VLM_OUTPUT_INVALID"@
    ||| status == 502 && (code == "SCREENSHOT_FAILED"@ || code == "VLM_FAILED"@ || code
        == "REPAIR_FAILED"@)
    ||| status == 504 && code == "TIMEOUT"@
}

/// Whether a state, if it is the end, holds what may be replied.
pub open spec fn is_sound(p: PipelineView) -> bool {
    p matches PipelineView::Done { status, body } ==> is_reply(status, body)
}

/// No event leads from a sound state to an unsound one.
pub proof fn law_step_keeps_sound(p: PipelineView, budget: u64, event: EventView)
    requires
        is_sound(p),
    ensures
        is_sound(next(p, budget, event)),
{
    match (p, event) {
        (PipelineView::Capturing, EventView::Captured(Err(e))) => {
            law_failure_shape("SCREENSHOT_FAILED"@, e);
        },
        (PipelineView::Captured { path }, EventView::Elapsed(secs)) => {
            law_failure_shape("TIMEOUT"@, "total request budget exhausted after screenshot"@);
        },
        (PipelineView::Asking { path }, EventView::Answered(Err(e))) => {
            law_failure_shape("VLM_FAILED"@, e);
        },
        (PipelineView::Unrecovered { raw }, EventView::Elapsed(secs)) => {
            law_failure_shape("TIMEOUT"@, "total request budget exhausted before repair pass"@);
        },
        (PipelineView::Repairing { raw }, EventView::Answered(Err(e))) => {
            law_failure_shape("REPAIR_FAILED"@, e);
        },
        (PipelineView::Final { candidate }, EventView::Proceeding) => {
            if let Err(found) = judged(candidate) {
                law_failure_shape(
                    "VLM_OUTPUT_INVALID"@,
                    "VLM output failed validation even after repair: "@ + joined(found, "; "@),
                );
            }
        },
        _ => {},
    }
}

/// Where an analysis stands after a sequence of events.
pub open spec fn after(budget: u64, events: Seq<EventView>) -> PipelineView
    decreases events.len(),
{
    if events.len() == 0 {
        PipelineView::Capturing
    } else {
        next(after(budget, events.drop_last()), budget, events.last())
    }
}

/// Whatever happens, the reply is an object in the shape of an analysis. With 200
/// its `error` is null; with any other status its `error` is filled in.
pub proof fn law_reply_is_shaped(budget: u64, events: Seq<EventView>)
    ensures
        is_sound(after(budget, events)),
        after(budget, events) matches PipelineView::Done { status, body } ==> {
            &&& is_analysis(body.value) || is_failure(body.value)
            &&& status == 200 <==> is_analysis(body.value)
        },
    decreases events.len(),
{
    if events.len() > 0 {
        law_reply_is_shaped(budget, events.drop_last());
        law_step_keeps_sound(after(budget, events.drop_last()), budget, events.last());
    }
}

// ---------------------------------------------------------------------------
// Laws: progress

/// Whether an event is what a state waits for.
pub open spec fn awaits(p: PipelineView, event: EventView) -> bool {
    match p {
        PipelineView::Capturing => event is Captured,
        PipelineView::Captured { path } => event is Elapsed,
        PipelineView::Asking { path } => event is Answered,
        PipelineView::Checking { raw } => event is Proceeding,
        PipelineView::Rechecking { raw, candidate } => event is Proceeding,
        PipelineView::Unrecovered { raw } => event is Elapsed,
        PipelineView::Repairing { raw } => event is Answered,
        PipelineView::Final { candidate } => event is Proceeding,
        PipelineView::Done { status, body } => false,
    }
}

/// How many awaited events an analysis can still take in.
pub open spec fn rank(p: PipelineView) -> nat {
    match p {
        PipelineView::Capturing => 8,
        PipelineView::Captured { path } => 7,
        PipelineView::Asking { path } => 6,
        PipelineView::Checking { raw } => 5,
        PipelineView::Rechecking { raw, candidate } => 4,
        PipelineView::Unrecovered { raw } => 3,
        PipelineView::Repairing { raw } => 2,
        PipelineView::Final { candidate } => 1,
        PipelineView::Done { status, body } => 0,
    }
}

/// An awaited event always moves an analysis on, never back to a state of a kind it
/// was in before: so the model is asked once at most, one repair at most is asked
/// for, and the analysis ends. Any other event changes nothing.
pub proof fn law_progress(p: PipelineView, budget: u64, event: EventView)
    ensures
        awaits(p, event) ==> rank(next(p, budget, event)) < rank(p),
        !awaits(p, event) ==> next(p, budget, event) == p,
{
}

/// Once the budget is spent, nobody is asked any more: the reply is a timeout.
pub proof fn law_budget(p: PipelineView, budget: u64, secs: u64)
    requires
        secs >= budget,
        awaits(p, EventView::Elapsed(secs)),
    ensures
        next(p, budget, EventView::Elapsed(secs)) matches PipelineView::Done { status, body } && status
            == 504 && body.value.get("error"@)->0.get("code"@) == Some(JsonView::Text("TIMEOUT"@)),
{
    law_failure_shape("TIMEOUT"@, "total request budget exhausted after screenshot"@);
    law_failure_shape("TIMEOUT"@, "total request budget exhausted before repair pass"@);
}

// ---------------------------------------------------------------------------
// Laws: the whole course

/// The analysis that an answer itself gives: all of it, or the object in it.
pub open spec fn recovered(raw: Seq<char>) -> Option<BodyView> {
    match judged(raw) {
        Ok(v) => Some(v),
        Err(_) => match candidate(raw) {
            Some(c) => match judged(c) {
                Ok(v) => Some(v),
                Err(_) => None,
            },
            None => None,
        },
    }
}

/// Everything that an analysis can learn.
pub struct World {
    /// The path of the screenshot, or why there is none.
    pub capture: Result<Seq<char>, Seq<char>>,
    /// The seconds spent once there is a screenshot.
    pub secs_after_capture: u64,
    /// The model's answer, or why there is none.
    pub answer: Result<Seq<char>, Seq<char>>,
    /// The seconds spent before the repair.
    pub secs_before_repair: u64,
    /// The repaired answer, or why there is none.
    pub repair: Result<Seq<char>, Seq<char>>,
}

impl World {
    /// What the driver reports in a state.
    pub open spec fn event(self, p: PipelineView) -> EventView {
        match p {
            PipelineView::Capturing => EventView::Captured(self.capture),
            PipelineView::Captured { path } => EventView::Elapsed(self.secs_after_capture),
            PipelineView::Asking { path } => EventView::Answered(self.answer),
            PipelineView::Checking { raw } => EventView::Proceeding,
            PipelineView::Rechecking { raw, candidate } => EventView::Proceeding,
            PipelineView::Unrecovered { raw } => EventView::Elapsed(self.secs_before_repair),
            PipelineView::Repairing { raw } => EventView::Answered(self.repair),
            PipelineView::Final { candidate } => EventView::Proceeding,
            PipelineView::Done { status, body } => EventView::Elapsed(0),
        }
    }

    /// The reply, in one piece.
    pub open spec fn reply(self, budget: u64) -> (u16, BodyView) {
        match self.capture {
            Err(e) => (502u16, body_of(failure("SCREENSHOT_FAILED"@, e))),
            Ok(_) => if self.secs_after_capture >= budget {
                (
                    504u16,
                    body_of(failure("TIMEOUT"@, "total request budget exhausted after screenshot"@)),
                )
            } else {
                match self.answer {
                    Err(e) => (502u16, body_of(failure("VLM_FAILED"@, e))),
                    Ok(raw) => match recovered(raw) {
                        Some(v) => (200u16, v),
                        None => self.repaired_reply(budget),
                    },
                }
            },
        }
    }

    /// The reply when only a repair can help.
    pub open spec fn repaired_reply(self, budget: u64) -> (u16, BodyView) {
        if self.secs_before_repair >= budget {
            (504u16, body_of(failure("TIMEOUT"@, "total request budget exhausted before repair pass"@)))
        } else {
            match self.repair {
                Err(e) => (502u16, body_of(failure("REPAIR_FAILED"@, e))),
                Ok(repaired) => match judged(repaired_candidate(repaired)) {
                    Ok(v) => (200u16, v),
                    Err(found) => (
                        422u16,
                        body_of(
                            failure(
                                "VLM_OUTPUT_INVALID"@,
                                "VLM output failed validation even after repair: "@ + joined(
                                    found,
                                    "; "@,
                                ),
                            ),
                        ),
                    ),
                },
            }
        }
    }

    /// Where an analysis stands after `n` events.
    pub open spec fn run(self, budget: u64, n: nat) -> PipelineView
        decreases n,
    {
        if n == 0 {
            PipelineView::Capturing
        } else {
            let p = self.run(budget, (n - 1) as nat);
            next(p, budget, self.event(p))
        }
    }
}

/// Step by step, an analysis comes to the reply that [`World::reply`] states in one
/// piece, after eight events at most.
pub proof fn law_course(w: World, budget: u64)
    ensures
        ({
            let (status, body) = w.reply(budget);
            w.run(budget, 8) == PipelineView::Done { status, body }
        }),
{
    reveal_with_fuel(World::run, 9);
}

/// A valid answer is the reply, as it is, and no repair is asked for.
pub proof fn law_valid_answer_is_reply(w: World, budget: u64, raw: Seq<char>)
    requires
        w.capture is Ok,
        w.secs_after_capture < budget,
        w.answer == Ok::<Seq<char>, Seq<char>>(raw),
        recovered(raw) is Some,
    ensures
        w.reply(budget) == (200u16, recovered(raw)->0),
        forall|n: nat| !(#[trigger] w.run(budget, n) is Repairing),
{
    law_course(w, budget);
    reveal_with_fuel(World::run, 9);
    assert forall|n: nat| !(#[trigger] w.run(budget, n) is Repairing) by {
        if n > 8 {
            lemma_done_stays(w, budget, n);
        } else {
            assert(n == 0 || n == 1 || n == 2 || n == 3 || n == 4 || n == 5 || n == 6 || n == 7 || n
                == 8);
        }
    }
}

/// As events are taken in, the rank falls until the end.
proof fn lemma_rank_falls(w: World, budget: u64, n: nat, k: nat)
    requires
        n < k,
    ensures
        rank(w.run(budget, k)) < rank(w.run(budget, n)) || rank(w.run(budget, n)) == 0,
        rank(w.run(budget, k)) <= rank(w.run(budget, n)),
    decreases k,
{
    let p = w.run(budget, (k - 1) as nat);
    law_progress(p, budget, w.event(p));
    if n < k - 1 {
        lemma_rank_falls(w, budget, n, (k - 1) as nat);
    }
}

/// A repair is asked for once at most, and only when neither the answer nor the object
/// found in it is an analysis. What is to be repaired is the answer, whole and as it
/// came, and the schema is the one of an analysis.
pub proof fn law_repair_is_last_resort(w: World, budget: u64, n: nat, broken: Seq<char>, hint: Seq<char>)
    requires
        asked(w.run(budget, n)) == (AskView::Repair { broken, schema_hint: hint }),
    ensures
        w.answer == Ok::<Seq<char>, Seq<char>>(broken),
        hint == SCHEMA_HINT@,
        judged(broken) is Err,
        candidate(broken) matches Some(c) ==> judged(c) is Err,
        w.secs_before_repair < budget,
        forall|k: nat| (#[trigger] asked(w.run(budget, k))) is Repair ==> k == n,
{
    law_course(w, budget);
    reveal_with_fuel(World::run, 9);
    if n > 8 {
        lemma_done_stays(w, budget, n);
    } else {
        assert(n == 0 || n == 1 || n == 2 || n == 3 || n == 4 || n == 5 || n == 6 || n == 7 || n == 8);
    }
    assert forall|k: nat| (#[trigger] asked(w.run(budget, k))) is Repair implies k == n by {
        if k < n {
            lemma_rank_falls(w, budget, k, n);
        } else if n < k {
            lemma_rank_falls(w, budget, n, k);
        }
    }
}

proof fn lemma_done_stays(w: World, budget: u64, n: nat)
    requires
        n >= 8,
    ensures
        w.run(budget, n) == w.run(budget, 8),
    decreases n,
{
    law_course(w, budget);
    if n > 8 {
        lemma_done_stays(w, budget, (n - 1) as nat);
    }
}

// ---------------------------------------------------------------------------
// Laws: what each outcome leads to

/// Whether a state is the end, with a status and a failure of a code and a message.
pub open spec fn ends_in_failure(
    p: PipelineView,
    status: u16,
    code: Seq<char>,
    message: Seq<char>,
) -> bool {
    p matches PipelineView::Done { status: st, body } && st == status && is_failure(body.value)
        && body.value.get("error"@)->0.get("code"@) == Some(JsonView::Text(code))
        && body.value.get("error"@)->0.get("message"@) == Some(JsonView::Text(message))
}

/// Whether a state is the end, with status 200 and a body.
pub open spec fn ends_in(p: PipelineView, body: BodyView) -> bool {
    p matches PipelineView::Done { status, body: b } && status == 200 && b == body
}

/// A text is judged by what it parses to: an analysis is taken as it is, with the text
/// that is written for what was read; anything else is refused with what is wrong.
pub proof fn law_judged_by_what_is_read(text: Seq<char>)
    ensures
        parsed_json(text) matches Ok(v) ==> (is_analysis(v) ==> (judged(text) matches Ok(b) && b.value
            == v && b.text == rewritten_json(text))),
        parsed_json(text) matches Ok(v) ==> (!is_analysis(v) ==> judged(text) == Err::<
            BodyView,
            Seq<Seq<char>>,
        >(problems(v))),
        parsed_json(text) matches Err(e) ==> judged(text) == Err::<BodyView, Seq<Seq<char>>>(
            seq!["not valid JSON: "@ + e],
        ),
        judged(text) is Ok <==> (parsed_json(text) matches Ok(v) && is_analysis(v)),
{
}

/// An analysis starts by asking for a capture. A capture that fails ends it.
pub proof fn law_failed_capture_ends(budget: u64, e: Seq<char>)
    ensures
        asked(after(budget, Seq::empty())) is Capture,
        ends_in_failure(
            after(budget, seq![EventView::Captured(Err(e))]),
            502,
            "SCREENSHOT_FAILED"@,
            e,
        ),
{
    reveal_with_fuel(after, 2);
    let events = seq![EventView::Captured(Err(e))];
    assert(events.drop_last() =~= Seq::<EventView>::empty());
    law_failure_shape("SCREENSHOT_FAILED"@, e);
}

/// After a capture the time counts: within the budget the model is asked about that
/// screenshot, otherwise the analysis ends.
pub proof fn law_captured_screenshot_is_asked_about(budget: u64, path: Seq<char>, secs: u64)
    ensures
        ({
            let captured = after(budget, seq![EventView::Captured(Ok(path))]);
            let timed = next(captured, budget, EventView::Elapsed(secs));
            &&& asked(captured) is Elapsed
            &&& secs < budget ==> asked(timed) == (AskView::Analyze { path })
            &&& secs >= budget ==> ends_in_failure(
                timed,
                504,
                "TIMEOUT"@,
                "total request budget exhausted after screenshot"@,
            )
        }),
{
    reveal_with_fuel(after, 2);
    let events = seq![EventView::Captured(Ok(path))];
    assert(events.drop_last() =~= Seq::<EventView>::empty());
    law_failure_shape("TIMEOUT"@, "total request budget exhausted after screenshot"@);
}

/// A model that fails ends the analysis.
pub proof fn law_failed_model_ends(p: PipelineView, budget: u64, e: Seq<char>)
    requires
        asked(p) is Analyze,
    ensures
        ends_in_failure(next(p, budget, EventView::Answered(Err(e))), 502, "VLM_FAILED"@, e),
{
    law_failure_shape("VLM_FAILED"@, e);
}

/// What an answer leads to, by itself: if all of it is an analysis, that is the reply;
/// else if the object found in it is one, that is the reply; else the time counts before
/// a repair of the whole answer is asked for.
pub proof fn law_answer_is_judged(p: PipelineView, budget: u64, raw: Seq<char>, secs: u64)
    requires
        asked(p) is Analyze,
    ensures
        ({
            let answered = next(p, budget, EventView::Answered(Ok(raw)));
            let once = next(answered, budget, EventView::Proceeding);
            let twice = next(once, budget, EventView::Proceeding);
            &&& asked(answered) is Proceed
            &&& judged(raw) matches Ok(b) ==> ends_in(once, b)
            &&& judged(raw) is Err ==> (candidate(raw) matches Some(c) ==> (judged(c) matches Ok(b)
                ==> ends_in(twice, b)))
            &&& judged(raw) is Err && (candidate(raw) matches Some(c) ==> judged(c) is Err) ==> {
                let timed = next(twice, budget, EventView::Elapsed(secs));
                &&& asked(twice) is Elapsed
                &&& secs < budget ==> asked(timed) == (AskView::Repair {
                    broken: raw,
                    schema_hint: SCHEMA_HINT@,
                })
                &&& secs >= budget ==> ends_in_failure(
                    timed,
                    504,
                    "TIMEOUT"@,
                    "total request budget exhausted before repair pass"@,
                )
            }
        }),
{
    law_failure_shape("TIMEOUT"@, "total request budget exhausted before repair pass"@);
}

/// What a repaired answer leads to. The object found in it is judged, or all of it if
/// there is none: an analysis is the reply, anything else the end.
pub proof fn law_repaired_answer_is_judged(p: PipelineView, budget: u64, repaired: Seq<char>)
    requires
        asked(p) is Repair,
    ensures
        ({
            let answered = next(p, budget, EventView::Answered(Ok(repaired)));
            let end = next(answered, budget, EventView::Proceeding);
            &&& asked(answered) is Proceed
            &&& candidate(repaired) matches Some(c) ==> {
                &&& judged(c) matches Ok(b) ==> ends_in(end, b)
                &&& judged(c) matches Err(found) ==> ends_in_failure(
                    end,
                    422,
                    "VLM_OUTPUT_INVALID"@,
                    "VLM output failed validation even after repair: "@ + joined(found, "; "@),
                )
            }
            &&& candidate(repaired) is None ==> {
                &&& judged(repaired) matches Ok(b) ==> ends_in(end, b)
                &&& judged(repaired) matches Err(found) ==> ends_in_failure(
                    end,
                    422,
                    "VLM_OUTPUT_INVALID"@,
                    "VLM output failed validation even after repair: "@ + joined(found, "; "@),
                )
            }
        }),
{
    let c = match candidate(repaired) {
        Some(c) => c,
        None => repaired,
    };
    if let Err(found) = judged(c) {
        law_failure_shape(
            "VLM_OUTPUT_INVALID"@,
            "VLM output failed validation even after repair: "@ + joined(found, "; "@),
        );
    }
}

/// A repair that fails ends the analysis.
pub proof fn law_failed_repair_ends(p: PipelineView, budget: u64, e: Seq<char>)
    requires
        asked(p) is Repair,
    ensures
        ends_in_failure(next(p, budget, EventView::Answered(Err(e))), 502, "REPAIR_FAILED"@, e),
{
    law_failure_shape("REPAIR_FAILED"@, e);
}

/// An analysis in a fence marked as JSON, with anything around the fence, is as good as
/// the analysis alone, be it the model's answer or a repaired one.
pub proof fn law_fenced_analysis_is_taken(
    p: PipelineView,
    budget: u64,
    before: Seq<char>,
    t: Seq<char>,
    tail: Seq<char>,
    b: BodyView,
)
    requires
        crate::extract::is_object_text(t),
        !before.contains('`'),
        !t.contains('`'),
        judged(t) == Ok::<BodyView, Seq<Seq<char>>>(b),
        judged(crate::extract::in_fence(before, t, tail)) is Err,
    ensures
        ({
            let raw = crate::extract::in_fence(before, t, tail);
            let answered = next(p, budget, EventView::Answered(Ok(raw)));
            let once = next(answered, budget, EventView::Proceeding);
            &&& asked(p) is Analyze ==> ends_in(next(once, budget, EventView::Proceeding), b)
            &&& asked(p) is Repair ==> ends_in(once, b)
        }),
{
    crate::extract::law_unwraps_plain_fence(before, t, tail);
    let raw = crate::extract::in_fence(before, t, tail);
    if asked(p) is Analyze {
        law_answer_is_judged(p, budget, raw, 0);
    }
    if asked(p) is Repair {
        law_repaired_answer_is_judged(p, budget, raw);
    }
}

/// An analysis with plain prose around it is as good as the analysis alone, be it the
/// model's answer or a repaired one.
pub proof fn law_analysis_in_prose_is_taken(
    p: PipelineView,
    budget: u64,
    before: Seq<char>,
    t: Seq<char>,
    tail: Seq<char>,
    b: BodyView,
)
    requires
        crate::extract::is_object_text(t),
        !before.contains('{'),
        crate::extract::fence_from(before + t + tail, 0) is None,
        judged(t) == Ok::<BodyView, Seq<Seq<char>>>(b),
        judged(before + t + tail) is Err,
    ensures
        ({
            let answered = next(p, budget, EventView::Answered(Ok(before + t + tail)));
            let once = next(answered, budget, EventView::Proceeding);
            &&& asked(p) is Analyze ==> ends_in(next(once, budget, EventView::Proceeding), b)
            &&& asked(p) is Repair ==> ends_in(once, b)
        }),
{
    crate::extract::law_unwraps_prose(before, t, tail);
    if asked(p) is Analyze {
        law_answer_is_judged(p, budget, before + t + tail, 0);
    }
    if asked(p) is Repair {
        law_repaired_answer_is_judged(p, budget, before + t + tail);
    }
}

/// Whether the text of a body is the one that is written for its value: for what was
/// read from a text, as it was read.
pub open spec fn is_written(body: BodyView) -> bool {
    ||| body.text == written_json(body.value)
    ||| exists|t: Seq<char>|
        (#[trigger] parsed_json(t)) == Ok::<JsonView, Seq<char>>(body.value) && body.text
            == rewritten_json(t)
}

proof fn lemma_judged_is_written(t: Seq<char>)
    ensures
        judged(t) matches Ok(b) ==> is_written(b),
{
    if let Ok(b) = judged(t) {
        assert(parsed_json(t) == Ok::<JsonView, Seq<char>>(b.value));
    }
}

/// Whatever happens, the text of the reply is the one that is written for its value.
pub proof fn law_reply_text_is_written(budget: u64, events: Seq<EventView>)
    ensures
        after(budget, events) matches PipelineView::Done { status, body } ==> is_written(body),
    decreases events.len(),
{
    if events.len() > 0 {
        law_reply_text_is_written(budget, events.drop_last());
        let p = after(budget, events.drop_last());
        if let PipelineView::Checking { raw } = p {
            lemma_judged_is_written(raw);
        }
        if let PipelineView::Rechecking { raw, candidate } = p {
            lemma_judged_is_written(candidate);
        }
        if let PipelineView::Final { candidate } = p {
            lemma_judged_is_written(candidate);
        }
    }
}

/// Stages begin with the capture, with the question to the model, with the check of its
/// answer and with the repair; nothing else begins one.
pub proof fn law_stages(p: PipelineView, budget: u64, raw: Seq<char>)
    ensures
        asked(p) is Capture ==> stage_of(p) == Some("screenshot"@),
        asked(p) is Analyze ==> stage_of(p) == Some("vlm_call"@),
        asked(p) is Analyze ==> stage_of(next(p, budget, EventView::Answered(Ok(raw)))) == Some(
            "validate"@,
        ),
        asked(p) is Repair ==> stage_of(p) == Some("llm_repair"@),
        asked(p) is Repair ==> stage_of(next(p, budget, EventView::Answered(Ok(raw)))) is None,
        asked(p) is Elapsed ==> stage_of(p) is None,
        asked(p) is Nothing ==> stage_of(p) is None,
{
}

/// What is noted of an answer: nothing if it is an analysis; else what is wrong with it,
/// and whether an object was found; then whether that object helped.
pub proof fn law_answer_notes(p: PipelineView, budget: u64, raw: Seq<char>)
    requires
        asked(p) is Analyze,
    ensures
        ({
            let answered = next(p, budget, EventView::Answered(Ok(raw)));
            let once = next(answered, budget, EventView::Proceeding);
            &&& notes(p, EventView::Answered(Ok(raw))) == Seq::<Seq<char>>::empty()
            &&& judged(raw) is Ok ==> notes(answered, EventView::Proceeding) == Seq::<
                Seq<char>,
            >::empty()
            &&& judged(raw) matches Err(found) ==> {
                let wrong = "strict validation failed: "@ + joined(found, "; "@);
                &&& candidate(raw) is None ==> notes(answered, EventView::Proceeding) == seq![
                    wrong,
                    "no JSON object found to extract"@,
                ]
                &&& candidate(raw) matches Some(c) ==> {
                    &&& notes(answered, EventView::Proceeding) == seq![wrong]
                    &&& judged(c) is Ok ==> notes(once, EventView::Proceeding) == seq![
                        "recovered via fence/JSON extraction"@,
                    ]
                    &&& judged(c) matches Err(f) ==> notes(once, EventView::Proceeding) == seq![
                        "extracted candidate still invalid: "@ + joined(f, "; "@),
                    ]
                }
            }
        }),
{
}

/// What is noted of a repaired answer: that it helped, if it did.
pub proof fn law_repair_notes(p: PipelineView, budget: u64, repaired: Seq<char>)
    requires
        asked(p) is Repair,
    ensures
        ({
            let answered = next(p, budget, EventView::Answered(Ok(repaired)));
            let end = next(answered, budget, EventView::Proceeding);
            let helped = seq!["recovered via LLM repair pass"@];
            &&& notes(p, EventView::Answered(Ok(repaired))) == Seq::<Seq<char>>::empty()
            &&& end matches PipelineView::Done { status, body } && notes(
                answered,
                EventView::Proceeding,
            ) == (if status == 200 {
                helped
            } else {
                Seq::empty()
            })
        }),
{
}

} // verus!
