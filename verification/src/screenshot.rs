//! The course of one capture: obtain a fresh PNG of the screen.
//!
//! exec mode : run the screenshot binary with a timeout and pick up the PNG from
//!             the configured path, or from a path the binary printed.
//! watch mode: spawn nothing, wait for the configured path to be (re)written.
//!
//! A capture performs nothing itself. [`Capture::ask`] says what to do next; the
//! driver does it and hands the outcome back with [`Capture::step`], which also tells
//! what is worth a note in the log.
use vstd::prelude::*;
use vstd::utf8::{decode_utf8, valid_utf8};
use crate::config::{is_mode, ScreenshotConfig, ScreenshotView};
use crate::scan::{filled_lines_backwards, last_lines_first, lines_of, trim, trimmed};
use crate::text::{cat2, cat3, cat4, decimal, decimal_text, none, one, same_text, text_result, texts};

verus! {

// ---------------------------------------------------------------------------
// Text from bytes

/// What `String::from_utf8_lossy` makes of bytes.
pub uninterp spec fn lossy_text(bytes: Seq<u8>) -> Seq<char>;

/// Calls `String::from_utf8_lossy`. Its text depends on the bytes alone; valid
/// UTF-8 is decoded as it stands. What takes the place of invalid parts is not
/// stated.
#[verifier::external_body]
fn from_utf8_lossy(bytes: &Vec<u8>) -> (s: String)
    ensures
        s@ == lossy_text(bytes@),
        valid_utf8(bytes@) ==> s@ == decode_utf8(bytes@),
{
    String::from_utf8_lossy(bytes).into_owned()
}

/// What `format!` makes of a list of texts with `{:?}`.
pub uninterp spec fn debug_list(list: Seq<Seq<char>>) -> Seq<char>;

/// Calls `format!` with `{:?}`: the list in brackets, each text quoted and escaped. The
/// outcome depends on the texts alone.
#[verifier::external_body]
fn debug_texts(list: &Vec<String>) -> (s: String)
    ensures
        s@ == debug_list(texts(list@)),
{
    format!("{:?}", list)
}

// ---------------------------------------------------------------------------
// States, requests and events

/// How a process ended: whether it counts as success, and its status in words.
#[derive(Debug, PartialEq)]
pub struct Exit {
    pub success: bool,
    pub text: String,
}

/// What a process printed.
#[derive(Debug, PartialEq)]
pub struct Output {
    pub stdout: Vec<u8>,
    pub stderr: Vec<u8>,
}

/// Where a capture stands. `before` is the time the output file was last modified,
/// in nanoseconds since the epoch, as it was found at the start.
#[derive(Debug, PartialEq)]
pub enum Capture {
    /// exec: looks at the output file before the run.
    ExecStart,
    /// exec: spawns the binary.
    Spawning { before: Option<i128> },
    /// exec: waits for the binary to exit.
    Waiting { before: Option<i128> },
    /// exec: the binary took too long.
    Killing,
    /// exec: collects what the binary printed.
    Collecting { before: Option<i128>, exit: Exit },
    /// exec: asks whether the output file is there.
    Looking { before: Option<i128>, printed: Vec<String> },
    /// exec: asks whether the output file is new.
    Dating { before: Option<i128>, printed: Vec<String> },
    /// exec: asks whether a path that the binary printed is a file.
    Trying { printed: Vec<String>, at: usize },
    /// exec: asks whether there is an output file after all, though not a new one.
    Settling,
    /// watch: looks at the output file at the start.
    WatchStart,
    /// watch: asks for the time.
    Polling { before: Option<i128> },
    /// watch: asks whether the output file is there.
    PollLooking { before: Option<i128> },
    /// watch: asks whether the output file is new.
    PollDating { before: Option<i128> },
    /// watch: gives the writer a moment to finish the file.
    Finishing,
    /// watch: pauses before it looks again.
    Pausing { before: Option<i128> },
    /// The path of the screenshot, or why there is none.
    Done(Result<String, String>),
}

/// What a capture asks of its driver.
#[derive(Debug, PartialEq)]
pub enum Ask<'a> {
    /// The time at which a file was last modified.
    Modified(&'a str),
    /// To spawn a program.
    Spawn { program: &'a str, args: &'a Vec<String> },
    /// To wait, so many seconds at most, for the program to exit.
    Wait { secs: u64 },
    /// To kill the program and reap it.
    Kill,
    /// What the program printed.
    Collect,
    /// Whether a path is a file.
    IsFile(&'a str),
    /// The time since the capture began.
    Clock,
    /// To sleep.
    Sleep { millis: u64 },
    /// Nothing more.
    Nothing,
}

/// What the driver reports.
#[derive(Debug, PartialEq)]
pub enum Happened {
    Modified(Option<i128>),
    Spawned(Result<(), String>),
    Waited(Result<Option<Exit>, String>),
    Killed,
    Collected(Result<Output, String>),
    IsFile(bool),
    /// Nanoseconds since the capture began.
    Clock(u128),
    Slept,
}

pub struct ExitView {
    pub success: bool,
    pub text: Seq<char>,
}

impl View for Exit {
    type V = ExitView;

    open spec fn view(&self) -> ExitView {
        ExitView { success: self.success, text: self.text@ }
    }
}

pub enum CaptureView {
    ExecStart,
    Spawning { before: Option<i128> },
    Waiting { before: Option<i128> },
    Killing,
    Collecting { before: Option<i128>, exit: ExitView },
    Looking { before: Option<i128>, printed: Seq<Seq<char>> },
    Dating { before: Option<i128>, printed: Seq<Seq<char>> },
    Trying { printed: Seq<Seq<char>>, at: int },
    Settling,
    WatchStart,
    Polling { before: Option<i128> },
    PollLooking { before: Option<i128> },
    PollDating { before: Option<i128> },
    Finishing,
    Pausing { before: Option<i128> },
    Done(Result<Seq<char>, Seq<char>>),
}

impl View for Capture {
    type V = CaptureView;

    open spec fn view(&self) -> CaptureView {
        match *self {
            Capture::ExecStart => CaptureView::ExecStart,
            Capture::Spawning { before } => CaptureView::Spawning { before },
            Capture::Waiting { before } => CaptureView::Waiting { before },
            Capture::Killing => CaptureView::Killing,
            Capture::Collecting { before, exit } => CaptureView::Collecting { before, exit: exit@ },
            Capture::Looking { before, printed } => CaptureView::Looking {
                before,
                printed: texts(printed@),
            },
            Capture::Dating { before, printed } => CaptureView::Dating {
                before,
                printed: texts(printed@),
            },
            Capture::Trying { printed, at } => CaptureView::Trying {
                printed: texts(printed@),
                at: at as int,
            },
            Capture::Settling => CaptureView::Settling,
            Capture::WatchStart => CaptureView::WatchStart,
            Capture::Polling { before } => CaptureView::Polling { before },
            Capture::PollLooking { before } => CaptureView::PollLooking { before },
            Capture::PollDating { before } => CaptureView::PollDating { before },
            Capture::Finishing => CaptureView::Finishing,
            Capture::Pausing { before } => CaptureView::Pausing { before },
            Capture::Done(r) => CaptureView::Done(text_result(r)),
        }
    }
}

pub enum AskView {
    Modified(Seq<char>),
    Spawn { program: Seq<char>, args: Seq<Seq<char>> },
    Wait { secs: u64 },
    Kill,
    Collect,
    IsFile(Seq<char>),
    Clock,
    Sleep { millis: u64 },
    Nothing,
}

impl<'a> View for Ask<'a> {
    type V = AskView;

    open spec fn view(&self) -> AskView {
        match *self {
            Ask::Modified(path) => AskView::Modified(path@),
            Ask::Spawn { program, args } => AskView::Spawn {
                program: program@,
                args: texts(args@),
            },
            Ask::Wait { secs } => AskView::Wait { secs },
            Ask::Kill => AskView::Kill,
            Ask::Collect => AskView::Collect,
            Ask::IsFile(path) => AskView::IsFile(path@),
            Ask::Clock => AskView::Clock,
            Ask::Sleep { millis } => AskView::Sleep { millis },
            Ask::Nothing => AskView::Nothing,
        }
    }
}

pub struct OutputView {
    pub stdout: Seq<u8>,
    pub stderr: Seq<u8>,
}

pub enum HappenedView {
    Modified(Option<i128>),
    Spawned(Result<(), Seq<char>>),
    Waited(Result<Option<ExitView>, Seq<char>>),
    Killed,
    Collected(Result<OutputView, Seq<char>>),
    IsFile(bool),
    Clock(u128),
    Slept,
}

impl View for Happened {
    type V = HappenedView;

    open spec fn view(&self) -> HappenedView {
        match *self {
            Happened::Modified(t) => HappenedView::Modified(t),
            Happened::Spawned(r) => HappenedView::Spawned(
                match r {
                    Ok(u) => Ok(u),
                    Err(e) => Err(e@),
                },
            ),
            Happened::Waited(r) => HappenedView::Waited(
                match r {
                    Ok(Some(exit)) => Ok(Some(exit@)),
                    Ok(None) => Ok(None),
                    Err(e) => Err(e@),
                },
            ),
            Happened::Killed => HappenedView::Killed,
            Happened::Collected(r) => HappenedView::Collected(
                match r {
                    Ok(o) => Ok(OutputView { stdout: o.stdout@, stderr: o.stderr@ }),
                    Err(e) => Err(e@),
                },
            ),
            Happened::IsFile(yes) => HappenedView::IsFile(yes),
            Happened::Clock(nanos) => HappenedView::Clock(nanos),
            Happened::Slept => HappenedView::Slept,
        }
    }
}

// ---------------------------------------------------------------------------
// Requests

/// What a capture asks for in a state.
pub open spec fn asked(c: ScreenshotView, s: CaptureView) -> AskView {
    match s {
        CaptureView::ExecStart => AskView::Modified(c.output_path),
        CaptureView::Spawning { before } => AskView::Spawn { program: c.binary_path, args: c.args },
        CaptureView::Waiting { before } => AskView::Wait { secs: c.timeout_secs },
        CaptureView::Killing => AskView::Kill,
        CaptureView::Collecting { before, exit } => AskView::Collect,
        CaptureView::Looking { before, printed } => AskView::IsFile(c.output_path),
        CaptureView::Dating { before, printed } => AskView::Modified(c.output_path),
        CaptureView::Trying { printed, at } => if 0 <= at < printed.len() {
            AskView::IsFile(printed[at])
        } else {
            AskView::Nothing
        },
        CaptureView::Settling => AskView::IsFile(c.output_path),
        CaptureView::WatchStart => AskView::Modified(c.output_path),
        CaptureView::Polling { before } => AskView::Clock,
        CaptureView::PollLooking { before } => AskView::IsFile(c.output_path),
        CaptureView::PollDating { before } => AskView::Modified(c.output_path),
        CaptureView::Finishing => AskView::Sleep { millis: 200 },
        CaptureView::Pausing { before } => AskView::Sleep { millis: 250 },
        CaptureView::Done(_) => AskView::Nothing,
    }
}

// ---------------------------------------------------------------------------
// Transitions

/// The paths that a program may have printed: its filled lines, the last one first.
pub open spec fn printed_paths(stdout: Seq<u8>) -> Seq<Seq<char>> {
    filled_lines_backwards(lines_of(lossy_text(stdout)))
}

/// The state that tries the printed path at a place, or the one after the last.
pub open spec fn trying(printed: Seq<Seq<char>>, at: int) -> CaptureView {
    if at < printed.len() {
        CaptureView::Trying { printed, at }
    } else {
        CaptureView::Settling
    }
}

/// Whether so much time is too much for a timeout.
pub open spec fn is_late(timeout_secs: u64, nanos: u128) -> bool {
    nanos >= timeout_secs * 1_000_000_000
}

pub open spec fn spawn_failure(c: ScreenshotView, e: Seq<char>) -> Seq<char> {
    "failed to spawn "@ + c.binary_path + ": "@ + e
}

pub open spec fn timeout_failure(c: ScreenshotView) -> Seq<char> {
    "screenshot binary timed out after "@ + decimal_text(c.timeout_secs as nat) + "s"@
}

pub open spec fn exit_failure(exit: ExitView, stderr: Seq<u8>) -> Seq<char> {
    "screenshot binary exited with "@ + exit.text + ": "@ + trimmed(lossy_text(stderr))
}

pub open spec fn missing_failure(c: ScreenshotView) -> Seq<char> {
    "screenshot binary succeeded but no PNG found at "@ + c.output_path
        + " and stdout had no valid path"@
}

pub open spec fn watch_failure(c: ScreenshotView) -> Seq<char> {
    "no fresh screenshot appeared at "@ + c.output_path + " within "@ + decimal_text(
        c.timeout_secs as nat,
    ) + "s (watch mode)"@
}

/// Where a capture stands after an event. An event that it does not wait for changes
/// nothing.
pub open spec fn next(c: ScreenshotView, s: CaptureView, event: HappenedView) -> CaptureView {
    match (s, event) {
        (CaptureView::ExecStart, HappenedView::Modified(before)) => CaptureView::Spawning {
            before,
        },
        (CaptureView::Spawning { before }, HappenedView::Spawned(r)) => match r {
            Ok(_) => CaptureView::Waiting { before },
            Err(e) => CaptureView::Done(Err(spawn_failure(c, e))),
        },
        (CaptureView::Waiting { before }, HappenedView::Waited(r)) => match r {
            Ok(Some(exit)) => CaptureView::Collecting { before, exit },
            Ok(None) => CaptureView::Killing,
            Err(e) => CaptureView::Done(Err("wait failed: "@ + e)),
        },
        (CaptureView::Killing, HappenedView::Killed) => CaptureView::Done(Err(timeout_failure(c))),
        (CaptureView::Collecting { before, exit }, HappenedView::Collected(r)) => match r {
            Err(e) => CaptureView::Done(Err("read output failed: "@ + e)),
            Ok(o) => if exit.success {
                CaptureView::Looking { before, printed: printed_paths(o.stdout) }
            } else {
                CaptureView::Done(Err(exit_failure(exit, o.stderr)))
            },
        },
        (CaptureView::Looking { before, printed }, HappenedView::IsFile(yes)) => if yes {
            CaptureView::Dating { before, printed }
        } else {
            trying(printed, 0)
        },
        (CaptureView::Dating { before, printed }, HappenedView::Modified(now)) => if now != before {
            CaptureView::Done(Ok(c.output_path))
        } else {
            trying(printed, 0)
        },
        (CaptureView::Trying { printed, at }, HappenedView::IsFile(yes)) => if yes && 0 <= at
            < printed.len() {
            CaptureView::Done(Ok(printed[at]))
        } else {
            trying(printed, at + 1)
        },
        (CaptureView::Settling, HappenedView::IsFile(yes)) => if yes {
            CaptureView::Done(Ok(c.output_path))
        } else {
            CaptureView::Done(Err(missing_failure(c)))
        },
        (CaptureView::WatchStart, HappenedView::Modified(before)) => CaptureView::Polling {
            before,
        },
        (CaptureView::Polling { before }, HappenedView::Clock(nanos)) => if is_late(
            c.timeout_secs,
            nanos,
        ) {
            CaptureView::Done(Err(watch_failure(c)))
        } else {
            CaptureView::PollLooking { before }
        },
        (CaptureView::PollLooking { before }, HappenedView::IsFile(yes)) => if yes {
            CaptureView::PollDating { before }
        } else {
            CaptureView::Pausing { before }
        },
        (CaptureView::PollDating { before }, HappenedView::Modified(now)) => if now != before {
            CaptureView::Finishing
        } else {
            CaptureView::Pausing { before }
        },
        (CaptureView::Finishing, HappenedView::Slept) => CaptureView::Done(Ok(c.output_path)),
        (CaptureView::Pausing { before }, HappenedView::Slept) => CaptureView::Polling { before },
        _ => s,
    }
}

/// What is noted when an event is taken in.
pub open spec fn notes(c: ScreenshotView, s: CaptureView, event: HappenedView) -> Seq<Seq<char>> {
    match (s, event) {
        (CaptureView::ExecStart, HappenedView::Modified(_)) => seq![
            "exec "@ + c.binary_path + " "@ + debug_list(c.args),
        ],
        (CaptureView::Trying { printed, at }, HappenedView::IsFile(true)) => if 0 <= at
            < printed.len() {
            seq!["using path from stdout: "@ + printed[at]]
        } else {
            Seq::empty()
        },
        (CaptureView::Settling, HappenedView::IsFile(true)) => seq![
            "output mtime unchanged; accepting existing file"@,
        ],
        (CaptureView::WatchStart, HappenedView::Modified(_)) => seq![
            "watch mode: waiting up to "@ + decimal_text(c.timeout_secs as nat) + "s for "@
                + c.output_path + " to be written"@,
        ],
        _ => Seq::empty(),
    }
}

/// Where a capture starts: in watch mode if that is set, else in exec mode.
pub open spec fn started(c: ScreenshotView) -> CaptureView {
    if c.mode == "watch"@ {
        CaptureView::WatchStart
    } else {
        CaptureView::ExecStart
    }
}

/// Starts a capture.
pub fn capture(cfg: &ScreenshotConfig) -> (s: Capture)
    ensures
        s@ == started(cfg@),
{
    if same_text(cfg.mode.as_str(), "watch") {
        Capture::WatchStart
    } else {
        Capture::ExecStart
    }
}

/// Tells whether two modification times are the same.
fn same_time(a: Option<i128>, b: Option<i128>) -> (same: bool)
    ensures
        same == (a == b),
{
    match (a, b) {
        (Some(x), Some(y)) => x == y,
        (None, None) => true,
        _ => false,
    }
}

/// Goes on to the printed path at a place.
fn try_printed(printed: Vec<String>, at: usize) -> (s: Capture)
    ensures
        s@ == trying(texts(printed@), at as int),
{
    if at < printed.len() {
        Capture::Trying { printed, at }
    } else {
        Capture::Settling
    }
}

/// Ends with the output path.
fn found_output(cfg: &ScreenshotConfig) -> (s: Capture)
    ensures
        s@ == CaptureView::Done(Ok(cfg.output_path@)),
{
    Capture::Done(Ok(cfg.output_path.clone()))
}

/// Ends with a failure.
fn fail(message: String) -> (s: Capture)
    ensures
        s@ == CaptureView::Done(Err(message@)),
{
    Capture::Done(Err(message))
}

impl Capture {
    /// What to do next.
    pub fn ask<'a>(&'a self, cfg: &'a ScreenshotConfig) -> (a: Ask<'a>)
        ensures
            a@ == asked(cfg@, self@),
    {
        let output = cfg.output_path.as_str();
        match self {
            Capture::ExecStart => Ask::Modified(output),
            Capture::Spawning { before: _ } => Ask::Spawn {
                program: cfg.binary_path.as_str(),
                args: &cfg.args,
            },
            Capture::Waiting { before: _ } => Ask::Wait { secs: cfg.timeout_secs },
            Capture::Killing => Ask::Kill,
            Capture::Collecting { before: _, exit: _ } => Ask::Collect,
            Capture::Looking { before: _, printed: _ } => Ask::IsFile(output),
            Capture::Dating { before: _, printed: _ } => Ask::Modified(output),
            Capture::Trying { printed, at } => if *at < printed.len() {
                Ask::IsFile(printed[*at].as_str())
            } else {
                Ask::Nothing
            },
            Capture::Settling => Ask::IsFile(output),
            Capture::WatchStart => Ask::Modified(output),
            Capture::Polling { before: _ } => Ask::Clock,
            Capture::PollLooking { before: _ } => Ask::IsFile(output),
            Capture::PollDating { before: _ } => Ask::Modified(output),
            Capture::Finishing => Ask::Sleep { millis: 200 },
            Capture::Pausing { before: _ } => Ask::Sleep { millis: 250 },
            Capture::Done(_) => Ask::Nothing,
        }
    }

    /// What is worth a note when an event is taken in.
    fn noted(&self, cfg: &ScreenshotConfig, event: &Happened) -> (list: Vec<String>)
        ensures
            texts(list@) == notes(cfg@, self@, event@),
    {
        match (self, event) {
            (Capture::ExecStart, Happened::Modified(_)) => {
                let args = debug_texts(&cfg.args);
                one(cat4("exec ", cfg.binary_path.as_str(), " ", args.as_str()))
            },
            (Capture::Trying { printed, at }, Happened::IsFile(yes)) => if *yes && *at
                < printed.len() {
                one(cat2("using path from stdout: ", printed[*at].as_str()))
            } else {
                none()
            },
            (Capture::Settling, Happened::IsFile(yes)) => if *yes {
                one("output mtime unchanged; accepting existing file".to_owned())
            } else {
                none()
            },
            (Capture::WatchStart, Happened::Modified(_)) => {
                let secs = decimal(cfg.timeout_secs);
                let start = cat4(
                    "watch mode: waiting up to ",
                    secs.as_str(),
                    "s for ",
                    cfg.output_path.as_str(),
                );
                one(cat2(start.as_str(), " to be written"))
            },
            _ => none(),
        }
    }

    /// Takes an event in: where the capture then stands, and what is noted. What the
    /// binary printed is read as UTF-8 where it is UTF-8.
    pub fn step(self, cfg: &ScreenshotConfig, event: Happened) -> (r: (Capture, Vec<String>))
        ensures
            r.0@ == next(cfg@, self@, event@),
            texts(r.1@) == notes(cfg@, self@, event@),
            self@ matches CaptureView::Collecting { before, exit } ==> (event@
                matches HappenedView::Collected(Ok(o)) ==> {
                &&& exit.success && valid_utf8(o.stdout) ==> r.0@ == (CaptureView::Looking {
                    before,
                    printed: filled_lines_backwards(lines_of(decode_utf8(o.stdout))),
                })
                &&& !exit.success && valid_utf8(o.stderr) ==> r.0@ == CaptureView::Done(
                    Err(
                        "screenshot binary exited with "@ + exit.text + ": "@ + trimmed(
                            decode_utf8(o.stderr),
                        ),
                    ),
                )
            }),
    {
        let noted = self.noted(cfg, &event);
        (self.moved(cfg, event), noted)
    }

    /// Goes on after an event.
    fn moved(self, cfg: &ScreenshotConfig, event: Happened) -> (s: Capture)
        ensures
            s@ == next(cfg@, self@, event@),
            self@ matches CaptureView::Collecting { before, exit } ==> (event@
                matches HappenedView::Collected(Ok(o)) ==> {
                &&& exit.success && valid_utf8(o.stdout) ==> lossy_text(o.stdout) == decode_utf8(
                    o.stdout,
                )
                &&& !exit.success && valid_utf8(o.stderr) ==> lossy_text(o.stderr) == decode_utf8(
                    o.stderr,
                )
            }),
    {
        match (self, event) {
            (Capture::ExecStart, Happened::Modified(before)) => Capture::Spawning { before },
            (Capture::Spawning { before }, Happened::Spawned(r)) => match r {
                Ok(_) => Capture::Waiting { before },
                Err(e) => fail(
                    cat4("failed to spawn ", cfg.binary_path.as_str(), ": ", e.as_str()),
                ),
            },
            (Capture::Waiting { before }, Happened::Waited(r)) => match r {
                Ok(Some(exit)) => Capture::Collecting { before, exit },
                Ok(None) => Capture::Killing,
                Err(e) => fail(cat2("wait failed: ", e.as_str())),
            },
            (Capture::Killing, Happened::Killed) => {
                let secs = decimal(cfg.timeout_secs);
                fail(cat3("screenshot binary timed out after ", secs.as_str(), "s"))
            },
            (Capture::Collecting { before, exit }, Happened::Collected(r)) => match r {
                Err(e) => fail(cat2("read output failed: ", e.as_str())),
                Ok(o) => if exit.success {
                    let stdout = from_utf8_lossy(&o.stdout);
                    Capture::Looking { before, printed: last_lines_first(stdout.as_str()) }
                } else {
                    let stderr = from_utf8_lossy(&o.stderr);
                    let words = trim(stderr.as_str());
                    fail(
                        cat4(
                            "screenshot binary exited with ",
                            exit.text.as_str(),
                            ": ",
                            words.as_str(),
                        ),
                    )
                },
            },
            (Capture::Looking { before, printed }, Happened::IsFile(yes)) => if yes {
                Capture::Dating { before, printed }
            } else {
                try_printed(printed, 0)
            },
            (Capture::Dating { before, printed }, Happened::Modified(now)) => if !same_time(
                now,
                before,
            ) {
                found_output(cfg)
            } else {
                try_printed(printed, 0)
            },
            (Capture::Trying { printed, at }, Happened::IsFile(yes)) => if at < printed.len() {
                if yes {
                    Capture::Done(Ok(printed[at].clone()))
                } else {
                    try_printed(printed, at + 1)
                }
            } else {
                Capture::Settling
            },
            (Capture::Settling, Happened::IsFile(yes)) => if yes {
                found_output(cfg)
            } else {
                fail(
                    cat3(
                        "screenshot binary succeeded but no PNG found at ",
                        cfg.output_path.as_str(),
                        " and stdout had no valid path",
                    ),
                )
            },
            (Capture::WatchStart, Happened::Modified(before)) => Capture::Polling { before },
            (Capture::Polling { before }, Happened::Clock(nanos)) => {
                let limit: u128 = cfg.timeout_secs as u128 * 1_000_000_000;
                if nanos >= limit {
                    let secs = decimal(cfg.timeout_secs);
                    let message = cat4(
                        "no fresh screenshot appeared at ",
                        cfg.output_path.as_str(),
                        " within ",
                        secs.as_str(),
                    );
                    fail(cat2(message.as_str(), "s (watch mode)"))
                } else {
                    Capture::PollLooking { before }
                }
            },
            (Capture::PollLooking { before }, Happened::IsFile(yes)) => if yes {
                Capture::PollDating { before }
            } else {
                Capture::Pausing { before }
            },
            (Capture::PollDating { before }, Happened::Modified(now)) => if !same_time(
                now,
                before,
            ) {
                Capture::Finishing
            } else {
                Capture::Pausing { before }
            },
            (Capture::Finishing, Happened::Slept) => found_output(cfg),
            (Capture::Pausing { before }, Happened::Slept) => Capture::Polling { before },
            (s, _) => s,
        }
    }
}

// ---------------------------------------------------------------------------
// Laws: single steps

/// Whether an event is what a state waits for.
pub open spec fn awaits(s: CaptureView, event: HappenedView) -> bool {
    match s {
        CaptureView::ExecStart => event is Modified,
        CaptureView::Spawning { before } => event is Spawned,
        CaptureView::Waiting { before } => event is Waited,
        CaptureView::Killing => event is Killed,
        CaptureView::Collecting { before, exit } => event is Collected,
        CaptureView::Looking { before, printed } => event is IsFile,
        CaptureView::Dating { before, printed } => event is Modified,
        CaptureView::Trying { printed, at } => event is IsFile,
        CaptureView::Settling => event is IsFile,
        CaptureView::WatchStart => event is Modified,
        CaptureView::Polling { before } => event is Clock,
        CaptureView::PollLooking { before } => event is IsFile,
        CaptureView::PollDating { before } => event is Modified,
        CaptureView::Finishing => event is Slept,
        CaptureView::Pausing { before } => event is Slept,
        CaptureView::Done(_) => false,
    }
}

/// How far a capture in exec mode is from its end: phases to come, and printed
/// paths to try in this one.
pub open spec fn exec_rank(s: CaptureView) -> (nat, nat) {
    match s {
        CaptureView::ExecStart => (8, 0),
        CaptureView::Spawning { before } => (7, 0),
        CaptureView::Waiting { before } => (6, 0),
        CaptureView::Killing => (5, 0),
        CaptureView::Collecting { before, exit } => (5, 0),
        CaptureView::Looking { before, printed } => (4, 0),
        CaptureView::Dating { before, printed } => (3, 0),
        CaptureView::Trying { printed, at } => (
            2,
            if at < printed.len() {
                (printed.len() - at) as nat
            } else {
                0
            },
        ),
        CaptureView::Settling => (1, 0),
        _ => (0, 0),
    }
}

/// Whether a state belongs to exec mode and is not the end.
pub open spec fn is_exec(s: CaptureView) -> bool {
    exec_rank(s).0 > 0
}

/// Whether a state belongs to watch mode and is not the end.
pub open spec fn is_watch(s: CaptureView) -> bool {
    !is_exec(s) && !(s is Done)
}

/// In exec mode every awaited event brings the capture nearer to its end, so it
/// ends. An event that is not awaited changes nothing, in either mode.
pub proof fn law_exec_progress(c: ScreenshotView, s: CaptureView, event: HappenedView)
    ensures
        is_exec(s) && awaits(s, event) ==> {
            let (phase, paths) = exec_rank(s);
            let (next_phase, next_paths) = exec_rank(next(c, s, event));
            next_phase < phase || (next_phase == phase && next_paths < paths)
        },
        !awaits(s, event) ==> next(c, s, event) == s,
{
}

/// With a capture mode that there is, the mode decides how a capture starts.
pub proof fn law_mode_decides(c: ScreenshotView)
    requires
        is_mode(c.mode),
    ensures
        started(c) is ExecStart <==> c.mode == "exec"@,
        started(c) is WatchStart <==> c.mode == "watch"@,
{
    reveal_strlit("exec");
    reveal_strlit("watch");
    assert("exec"@.len() == 4);
    assert("watch"@.len() == 5);
}

/// A capture stays in its mode until it ends.
pub proof fn law_mode_stays(c: ScreenshotView, s: CaptureView, event: HappenedView)
    ensures
        is_exec(s) ==> !is_watch(next(c, s, event)),
        is_watch(s) ==> !is_exec(next(c, s, event)),
{
}

/// What is found was seen: a path is the outcome only right after it was found to be
/// a file, or it is the output file and has changed since the start.
pub proof fn law_found_was_seen(
    c: ScreenshotView,
    s: CaptureView,
    event: HappenedView,
    path: Seq<char>,
)
    requires
        !(s is Done),
        next(c, s, event) == CaptureView::Done(Ok(path)),
    ensures
        ({
            ||| asked(c, s) == AskView::IsFile(path) && event == HappenedView::IsFile(true)
            ||| s matches CaptureView::Dating { before, printed } && event
                matches HappenedView::Modified(now) && now != before && path == c.output_path
            ||| s is Finishing && path == c.output_path
        }),
{
}

/// Only a file that has changed since the start lets a watch finish.
pub proof fn law_watch_finishes_fresh(c: ScreenshotView, s: CaptureView, event: HappenedView)
    requires
        !(s is Finishing),
        next(c, s, event) is Finishing,
    ensures
        s matches CaptureView::PollDating { before } && event matches HappenedView::Modified(now)
            && now != before,
{
}

/// A binary that fails gives no screenshot, whatever files there are.
pub proof fn law_failed_binary_gives_nothing(
    c: ScreenshotView,
    before: Option<i128>,
    exit: ExitView,
    event: HappenedView,
)
    requires
        !exit.success,
        awaits(CaptureView::Collecting { before, exit }, event),
    ensures
        next(c, CaptureView::Collecting { before, exit }, event) matches CaptureView::Done(r) && r is Err,
{
}

// ---------------------------------------------------------------------------
// Laws: watch mode

/// Where a capture stands after a sequence of events.
pub open spec fn after(c: ScreenshotView, events: Seq<HappenedView>) -> CaptureView
    decreases events.len(),
{
    if events.len() == 0 {
        started(c)
    } else {
        next(c, after(c, events.drop_last()), events.last())
    }
}

/// In watch mode nothing is ever spawned, waited for or killed, and the outcome, if
/// it is a path, is the output path.
pub proof fn law_watch_spawns_nothing(c: ScreenshotView, events: Seq<HappenedView>)
    requires
        c.mode == "watch"@,
    ensures
        !(asked(c, after(c, events)) is Spawn),
        !(asked(c, after(c, events)) is Wait),
        !(asked(c, after(c, events)) is Kill),
        !is_exec(after(c, events)),
        after(c, events) matches CaptureView::Done(Ok(path)) ==> path == c.output_path,
    decreases events.len(),
{
    if events.len() > 0 {
        law_watch_spawns_nothing(c, events.drop_last());
        law_mode_stays(c, after(c, events.drop_last()), events.last());
    }
}

/// One look of a watch: the time, whether the output file is there, and when it was
/// last modified.
pub struct Poll {
    pub nanos: u128,
    pub is_file: bool,
    pub modified: Option<i128>,
}

/// Where one look leads.
pub open spec fn polled(c: ScreenshotView, before: Option<i128>, poll: Poll) -> CaptureView {
    let timed = next(c, CaptureView::Polling { before }, HappenedView::Clock(poll.nanos));
    let looked = next(c, timed, HappenedView::IsFile(poll.is_file));
    let dated = next(c, looked, HappenedView::Modified(poll.modified));
    next(c, dated, HappenedView::Slept)
}

/// Whether a look comes too late.
pub open spec fn poll_late(c: ScreenshotView, poll: Poll) -> bool {
    is_late(c.timeout_secs, poll.nanos)
}

/// Whether a look finds a file that has changed.
pub open spec fn poll_fresh(before: Option<i128>, poll: Poll) -> bool {
    poll.is_file && poll.modified != before
}

/// Where a sequence of looks leads.
pub open spec fn watched(c: ScreenshotView, before: Option<i128>, polls: Seq<Poll>) -> CaptureView
    decreases polls.len(),
{
    if polls.len() == 0 {
        CaptureView::Polling { before }
    } else {
        match watched(c, before, polls.drop_last()) {
            CaptureView::Done(r) => CaptureView::Done(r),
            _ => polled(c, before, polls.last()),
        }
    }
}

/// A watch ends with the first look that comes too late, in failure, or that finds
/// a changed file, with the output path; until then it goes on looking.
pub proof fn law_watch_outcome(c: ScreenshotView, before: Option<i128>, polls: Seq<Poll>, k: int)
    requires
        0 <= k <= polls.len(),
        forall|i: int|
            0 <= i < k ==> !poll_late(c, #[trigger] polls[i]) && !poll_fresh(before, polls[i]),
        k < polls.len() ==> poll_late(c, polls[k]) || poll_fresh(before, polls[k]),
    ensures
        watched(c, before, polls) == if k == polls.len() {
            CaptureView::Polling { before }
        } else if poll_late(c, polls[k]) {
            CaptureView::Done(Err(watch_failure(c)))
        } else {
            CaptureView::Done(Ok(c.output_path))
        },
    decreases polls.len(),
{
    if polls.len() > 0 {
        let head = polls.drop_last();
        let n = head.len() as int;
        assert forall|i: int| 0 <= i < head.len() implies #[trigger] head[i] == polls[i] by {}
        if k < polls.len() {
            law_watch_outcome(c, before, head, k);
        } else {
            law_watch_outcome(c, before, head, n);
            assert(!poll_late(c, polls[n]) && !poll_fresh(before, polls[n]));
        }
    }
}

/// A watch that looks every quarter of a second at most ends: past four looks for every
/// second of the timeout it has either found a changed file or given up.
pub proof fn law_watch_ends(c: ScreenshotView, before: Option<i128>, polls: Seq<Poll>)
    requires
        forall|i: int| 0 <= i < polls.len() ==> (#[trigger] polls[i]).nanos >= i * 250_000_000,
        polls.len() > 4 * c.timeout_secs,
    ensures
        watched(c, before, polls) is Done,
{
    let last = polls.len() - 1;
    assert(polls[last].nanos >= last * 250_000_000);
    assert(poll_late(c, polls[last]));
}

// ---------------------------------------------------------------------------
// Laws: exec mode

/// Everything that a capture in exec mode can learn.
pub struct ExecWorld {
    /// When the output file was modified before the run.
    pub before: Option<i128>,
    pub spawned: Result<(), Seq<char>>,
    pub waited: Result<Option<ExitView>, Seq<char>>,
    pub collected: Result<OutputView, Seq<char>>,
    /// Which paths are files after the run.
    pub is_file: spec_fn(Seq<char>) -> bool,
    /// When the output file was modified as of after the run.
    pub now: Option<i128>,
}

/// The first of the paths from `at` on that is a file.
pub open spec fn first_file(
    paths: Seq<Seq<char>>,
    is_file: spec_fn(Seq<char>) -> bool,
    at: int,
) -> Option<Seq<char>>
    decreases paths.len() - at,
{
    if at < 0 || at >= paths.len() {
        None
    } else if is_file(paths[at]) {
        Some(paths[at])
    } else {
        first_file(paths, is_file, at + 1)
    }
}

impl ExecWorld {
    /// What the driver reports in a state.
    pub open spec fn event(self, c: ScreenshotView, s: CaptureView) -> HappenedView {
        match s {
            CaptureView::ExecStart => HappenedView::Modified(self.before),
            CaptureView::Spawning { before } => HappenedView::Spawned(self.spawned),
            CaptureView::Waiting { before } => HappenedView::Waited(self.waited),
            CaptureView::Killing => HappenedView::Killed,
            CaptureView::Collecting { before, exit } => HappenedView::Collected(self.collected),
            CaptureView::Trying { printed, at } => HappenedView::IsFile(
                (self.is_file)(printed[at]),
            ),
            CaptureView::Dating { before, printed } => HappenedView::Modified(self.now),
            _ => HappenedView::IsFile((self.is_file)(c.output_path)),
        }
    }

    /// The outcome once the binary has exited with success, in one piece: the output
    /// file if it is new; else the last line printed that is a file; else the output
    /// file though it is not new.
    pub open spec fn pick(self, c: ScreenshotView, printed: Seq<Seq<char>>) -> Result<
        Seq<char>,
        Seq<char>,
    > {
        if (self.is_file)(c.output_path) && self.now != self.before {
            Ok(c.output_path)
        } else {
            self.pick_printed(c, printed, 0)
        }
    }

    /// The outcome when the printed paths from `at` on remain to be tried.
    pub open spec fn pick_printed(
        self,
        c: ScreenshotView,
        printed: Seq<Seq<char>>,
        at: int,
    ) -> Result<Seq<char>, Seq<char>> {
        match first_file(printed, self.is_file, at) {
            Some(path) => Ok(path),
            None => if (self.is_file)(c.output_path) {
                Ok(c.output_path)
            } else {
                Err(missing_failure(c))
            },
        }
    }

    /// The outcome, in one piece.
    pub open spec fn outcome(self, c: ScreenshotView) -> Result<Seq<char>, Seq<char>> {
        match self.spawned {
            Err(e) => Err(spawn_failure(c, e)),
            Ok(_) => match self.waited {
                Err(e) => Err("wait failed: "@ + e),
                Ok(None) => Err(timeout_failure(c)),
                Ok(Some(exit)) => match self.collected {
                    Err(e) => Err("read output failed: "@ + e),
                    Ok(o) => if exit.success {
                        self.pick(c, printed_paths(o.stdout))
                    } else {
                        Err(exit_failure(exit, o.stderr))
                    },
                },
            },
        }
    }

    /// Where a capture that stands at `s` stands after `n` more events.
    pub open spec fn run(self, c: ScreenshotView, s: CaptureView, n: nat) -> CaptureView
        decreases n,
    {
        if n == 0 {
            s
        } else {
            self.run(c, next(c, s, self.event(c, s)), (n - 1) as nat)
        }
    }

    /// How many paths the binary printed.
    pub open spec fn printed_count(self) -> nat {
        match self.collected {
            Ok(o) => printed_paths(o.stdout).len(),
            Err(_) => 0,
        }
    }
}

proof fn lemma_end_stays(w: ExecWorld, c: ScreenshotView, r: Result<Seq<char>, Seq<char>>, n: nat)
    ensures
        w.run(c, CaptureView::Done(r), n) == CaptureView::Done(r),
    decreases n,
{
    if n > 0 {
        lemma_end_stays(w, c, r, (n - 1) as nat);
    }
}

proof fn lemma_tries(w: ExecWorld, c: ScreenshotView, printed: Seq<Seq<char>>, at: int, n: nat)
    requires
        0 <= at <= printed.len(),
        n >= printed.len() - at + 1,
    ensures
        w.run(c, trying(printed, at), n) == CaptureView::Done(w.pick_printed(c, printed, at)),
    decreases printed.len() - at,
{
    let s = trying(printed, at);
    let t = next(c, s, w.event(c, s));
    assert(w.run(c, s, n) == w.run(c, t, (n - 1) as nat));
    if at < printed.len() {
        if (w.is_file)(printed[at]) {
            lemma_end_stays(w, c, Ok(printed[at]), (n - 1) as nat);
        } else {
            lemma_tries(w, c, printed, at + 1, (n - 1) as nat);
        }
    } else {
        lemma_end_stays(w, c, w.pick_printed(c, printed, at), (n - 1) as nat);
    }
}

/// Step by step, a capture in exec mode comes to the outcome that
/// [`ExecWorld::outcome`] states in one piece.
pub proof fn law_exec_course(w: ExecWorld, c: ScreenshotView, n: nat)
    requires
        n >= 7 + w.printed_count(),
    ensures
        w.run(c, CaptureView::ExecStart, n) == CaptureView::Done(w.outcome(c)),
{
    reveal_with_fuel(ExecWorld::run, 7);
    let before = w.before;
    match w.spawned {
        Err(e) => {
            lemma_end_stays(w, c, w.outcome(c), (n - 2) as nat);
        },
        Ok(_) => match w.waited {
            Err(e) => {
                lemma_end_stays(w, c, w.outcome(c), (n - 3) as nat);
            },
            Ok(None) => {
                lemma_end_stays(w, c, w.outcome(c), (n - 4) as nat);
            },
            Ok(Some(exit)) => match w.collected {
                Err(e) => {
                    lemma_end_stays(w, c, w.outcome(c), (n - 4) as nat);
                },
                Ok(o) => if exit.success {
                    let printed = printed_paths(o.stdout);
                    if (w.is_file)(c.output_path) {
                        if w.now != before {
                            lemma_end_stays(w, c, w.outcome(c), (n - 6) as nat);
                        } else {
                            lemma_tries(w, c, printed, 0, (n - 6) as nat);
                        }
                    } else {
                        lemma_tries(w, c, printed, 0, (n - 5) as nat);
                    }
                } else {
                    lemma_end_stays(w, c, w.outcome(c), (n - 4) as nat);
                },
            },
        },
    }
}

// ---------------------------------------------------------------------------
// Laws: what the driver is asked for

/// Whatever is asked for is what the settings say: the binary with its arguments, the
/// timeout to wait for it, and the output file to look at. Of other files only paths that
/// the binary printed are asked about. Sleeps are those of a watch.
pub proof fn law_asks_go_by_the_settings(c: ScreenshotView, s: CaptureView)
    ensures
        asked(c, s) matches AskView::Wait { secs } ==> secs == c.timeout_secs,
        asked(c, s) matches AskView::Spawn { program, args } ==> program == c.binary_path && args
            == c.args,
        asked(c, s) matches AskView::Modified(path) ==> path == c.output_path,
        asked(c, s) matches AskView::IsFile(path) ==> path == c.output_path || (s
            matches CaptureView::Trying { printed, at } && printed.contains(path)),
        asked(c, s) matches AskView::Sleep { millis } ==> millis == 200 || millis == 250,
{
    if let CaptureView::Trying { printed, at } = s {
        if 0 <= at < printed.len() {
            assert(printed.contains(printed[at]));
        }
    }
}

/// At every point of every capture, the driver that is asked to wait is asked to wait as
/// long as the settings say, and the one that is asked to spawn is asked for the binary.
pub proof fn law_timeout_is_the_one_set(c: ScreenshotView, events: Seq<HappenedView>)
    ensures
        asked(c, after(c, events)) matches AskView::Wait { secs } ==> secs == c.timeout_secs,
        asked(c, after(c, events)) matches AskView::Spawn { program, args } ==> program
            == c.binary_path && args == c.args,
{
}

/// A capture in exec mode first looks at the output file, then spawns the binary, then
/// waits for it. If it cannot be spawned, or waited for, the capture fails.
pub proof fn law_exec_runs_the_binary(
    c: ScreenshotView,
    before: Option<i128>,
    e: Seq<char>,
)
    requires
        c.mode != "watch"@,
    ensures
        ({
            let s0 = after(c, Seq::empty());
            let s1 = next(c, s0, HappenedView::Modified(before));
            let s2 = next(c, s1, HappenedView::Spawned(Ok(())));
            &&& asked(c, s0) == AskView::Modified(c.output_path)
            &&& asked(c, s1) == (AskView::Spawn { program: c.binary_path, args: c.args })
            &&& asked(c, s2) == (AskView::Wait { secs: c.timeout_secs })
            &&& next(c, s1, HappenedView::Spawned(Err(e))) == CaptureView::Done(
                Err("failed to spawn "@ + c.binary_path + ": "@ + e),
            )
            &&& next(c, s2, HappenedView::Waited(Err(e))) == CaptureView::Done(
                Err("wait failed: "@ + e),
            )
        }),
{
}

/// A binary that is still running when the time is up is killed, and the capture fails.
pub proof fn law_timeout_kills(c: ScreenshotView, s: CaptureView)
    requires
        asked(c, s) is Wait,
    ensures
        ({
            let t = next(c, s, HappenedView::Waited(Ok(None)));
            &&& asked(c, t) is Kill
            &&& next(c, t, HappenedView::Killed) == CaptureView::Done(
                Err(
                    "screenshot binary timed out after "@ + decimal_text(c.timeout_secs as nat)
                        + "s"@,
                ),
            )
        }),
{
}

/// What a binary that has exited printed is collected. If it failed, what it printed as
/// its error is told; if it succeeded, the output file is looked at.
pub proof fn law_exit_is_followed_up(
    c: ScreenshotView,
    s: CaptureView,
    exit: ExitView,
    o: OutputView,
    e: Seq<char>,
)
    requires
        asked(c, s) is Wait,
    ensures
        ({
            let t = next(c, s, HappenedView::Waited(Ok(Some(exit))));
            let u = next(c, t, HappenedView::Collected(Ok(o)));
            &&& asked(c, t) is Collect
            &&& next(c, t, HappenedView::Collected(Err(e))) == CaptureView::Done(
                Err("read output failed: "@ + e),
            )
            &&& exit.success ==> asked(c, u) == AskView::IsFile(c.output_path)
            &&& !exit.success ==> u == CaptureView::Done(
                Err(
                    "screenshot binary exited with "@ + exit.text + ": "@ + trimmed(
                        lossy_text(o.stderr),
                    ),
                ),
            )
        }),
{
}

/// Where a capture in exec mode stands once the binary has exited with success.
pub open spec fn after_success(
    c: ScreenshotView,
    before: Option<i128>,
    exit: ExitView,
    o: OutputView,
) -> CaptureView {
    let s1 = next(c, started(c), HappenedView::Modified(before));
    let s2 = next(c, s1, HappenedView::Spawned(Ok(())));
    let s3 = next(c, s2, HappenedView::Waited(Ok(Some(exit))));
    next(c, s3, HappenedView::Collected(Ok(o)))
}

/// An output file that has changed is the screenshot. One that has not, or is not there,
/// gives way to the paths that the binary printed; with none of those either, an output
/// file that is there is taken after all.
pub proof fn law_output_file(
    c: ScreenshotView,
    before: Option<i128>,
    now: Option<i128>,
    exit: ExitView,
    o: OutputView,
)
    requires
        c.mode != "watch"@,
        exit.success,
    ensures
        ({
            let s = after_success(c, before, exit, o);
            let there = next(c, s, HappenedView::IsFile(true));
            let gone = next(c, s, HappenedView::IsFile(false));
            let stale = next(c, there, HappenedView::Modified(before));
            &&& asked(c, s) == AskView::IsFile(c.output_path)
            &&& asked(c, there) == AskView::Modified(c.output_path)
            &&& now != before ==> next(c, there, HappenedView::Modified(now)) == CaptureView::Done(
                Ok(c.output_path),
            )
            &&& stale == gone
            &&& printed_paths(o.stdout).len() > 0 ==> asked(c, gone) == AskView::IsFile(
                printed_paths(o.stdout)[0],
            )
            &&& printed_paths(o.stdout).len() == 0 ==> {
                &&& asked(c, gone) == AskView::IsFile(c.output_path)
                &&& next(c, gone, HappenedView::IsFile(true)) == CaptureView::Done(
                    Ok(c.output_path),
                )
                &&& next(c, gone, HappenedView::IsFile(false)) == CaptureView::Done(
                    Err(
                        "screenshot binary succeeded but no PNG found at "@ + c.output_path
                            + " and stdout had no valid path"@,
                    ),
                )
            }
        }),
{
}

/// The paths that a binary printed are the lines of its output that hold more than white
/// space, trimmed, and later lines come first.
pub proof fn law_printed_paths(stdout: Seq<u8>, a: Seq<Seq<char>>, b: Seq<Seq<char>>, t: Seq<char>)
    requires
        lines_of(lossy_text(stdout)) == a + b,
    ensures
        printed_paths(stdout).contains(t) <==> t.len() > 0 && exists|i: int|
            0 <= i < (a + b).len() && t == trimmed(#[trigger] (a + b)[i]),
        printed_paths(stdout) == filled_lines_backwards(b) + filled_lines_backwards(a),
{
    crate::scan::law_filled_lines(a + b, t);
    crate::scan::law_last_line_comes_first(a, b);
}

/// Printed paths are tried one after the other, in order; the first that is a file is the
/// screenshot.
pub proof fn law_printed_paths_are_tried(c: ScreenshotView, printed: Seq<Seq<char>>, at: int)
    requires
        0 <= at < printed.len(),
    ensures
        ({
            let s = CaptureView::Trying { printed, at };
            let no = next(c, s, HappenedView::IsFile(false));
            &&& asked(c, s) == AskView::IsFile(printed[at])
            &&& next(c, s, HappenedView::IsFile(true)) == CaptureView::Done(Ok(printed[at]))
            &&& at + 1 < printed.len() ==> asked(c, no) == AskView::IsFile(printed[at + 1])
            &&& at + 1 == printed.len() ==> asked(c, no) == AskView::IsFile(c.output_path)
        }),
{
}

/// A watch looks at the output file, then asks for the time. Past the timeout it fails.
/// Before, it looks at the file again: a file that is there and has changed is the
/// screenshot after a moment of 200 milliseconds; otherwise it pauses for 250 and asks
/// for the time again.
pub proof fn law_watch_looks(
    c: ScreenshotView,
    before: Option<i128>,
    now: Option<i128>,
    nanos: u128,
)
    requires
        c.mode == "watch"@,
    ensures
        ({
            let s0 = after(c, Seq::empty());
            let s1 = next(c, s0, HappenedView::Modified(before));
            let s2 = next(c, s1, HappenedView::Clock(nanos));
            let gone = next(c, s2, HappenedView::IsFile(false));
            let there = next(c, s2, HappenedView::IsFile(true));
            let dated = next(c, there, HappenedView::Modified(now));
            &&& asked(c, s0) == AskView::Modified(c.output_path)
            &&& asked(c, s1) is Clock
            &&& nanos >= c.timeout_secs * 1_000_000_000 ==> s2 == CaptureView::Done(
                Err(
                    "no fresh screenshot appeared at "@ + c.output_path + " within "@
                        + decimal_text(c.timeout_secs as nat) + "s (watch mode)"@,
                ),
            )
            &&& nanos < c.timeout_secs * 1_000_000_000 ==> {
                &&& asked(c, s2) == AskView::IsFile(c.output_path)
                &&& asked(c, gone) == (AskView::Sleep { millis: 250 })
                &&& next(c, gone, HappenedView::Slept) == s1
                &&& asked(c, there) == AskView::Modified(c.output_path)
                &&& now == before ==> dated == gone
                &&& now != before ==> asked(c, dated) == (AskView::Sleep { millis: 200 }) && next(
                    c,
                    dated,
                    HappenedView::Slept,
                ) == CaptureView::Done(Ok(c.output_path))
            }
        }),
{
}

/// What is noted: the run of the binary, a printed path that is taken, an output file that
/// is taken though it has not changed, and the start of a watch. Nothing else is.
pub proof fn law_notes(c: ScreenshotView, s: CaptureView, event: HappenedView)
    ensures
        notes(c, s, event).len() <= 1,
        s is ExecStart && event is Modified ==> notes(c, s, event) == seq![
            "exec "@ + c.binary_path + " "@ + debug_list(c.args),
        ],
        s is WatchStart && event is Modified ==> notes(c, s, event) == seq![
            "watch mode: waiting up to "@ + decimal_text(c.timeout_secs as nat) + "s for "@
                + c.output_path + " to be written"@,
        ],
        s is Trying ==> (next(c, s, event) matches CaptureView::Done(Ok(path)) ==> notes(c, s, event)
            == seq!["using path from stdout: "@ + path]),
        s is Settling ==> (next(c, s, event) matches CaptureView::Done(Ok(path)) ==> notes(
            c,
            s,
            event,
        ) == seq!["output mtime unchanged; accepting existing file"@]),
        notes(c, s, event).len() > 0 ==> (s is ExecStart || s is WatchStart || (next(c, s, event)
            matches CaptureView::Done(Ok(_)))),
{
}

} // verus!
