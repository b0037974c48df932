use analyze_screen_sidecar::config::ScreenshotConfig;
use analyze_screen_sidecar::screenshot::{capture, Ask, Capture, Exit, Happened, Output};

fn cfg(mode: &str) -> ScreenshotConfig {
    ScreenshotConfig {
        mode: mode.to_string(),
        binary_path: "/bin/shot".to_string(),
        args: vec!["-q".to_string()],
        output_path: "/tmp/o.png".to_string(),
        timeout_secs: 10,
    }
}

struct Tv {
    before: Option<i128>,
    after: Option<i128>,
    spawn: Result<(), String>,
    exit: Result<Option<(bool, &'static str)>, String>,
    output: Result<(Vec<u8>, Vec<u8>), String>,
    files: Vec<&'static str>,
}

fn tv() -> Tv {
    Tv {
        before: Some(1),
        after: Some(2),
        spawn: Ok(()),
        exit: Ok(Some((true, "exit status: 0"))),
        output: Ok((Vec::new(), Vec::new())),
        files: vec!["/tmp/o.png"],
    }
}

fn run_exec(tv: &Tv) -> Result<String, String> {
    run_noted(tv).0
}

fn run_noted(tv: &Tv) -> (Result<String, String>, Vec<String>) {
    let mut notes = Vec::new();
    let c = cfg("exec");
    let mut s = capture(&c);
    let mut ran = false;
    loop {
        let happened = match s.ask(&c) {
            Ask::Modified(p) => {
                assert_eq!(p, "/tmp/o.png");
                Happened::Modified(if ran { tv.after } else { tv.before })
            }
            Ask::Spawn { program, args } => {
                assert_eq!(program, "/bin/shot");
                assert_eq!(args, &vec!["-q".to_string()]);
                ran = true;
                Happened::Spawned(tv.spawn.clone())
            }
            Ask::Wait { secs } => {
                assert_eq!(secs, 10);
                Happened::Waited(match &tv.exit {
                    Ok(Some((success, text))) => Ok(Some(Exit { success: *success, text: text.to_string() })),
                    Ok(None) => Ok(None),
                    Err(e) => Err(e.clone()),
                })
            }
            Ask::Kill => Happened::Killed,
            Ask::Collect => Happened::Collected(match &tv.output {
                Ok((o, e)) => Ok(Output { stdout: o.clone(), stderr: e.clone() }),
                Err(e) => Err(e.clone()),
            }),
            Ask::IsFile(p) => Happened::IsFile(tv.files.contains(&p)),
            Ask::Clock | Ask::Sleep { .. } => panic!("exec mode neither polls nor sleeps"),
            Ask::Nothing => match s {
                Capture::Done(r) => return (r, notes),
                _ => panic!("stuck"),
            },
        };
        let (next, more) = s.step(&c, happened);
        notes.extend(more);
        s = next;
    }
}

#[test]
fn fresh_output_is_taken() {
    assert_eq!(run_exec(&tv()), Ok("/tmp/o.png".to_string()));
    assert_eq!(run_exec(&Tv { before: None, ..tv() }), Ok("/tmp/o.png".to_string()));
}

#[test]
fn last_printed_file_is_taken() {
    let output = Ok((b"/tmp/a.png\r\n  /tmp/b.png \nnot a file\n\n".to_vec(), Vec::new()));
    let t = Tv { files: vec!["/tmp/a.png", "/tmp/b.png"], output, ..tv() };
    assert_eq!(run_exec(&t), Ok("/tmp/b.png".to_string()));
}

#[test]
fn printed_file_beats_stale_output() {
    let output = Ok((b"/tmp/a.png".to_vec(), Vec::new()));
    let t = Tv { files: vec!["/tmp/a.png", "/tmp/o.png"], after: Some(1), output, ..tv() };
    assert_eq!(run_exec(&t), Ok("/tmp/a.png".to_string()));
}

#[test]
fn fresh_output_beats_printed_file() {
    let output = Ok((b"/tmp/a.png".to_vec(), Vec::new()));
    let t = Tv { files: vec!["/tmp/a.png", "/tmp/o.png"], output, ..tv() };
    assert_eq!(run_exec(&t), Ok("/tmp/o.png".to_string()));
}

#[test]
fn stale_output_is_accepted_last() {
    let t = Tv { after: Some(1), output: Ok((b"gone\n".to_vec(), Vec::new())), ..tv() };
    assert_eq!(run_exec(&t), Ok("/tmp/o.png".to_string()));
}

#[test]
fn exec_failures() {
    assert_eq!(
        run_exec(&Tv { spawn: Err("denied".to_string()), ..tv() }),
        Err("failed to spawn /bin/shot: denied".to_string())
    );
    assert_eq!(
        run_exec(&Tv { exit: Err("lost".to_string()), ..tv() }),
        Err("wait failed: lost".to_string())
    );
    assert_eq!(
        run_exec(&Tv { exit: Ok(None), ..tv() }),
        Err("screenshot binary timed out after 10s".to_string())
    );
    assert_eq!(
        run_exec(&Tv { output: Err("pipe".to_string()), ..tv() }),
        Err("read output failed: pipe".to_string())
    );
    assert_eq!(
        run_exec(&Tv {
            exit: Ok(Some((false, "exit status: 3"))),
            output: Ok((b"/tmp/o.png".to_vec(), b"  no \xff display\n".to_vec())),
            ..tv()
        }),
        Err("screenshot binary exited with exit status: 3: no \u{fffd} display".to_string())
    );
    assert_eq!(
        run_exec(&Tv { files: Vec::new(), ..tv() }),
        Err("screenshot binary succeeded but no PNG found at /tmp/o.png and stdout had no valid path"
            .to_string())
    );
}

/// Polls at 0, 0.25, 0.5 ... seconds; the file is new from `fresh_at` on.
fn run_watch(fresh_at: u128) -> (Result<String, String>, u64) {
    let c = cfg("watch");
    let mut s = capture(&c);
    let mut now: u128 = 0;
    let mut slept: u64 = 0;
    loop {
        let happened = match s.ask(&c) {
            Ask::Modified(_) => Happened::Modified(if now >= fresh_at { Some(9) } else { Some(1) }),
            Ask::IsFile(_) => Happened::IsFile(true),
            Ask::Clock => Happened::Clock(now),
            Ask::Sleep { millis } => {
                now += millis as u128 * 1_000_000;
                slept += millis;
                Happened::Slept
            }
            Ask::Nothing => match s {
                Capture::Done(r) => return (r, slept),
                _ => panic!("stuck"),
            },
            _ => panic!("watch mode touches no process"),
        };
        let (next, more) = s.step(&c, happened);
        for note in more {
            assert_eq!(note, "watch mode: waiting up to 10s for /tmp/o.png to be written");
        }
        s = next;
    }
}

#[test]
fn watch_takes_a_new_file() {
    let (r, slept) = run_watch(1_000_000_000);
    assert_eq!(r, Ok("/tmp/o.png".to_string()));
    assert_eq!(slept, 4 * 250 + 200);
}

#[test]
fn watch_gives_up() {
    let (r, slept) = run_watch(10_000_000_000);
    assert_eq!(
        r,
        Err("no fresh screenshot appeared at /tmp/o.png within 10s (watch mode)".to_string())
    );
    assert_eq!(slept, 10_000);
}

#[test]
fn other_modes_run_the_binary() {
    assert_eq!(capture(&cfg("")), Capture::ExecStart);
    assert_eq!(capture(&cfg("watch")), Capture::WatchStart);
}

#[test]
fn unawaited_happenings_change_nothing() {
    let c = cfg("exec");
    assert_eq!(capture(&c).step(&c, Happened::Slept), (Capture::ExecStart, Vec::new()));
}

#[test]
fn captures_are_noted() {
    let ran = "exec /bin/shot [\"-q\"]".to_string();
    assert_eq!(run_noted(&tv()).1, vec![ran.clone()]);
    let output = Ok((b"/tmp/a.png".to_vec(), Vec::new()));
    let t = Tv { files: vec!["/tmp/a.png", "/tmp/o.png"], after: Some(1), output, ..tv() };
    assert_eq!(run_noted(&t).1, vec![ran.clone(), "using path from stdout: /tmp/a.png".to_string()]);
    let t = Tv { after: Some(1), ..tv() };
    assert_eq!(
        run_noted(&t).1,
        vec![ran, "output mtime unchanged; accepting existing file".to_string()]
    );
    let c = cfg("watch");
    let (_, notes) = capture(&c).step(&c, Happened::Modified(None));
    assert_eq!(notes, vec!["watch mode: waiting up to 10s for /tmp/o.png to be written".to_string()]);
}
