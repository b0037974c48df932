use analyze_screen_sidecar::config::{Config, DownscaleConfig, ScreenshotConfig, ServerConfig, VlmConfig};
use analyze_screen_sidecar::downscale::{
    downscale_builtin, downscale_external, fit, prepare_image, Fit, Preparation, Prepared, Scaled,
};
use analyze_screen_sidecar::json::Json;
use analyze_screen_sidecar::screenshot::Exit;
use analyze_screen_sidecar::vlm::{
    analyze, chat_answer, read_answer, repair, ChatOutcome, SYSTEM_PROMPT, USER_PROMPT,
};

fn s(t: &str) -> String {
    t.to_string()
}

fn t(v: &str) -> Json {
    Json::Text(v.to_string())
}

fn o(members: Vec<(&str, Json)>) -> Json {
    Json::Object(members.into_iter().map(|(k, v)| (k.to_string(), v)).collect())
}

fn config() -> Config {
    Config {
        server: ServerConfig::default(),
        screenshot: ScreenshotConfig::default(),
        vlm: VlmConfig {
            base_url: s("http://dgx:8000/v1//"),
            model: s("qwen"),
            api_key: None,
            timeout_secs: 60,
            max_tokens: 1024,
        },
        llm: None,
        downscale: DownscaleConfig::default(),
    }
}

#[test]
fn analysis_request_is_exact() {
    let request = analyze(&config(), Ok(b"PNG!".to_vec())).unwrap();
    assert_eq!(request.url, "http://dgx:8000/v1/chat/completions");
    assert_eq!(request.headers, vec![(s("Content-Type"), s("application/json"))]);
    assert_eq!(request.timeout_secs, 60);
    assert_eq!(
        request.notes,
        vec![s("image payload 4 bytes"), s("POST http://dgx:8000/v1/chat/completions model=qwen")]
    );
    assert!(request.payload().starts_with("{\"max_tokens\":1024,\"messages\":[{\"content\":\"You are"));
    let image = o(vec![
        ("type", t("image_url")),
        ("image_url", o(vec![("url", t("data:image/png;base64,UE5HIQ=="))])),
    ]);
    let words = o(vec![("type", t("text")), ("text", t(USER_PROMPT))]);
    assert_eq!(
        request.body,
        o(vec![
            ("model", t("qwen")),
            ("temperature", Json::Number(s("0"))),
            ("max_tokens", Json::Number(s("1024"))),
            (
                "messages",
                Json::List(vec![
                    o(vec![("role", t("system")), ("content", t(SYSTEM_PROMPT))]),
                    o(vec![("role", t("user")), ("content", Json::List(vec![image, words]))]),
                ])
            ),
        ])
    );
    assert!(SYSTEM_PROMPT.ends_with("error must be null on success."));
}

fn uri(png: &[u8]) -> String {
    let request = analyze(&config(), Ok(png.to_vec())).unwrap();
    let messages = request.body.get("messages").unwrap();
    let part = messages.nth(1).unwrap().get("content").unwrap().nth(0).unwrap();
    match part.get("image_url").unwrap().get("url") {
        Some(Json::Text(u)) => u.clone(),
        _ => panic!("no url"),
    }
}

#[test]
fn images_are_sent_in_base64() {
    assert_eq!(uri(b""), "data:image/png;base64,");
    assert_eq!(uri(b"f"), "data:image/png;base64,Zg==");
    assert_eq!(uri(b"fo"), "data:image/png;base64,Zm8=");
    assert_eq!(uri(b"foo"), "data:image/png;base64,Zm9v");
    assert_eq!(uri(b"foobar"), "data:image/png;base64,Zm9vYmFy");
    assert_eq!(uri(&[0xfb, 0xff, 0xfe]), "data:image/png;base64,+//+");
    assert!(uri(b"ab") != uri(b"ac"));
}

#[test]
fn repair_request_is_exact() {
    let mut c = config();
    c.llm = Some(VlmConfig {
        base_url: s("http://llm"),
        model: s("fix"),
        api_key: Some(s("key")),
        timeout_secs: 5,
        max_tokens: 7,
    });
    let request = repair(&c, "{oops", "HINT");
    assert_eq!(request.url, "http://llm/chat/completions");
    assert_eq!(
        request.headers,
        vec![(s("Content-Type"), s("application/json")), (s("Authorization"), s("Bearer key"))]
    );
    assert_eq!(request.timeout_secs, 5);
    assert_eq!(request.notes, vec![s("POST http://llm/chat/completions model=fix")]);
    assert_eq!(
        request.body,
        o(vec![
            ("model", t("fix")),
            ("temperature", Json::Number(s("0"))),
            ("max_tokens", Json::Number(s("7"))),
            (
                "messages",
                Json::List(vec![o(vec![
                    ("role", t("user")),
                    (
                        "content",
                        t("Repair the following text so it becomes a single valid JSON object that matches this schema. Return ONLY the JSON object, with no markdown fences and no commentary.\n\nSchema:\nHINT\n\nText to repair:\n{oops")
                    ),
                ])])
            ),
        ])
    );
}

#[test]
fn trailing_slashes_make_no_difference() {
    let mut c = config();
    c.vlm.base_url = s("http://x");
    let plain = repair(&c, "", "").url;
    c.vlm.base_url = s("http://x/");
    assert_eq!(repair(&c, "", "").url, plain);
}

#[test]
fn no_image_no_request() {
    assert_eq!(analyze(&config(), Err(s("cannot read /a.png: gone"))), Err(s("cannot read /a.png: gone")));
}

#[test]
fn analyses_go_by_their_endpoint() {
    let mut other = config();
    other.server.port = 1;
    other.screenshot.mode = s("watch");
    other.llm = Some(VlmConfig { base_url: s("http://llm"), ..config().vlm });
    assert_eq!(analyze(&other, Ok(vec![1])), analyze(&config(), Ok(vec![1])));
}

#[test]
fn replies_are_read() {
    let reply = |t: &str| chat_answer(ChatOutcome::Reply(t.as_bytes().to_vec()));
    assert_eq!(
        reply(r#"{"id":"1","choices":[{"message":{"content":" ```hello``` "}},{}]}"#),
        Ok(s(" ```hello``` "))
    );
    let missing = Err(s("VLM response missing choices[0].message.content"));
    assert_eq!(reply("null"), missing);
    assert_eq!(reply(r#"{"choices":[]}"#), missing);
    assert_eq!(reply(r#"{"choices":[{"message":{"content":null}}]}"#), missing);
    assert_eq!(
        reply("{"),
        Err(s("VLM response was not JSON: Failed to read JSON: EOF while parsing an object at line 1 column 1"))
    );
    assert_eq!(
        chat_answer(ChatOutcome::Reply(vec![b'"', 0xff, b'"'])),
        Err(s("VLM response was not JSON: Failed to read JSON: invalid unicode code point at line 1 column 2"))
    );
    assert_eq!(read_answer(Ok(Json::Null)), missing);
    assert_eq!(read_answer(Err(s("eof"))), Err(s("VLM response was not JSON: Failed to read JSON: eof")));
    let long: String = "é".repeat(400);
    assert_eq!(
        chat_answer(ChatOutcome::Status { code: 503, text: long }),
        Err(format!("VLM endpoint returned HTTP 503: {}", "é".repeat(300)))
    );
    assert_eq!(
        chat_answer(ChatOutcome::Unreachable(s("refused"))),
        Err(s("VLM request failed: refused"))
    );
    assert_eq!(
        chat_answer(ChatOutcome::Unread { timed_out: false, text: s("reset") }),
        Err(s("VLM response was not JSON: Failed to read JSON: reset"))
    );
    assert_eq!(
        chat_answer(ChatOutcome::Unread { timed_out: true, text: s("timed out reading response") }),
        Err(s("VLM response was not JSON: timed out reading response"))
    );
}

fn ds(enabled: bool, command: &str) -> DownscaleConfig {
    DownscaleConfig { enabled, max_long_edge: 8, command: command.to_string() }
}

fn png(w: u32, h: u32) -> Vec<u8> {
    let mut out = std::io::Cursor::new(Vec::new());
    image::RgbImage::from_pixel(w, h, image::Rgb([9, 200, 30]))
        .write_to(&mut out, image::ImageFormat::Png)
        .unwrap();
    out.into_inner()
}

fn size(bytes: &[u8]) -> (u32, u32) {
    let img = image::load_from_memory_with_format(bytes, image::ImageFormat::Png).unwrap();
    (img.width(), img.height())
}

#[test]
fn command_templates_are_filled_in() {
    assert_eq!(
        downscale_external(&ds(true, "convert {in} -resize {max}x{max}> {out}"), "/a.png", "/b.png"),
        "convert /a.png -resize 8x8> /b.png"
    );
    assert_eq!(downscale_external(&ds(true, "{in}"), "{out}{max}", "x"), "x8");
    assert_eq!(downscale_external(&ds(true, "true"), "/a", "/b"), "true");
}

#[test]
fn plans() {
    let read = Preparation::Reading { path: s("/a.png") };
    assert_eq!(prepare_image(&ds(false, "cmd"), "/a.png", "/b", true), (read, vec![]));
    let read = Preparation::Reading { path: s("/a.png") };
    assert_eq!(
        prepare_image(&ds(true, ""), "/a.png", "/b", false),
        (
            read,
            vec![s("built without `downscale` feature and no external command set; sending full-size PNG")]
        )
    );
    assert_eq!(
        prepare_image(&ds(true, ""), "/a.png", "/b", true),
        (Preparation::Opening { path: s("/a.png") }, vec![])
    );
    assert_eq!(
        prepare_image(&ds(true, "c {in}"), "/a.png", "/b", true),
        (
            Preparation::Running { line: s("c /a.png"), out: s("/b") },
            vec![s("external downscale: c /a.png")]
        )
    );
}

#[test]
fn screenshots_sent_as_they_are() {
    let d = ds(false, "");
    let (p, _) = prepare_image(&d, "/a.png", "/b", true);
    assert_eq!(p.step(&d, Prepared::Read(Ok(vec![1, 2]))), (Preparation::Done(Ok(vec![1, 2])), vec![]));
    let (p, _) = prepare_image(&d, "/a.png", "/b", true);
    assert_eq!(
        p.step(&d, Prepared::Read(Err(s("gone")))).0,
        Preparation::Done(Err(s("cannot read /a.png: gone")))
    );
}

#[test]
fn screenshots_scaled_by_a_command() {
    let d = ds(true, "c");
    let start = || prepare_image(&d, "/a.png", "/b.png", true).0;
    assert_eq!(
        start().step(&d, Prepared::Ran(Err(s("no sh")))).0,
        Preparation::Done(Err(s("downscale command failed to start: no sh")))
    );
    assert_eq!(
        start().step(&d, Prepared::Ran(Ok(Exit { success: false, text: s("exit status: 2") }))).0,
        Preparation::Done(Err(s("downscale command exited with exit status: 2")))
    );
    let ran = || start().step(&d, Prepared::Ran(Ok(Exit { success: true, text: s("exit status: 0") }))).0;
    assert_eq!(ran(), Preparation::ReadingScaled { out: s("/b.png") });
    assert_eq!(ran().step(&d, Prepared::Read(Ok(vec![7]))).0, Preparation::Done(Ok(vec![7])));
    assert_eq!(
        ran().step(&d, Prepared::Read(Err(s("gone")))).0,
        Preparation::Done(Err(s("cannot read downscaled /b.png: gone")))
    );
}

#[test]
fn screenshots_scaled_by_the_resizer() {
    let d = ds(true, "");
    let start = || prepare_image(&d, "/a.png", "/b.png", true).0;
    let (end, notes) = start().step(&d, Prepared::Read(Ok(png(32, 16))));
    assert_eq!(notes, vec![s("downscaled 32x16 -> 8x4")]);
    match end {
        Preparation::Done(Ok(bytes)) => assert_eq!(size(&bytes), (8, 4)),
        other => panic!("{:?}", other),
    }
    let (kept, notes) = start().step(&d, Prepared::Read(Ok(png(8, 3))));
    assert_eq!(kept, Preparation::Reading { path: s("/a.png") });
    assert_eq!(notes, vec![s("8x3 already within 8px, skipping downscale")]);
    assert_eq!(
        start().step(&d, Prepared::Read(Err(s("gone")))).0,
        Preparation::Done(Err(s("cannot decode /a.png: gone")))
    );
    assert_eq!(
        start().step(&d, Prepared::Read(Ok(vec![1, 2, 3]))).0,
        Preparation::Done(Err(s("cannot decode /a.png: unexpected end of file")))
    );
}

fn scaled(max: u32, path: &str, bytes: &Vec<u8>) -> Vec<u8> {
    match downscale_builtin(max, path, bytes).0 {
        Some(Scaled::Png(png)) => png,
        other => panic!("{:?}", other),
    }
}

#[test]
fn resizer_goes_by_the_extension() {
    assert_eq!(
        downscale_builtin(8, "/a.shot", &png(4, 4)),
        (
            Some(Scaled::Failed(s(
                "cannot decode /a.shot: The file extension `.\"shot\"` was not recognized as an image format"
            ))),
            vec![]
        )
    );
    for path in ["/a", "/a.", "/a.png."] {
        assert_eq!(
            downscale_builtin(8, path, &png(4, 4)).0,
            Some(Scaled::Failed(format!(
                "cannot decode {path}: The image format could not be determined"
            )))
        );
    }
    assert_eq!(downscale_builtin(8, "/a.PNG", &png(8, 8)).0, Some(Scaled::Keep));
}

#[test]
fn sides_keep_their_ratio() {
    assert_eq!(size(&scaled(1280, "/a.png", &png(3840, 2160))), (1280, 720));
    assert_eq!(size(&scaled(10, "/a.png", &png(30, 20))), (10, 7));
    assert_eq!(size(&scaled(10, "/a.png", &png(20, 3000))), (1, 10));
    assert_eq!(size(&scaled(0, "/a.png", &png(3, 2))), (1, 1));
    assert_eq!(size(&scaled(1_500_000, "/a.png", &png(2_000_000, 1))), (1_500_000, 1));
}

#[test]
fn very_long_images_are_scaled() {
    let mut wide = std::io::Cursor::new(Vec::new());
    image::GrayImage::from_pixel(10_000_000, 1, image::Luma([7]))
        .write_to(&mut wide, image::ImageFormat::Png)
        .unwrap();
    assert_eq!(size(&scaled(9_000_000, "/a.png", &wide.into_inner())), (9_000_000, 1));
}

#[test]
fn scaling_again_changes_nothing() {
    let once = scaled(9, "/a.png", &png(31, 17));
    assert_eq!(downscale_builtin(9, "/q.png", &once).0, Some(Scaled::Keep));
    let small = png(9, 4);
    assert_eq!(downscale_builtin(9, "/a.PNG", &small).0, Some(Scaled::Keep));
    assert_eq!(downscale_builtin(9, "/q.png", &small).0, Some(Scaled::Keep));
}

#[test]
fn fits() {
    assert_eq!(fit(1280, 720, 1280), Fit::Keep);
    assert_eq!(fit(1281, 720, 1280), Fit::Shrink);
    assert_eq!(fit(720, 1281, 1280), Fit::Shrink);
    assert_eq!(fit(2_000_000, 1, 1_500_000), Fit::Shrink);
    assert_eq!(fit(0xff_ffff, 1, 0x80_0000), Fit::Shrink);
    assert_eq!(fit(10_000_000, 1, 9_000_000), Fit::Shrink);
    assert_eq!(fit(1, 16_000_001, 16_000_000), Fit::TooLarge);
    assert_eq!(fit(16_000_000, 1, 15_999_999), Fit::Shrink);
    assert_eq!(fit(8_486_465, 1, 8_486_422), Fit::TooLarge);
    assert_eq!(fit(0x100_0001, 1, 0x80_0001), Fit::TooLarge);
    assert_eq!(fit(0x30_0000, 1, u32::MAX), Fit::Keep);
}
