use analyze_screen_sidecar::config::{
    config_path, d_host, d_max_edge, d_max_tokens, d_port, d_shot_bin, d_shot_mode, d_shot_out,
    d_shot_timeout, d_total_timeout, d_vlm_model, d_vlm_timeout, Config, ConfigFile, DownscaleConfig,
    FileConfig, FileDownscale, FileLlm, FileScreenshot, FileServer, FileVlm, Overrides,
    ScreenshotConfig, ServerConfig, VlmConfig,
};

fn vlm() -> VlmConfig {
    VlmConfig {
        base_url: "http://dgx:8000/v1".to_string(),
        model: "m".to_string(),
        api_key: None,
        timeout_secs: 60,
        max_tokens: 1024,
    }
}

fn file() -> FileConfig {
    FileConfig {
        server: FileServer::default(),
        screenshot: FileScreenshot::default(),
        vlm: FileVlm {
            base_url: "http://dgx:8000/v1".to_string(),
            model: some("m"),
            api_key: None,
            timeout_secs: None,
            max_tokens: None,
        },
        llm: None,
        downscale: FileDownscale::default(),
    }
}

fn config() -> Config {
    Config {
        server: ServerConfig::default(),
        screenshot: ScreenshotConfig::default(),
        vlm: vlm(),
        llm: None,
        downscale: DownscaleConfig::default(),
    }
}

fn some(s: &str) -> Option<String> {
    Some(s.to_string())
}

#[test]
fn defaults_are_as_documented() {
    assert_eq!(d_host(), "127.0.0.1");
    assert_eq!(d_port(), 8787);
    assert_eq!(d_total_timeout(), 90);
    assert_eq!(d_shot_mode(), "exec");
    assert_eq!(d_shot_bin(), "/opt/usr/home/owner/tizenscreenshot");
    assert_eq!(d_shot_out(), "/tmp/screenshot.png");
    assert_eq!(d_shot_timeout(), 10);
    assert_eq!(d_vlm_model(), "Qwen/Qwen3-VL-8B-Instruct");
    assert_eq!(d_vlm_timeout(), 60);
    assert_eq!(d_max_tokens(), 1024);
    assert_eq!(d_max_edge(), 1280);
    assert_eq!(ServerConfig::default().address(), "127.0.0.1:8787");
    let shot = ScreenshotConfig::default();
    assert_eq!(shot.mode, "exec");
    assert!(shot.args.is_empty());
    assert_eq!(shot.output_path, "/tmp/screenshot.png");
    let ds = DownscaleConfig::default();
    assert!(!ds.enabled);
    assert_eq!(ds.max_long_edge, 1280);
    assert_eq!(ds.command, "");
}

#[test]
fn config_file_path() {
    assert_eq!(config_path(None), "sidecar.toml");
    assert_eq!(config_path(some("/etc/s.toml")), "/etc/s.toml");
}

#[test]
fn file_alone_is_kept() {
    let c = Config::load("sidecar.toml", ConfigFile::Parsed(file()), Overrides::default());
    assert_eq!(c, Ok(config()));
}

#[test]
fn environment_overrides_file() {
    let env = Overrides {
        sidecar_port: some("9000"),
        screenshot_bin: some("/bin/shot"),
        screenshot_output: some("/tmp/o.png"),
        screenshot_mode: some("watch"),
        vlm_base_url: some("http://v"),
        vlm_model: some("vm"),
        vlm_api_key: some("k"),
        llm_base_url: None,
        llm_model: None,
    };
    let c = Config::load("p", ConfigFile::Parsed(file()), env).unwrap();
    assert_eq!(c.server.port, 9000);
    assert_eq!(c.screenshot.binary_path, "/bin/shot");
    assert_eq!(c.screenshot.output_path, "/tmp/o.png");
    assert_eq!(c.screenshot.mode, "watch");
    assert_eq!(c.vlm.base_url, "http://v");
    assert_eq!(c.vlm.model, "vm");
    assert_eq!(c.vlm.api_key, some("k"));
    assert_eq!(c.llm, None);
    assert_eq!(c.llm_endpoint(), &c.vlm);
}

#[test]
fn repair_endpoint_starts_from_analysis_endpoint() {
    let env = Overrides {
        vlm_base_url: some("http://v"),
        vlm_api_key: some("k"),
        llm_model: some("fixer"),
        ..Overrides::default()
    };
    let c = Config::load("p", ConfigFile::Parsed(file()), env).unwrap();
    let llm = c.llm_endpoint();
    assert_eq!(llm.base_url, "http://v");
    assert_eq!(llm.model, "fixer");
    assert_eq!(llm.api_key, some("k"));
    assert_eq!(c.vlm.model, "m");
}

#[test]
fn repair_endpoint_of_the_file_is_overridden_in_part() {
    let mut file = file();
    file.llm = Some(FileLlm {
        base_url: "http://l".to_string(),
        model: "lm".to_string(),
        api_key: None,
        timeout_secs: Some(5),
        max_tokens: None,
    });
    let env = Overrides { llm_base_url: some("http://l2"), ..Overrides::default() };
    let c = Config::load("p", ConfigFile::Parsed(file), env).unwrap();
    assert_eq!(c.llm_endpoint().base_url, "http://l2");
    assert_eq!(c.llm_endpoint().model, "lm");
    assert_eq!(c.llm_endpoint().timeout_secs, 5);
    assert_eq!(c.llm_endpoint().max_tokens, 1024);
}

#[test]
fn loading_again_changes_nothing() {
    let env = || Overrides { llm_model: some("x"), sidecar_port: some("+80"), ..Overrides::default() };
    let once = Config::load("p", ConfigFile::Parsed(file()), env()).unwrap();
    assert_eq!(once.server.port, 80);
    let mut f = file();
    f.server.port = Some(once.server.port);
    let llm = once.llm_endpoint().clone();
    f.llm = Some(FileLlm {
        base_url: llm.base_url,
        model: llm.model,
        api_key: llm.api_key,
        timeout_secs: Some(llm.timeout_secs),
        max_tokens: Some(llm.max_tokens),
    });
    assert_eq!(Config::load("p", ConfigFile::Parsed(f), env()).unwrap(), once);
}

#[test]
fn refused_settings() {
    let unreadable = ConfigFile::Unreadable("No such file".to_string());
    assert_eq!(
        Config::load("a.toml", unreadable, Overrides::default()),
        Err("cannot read config a.toml: No such file".to_string())
    );
    let malformed = ConfigFile::Malformed("bad".to_string());
    assert_eq!(
        Config::load("a.toml", malformed, Overrides::default()),
        Err("bad config a.toml: bad".to_string())
    );
    for port in ["", "+", "65536", "-1", " 80", "80 ", "8_0", "99999999999999999999999"] {
        let env = Overrides { sidecar_port: some(port), ..Overrides::default() };
        assert_eq!(
            Config::load("p", ConfigFile::Parsed(file()), env),
            Err("SIDECAR_PORT not a port number".to_string())
        );
    }
    let env = Overrides { screenshot_mode: some("Exec"), ..Overrides::default() };
    assert_eq!(
        Config::load("p", ConfigFile::Parsed(file()), env),
        Err("screenshot.mode must be exec|watch, got Exec".to_string())
    );
}

#[test]
fn a_base_url_is_enough() {
    let mut f = file();
    f.vlm.model = None;
    let c = Config::load("p", ConfigFile::Parsed(f), Overrides::default()).unwrap();
    assert_eq!(c.vlm.model, "Qwen/Qwen3-VL-8B-Instruct");
    assert_eq!(c.vlm.base_url, "http://dgx:8000/v1");
    assert_eq!(c.server, ServerConfig::default());
    assert_eq!(c.screenshot, ScreenshotConfig::default());
    assert_eq!(c.downscale, DownscaleConfig::default());
}

#[test]
fn what_the_file_says_is_taken() {
    let mut f = file();
    f.server = FileServer { host: some("0.0.0.0"), port: Some(1), total_timeout_secs: Some(2) };
    f.screenshot = FileScreenshot {
        mode: some("watch"),
        binary_path: some("/b"),
        args: Some(vec!["-x".to_string()]),
        output_path: some("/o"),
        timeout_secs: Some(3),
    };
    f.vlm.timeout_secs = Some(4);
    f.vlm.max_tokens = Some(5);
    f.vlm.api_key = some("k");
    f.downscale = FileDownscale { enabled: Some(true), max_long_edge: Some(6), command: some("c") };
    let c = f.fill();
    assert_eq!(c.server.address(), "0.0.0.0:1");
    assert_eq!(c.server.total_timeout_secs, 2);
    assert_eq!(c.screenshot.args, vec!["-x".to_string()]);
    assert_eq!((c.screenshot.mode.as_str(), c.screenshot.timeout_secs), ("watch", 3));
    assert_eq!((c.vlm.timeout_secs, c.vlm.max_tokens, c.vlm.api_key), (4, 5, some("k")));
    assert_eq!(
        c.downscale,
        DownscaleConfig { enabled: true, max_long_edge: 6, command: "c".to_string() }
    );
}
