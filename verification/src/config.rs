//! Settings: their defaults, the environment overrides, and what is accepted.
use vstd::prelude::*;
use crate::text::{cat2, cat3, cat4, decimal, decimal_text, none, parse_port, port_number, same_text, texts};

verus! {

// ---------------------------------------------------------------------------
// The settings

/// All settings of the sidecar.
#[derive(Debug, Clone, PartialEq)]
pub struct Config {
    pub server: ServerConfig,
    pub screenshot: ScreenshotConfig,
    pub vlm: VlmConfig,
    /// Endpoint for the JSON repair pass. Falls back to `vlm` when absent.
    pub llm: Option<VlmConfig>,
    pub downscale: DownscaleConfig,
}

/// Where the sidecar listens and how long a request may take.
#[derive(Debug, Clone, PartialEq)]
pub struct ServerConfig {
    pub host: String,
    pub port: u16,
    /// Total budget for one analysis request, seconds.
    pub total_timeout_secs: u64,
}

/// How a screenshot is obtained.
#[derive(Debug, Clone, PartialEq)]
pub struct ScreenshotConfig {
    /// "exec": run the binary. "watch": spawn nothing, wait for `output_path` to
    /// be (re)written by an externally triggered capture.
    pub mode: String,
    /// Path to the screenshot binary.
    pub binary_path: String,
    pub args: Vec<String>,
    /// Fixed path the binary writes the PNG to.
    pub output_path: String,
    pub timeout_secs: u64,
}

/// An OpenAI-compatible endpoint.
#[derive(Debug, PartialEq)]
pub struct VlmConfig {
    /// Base URL, e.g. http://dgx:8000/v1
    pub base_url: String,
    pub model: String,
    pub api_key: Option<String>,
    pub timeout_secs: u64,
    pub max_tokens: u32,
}

/// Whether and how screenshots are made smaller before they are sent.
#[derive(Debug, Clone, PartialEq)]
pub struct DownscaleConfig {
    pub enabled: bool,
    /// Max pixels on the long edge.
    pub max_long_edge: u32,
    /// External command template with {in}, {out} and {max} placeholders. When
    /// empty, the built-in resizer is used.
    pub command: String,
}

// ---------------------------------------------------------------------------
// What the settings hold

/// The characters of a string, if there is one.
pub open spec fn opt_text(s: Option<String>) -> Option<Seq<char>> {
    match s {
        Some(t) => Some(t@),
        None => None,
    }
}

/// A given text, or the one to use without it.
pub open spec fn or_text(given: Option<Seq<char>>, otherwise: Seq<char>) -> Seq<char> {
    match given {
        Some(t) => t,
        None => otherwise,
    }
}

pub struct ServerView {
    pub host: Seq<char>,
    pub port: u16,
    pub total_timeout_secs: u64,
}

pub struct ScreenshotView {
    pub mode: Seq<char>,
    pub binary_path: Seq<char>,
    pub args: Seq<Seq<char>>,
    pub output_path: Seq<char>,
    pub timeout_secs: u64,
}

pub struct VlmView {
    pub base_url: Seq<char>,
    pub model: Seq<char>,
    pub api_key: Option<Seq<char>>,
    pub timeout_secs: u64,
    pub max_tokens: u32,
}

pub struct DownscaleView {
    pub enabled: bool,
    pub max_long_edge: u32,
    pub command: Seq<char>,
}

pub struct ConfigView {
    pub server: ServerView,
    pub screenshot: ScreenshotView,
    pub vlm: VlmView,
    pub llm: Option<VlmView>,
    pub downscale: DownscaleView,
}

impl View for ServerConfig {
    type V = ServerView;

    open spec fn view(&self) -> ServerView {
        ServerView {
            host: self.host@,
            port: self.port,
            total_timeout_secs: self.total_timeout_secs,
        }
    }
}

impl View for ScreenshotConfig {
    type V = ScreenshotView;

    open spec fn view(&self) -> ScreenshotView {
        ScreenshotView {
            mode: self.mode@,
            binary_path: self.binary_path@,
            args: texts(self.args@),
            output_path: self.output_path@,
            timeout_secs: self.timeout_secs,
        }
    }
}

impl View for VlmConfig {
    type V = VlmView;

    open spec fn view(&self) -> VlmView {
        VlmView {
            base_url: self.base_url@,
            model: self.model@,
            api_key: opt_text(self.api_key),
            timeout_secs: self.timeout_secs,
            max_tokens: self.max_tokens,
        }
    }
}

impl View for DownscaleConfig {
    type V = DownscaleView;

    open spec fn view(&self) -> DownscaleView {
        DownscaleView {
            enabled: self.enabled,
            max_long_edge: self.max_long_edge,
            command: self.command@,
        }
    }
}

/// What an optional endpoint holds.
pub open spec fn opt_vlm(ep: Option<VlmConfig>) -> Option<VlmView> {
    match ep {
        Some(v) => Some(v@),
        None => None,
    }
}

impl View for Config {
    type V = ConfigView;

    open spec fn view(&self) -> ConfigView {
        ConfigView {
            server: self.server@,
            screenshot: self.screenshot@,
            vlm: self.vlm@,
            llm: opt_vlm(self.llm),
            downscale: self.downscale@,
        }
    }
}

impl Clone for VlmConfig {
    fn clone(&self) -> (copy: VlmConfig)
        ensures
            copy@ == self@,
    {
        VlmConfig {
            base_url: self.base_url.clone(),
            model: self.model.clone(),
            api_key: match &self.api_key {
                Some(key) => Some(key.clone()),
                None => None,
            },
            timeout_secs: self.timeout_secs,
            max_tokens: self.max_tokens,
        }
    }
}

// ---------------------------------------------------------------------------
// Defaults

pub fn d_host() -> (s: String)
    ensures
        s@ == "127.0.0.1"@,
{
    "127.0.0.1".to_owned()
}

pub fn d_port() -> (port: u16)
    ensures
        port == 8787,
{
    8787
}

pub fn d_total_timeout() -> (secs: u64)
    ensures
        secs == 90,
{
    90
}

pub fn d_shot_mode() -> (s: String)
    ensures
        s@ == "exec"@,
{
    "exec".to_owned()
}

pub fn d_shot_bin() -> (s: String)
    ensures
        s@ == "/opt/usr/home/owner/tizenscreenshot"@,
{
    "/opt/usr/home/owner/tizenscreenshot".to_owned()
}

pub fn d_shot_out() -> (s: String)
    ensures
        s@ == "/tmp/screenshot.png"@,
{
    "/tmp/screenshot.png".to_owned()
}

pub fn d_shot_timeout() -> (secs: u64)
    ensures
        secs == 10,
{
    10
}

pub fn d_vlm_model() -> (s: String)
    ensures
        s@ == "Qwen/Qwen3-VL-8B-Instruct"@,
{
    "Qwen/Qwen3-VL-8B-Instruct".to_owned()
}

pub fn d_vlm_timeout() -> (secs: u64)
    ensures
        secs == 60,
{
    60
}

pub fn d_max_tokens() -> (n: u32)
    ensures
        n == 1024,
{
    1024
}

pub fn d_max_edge() -> (n: u32)
    ensures
        n == 1280,
{
    1280
}

impl Default for ServerConfig {
    fn default() -> (c: ServerConfig)
        ensures
            c@ == (ServerView { host: "127.0.0.1"@, port: 8787, total_timeout_secs: 90 }),
    {
        ServerConfig { host: d_host(), port: d_port(), total_timeout_secs: d_total_timeout() }
    }
}

impl Default for ScreenshotConfig {
    fn default() -> (c: ScreenshotConfig)
        ensures
            c@ == (ScreenshotView {
                mode: "exec"@,
                binary_path: "/opt/usr/home/owner/tizenscreenshot"@,
                args: Seq::empty(),
                output_path: "/tmp/screenshot.png"@,
                timeout_secs: 10,
            }),
    {
        let c = ScreenshotConfig {
            mode: d_shot_mode(),
            binary_path: d_shot_bin(),
            args: Vec::new(),
            output_path: d_shot_out(),
            timeout_secs: d_shot_timeout(),
        };
        assert(texts(c.args@) =~= Seq::<Seq<char>>::empty());
        c
    }
}

impl Default for DownscaleConfig {
    fn default() -> (c: DownscaleConfig)
        ensures
            c@ == (DownscaleView { enabled: false, max_long_edge: 1280, command: Seq::empty() }),
    {
        DownscaleConfig { enabled: false, max_long_edge: d_max_edge(), command: String::new() }
    }
}

// ---------------------------------------------------------------------------
// The settings file

/// The table `server` as far as it is filled in.
#[derive(Debug, Default, PartialEq)]
pub struct FileServer {
    pub host: Option<String>,
    pub port: Option<u16>,
    pub total_timeout_secs: Option<u64>,
}

/// The table `screenshot` as far as it is filled in.
#[derive(Debug, Default, PartialEq)]
pub struct FileScreenshot {
    pub mode: Option<String>,
    pub binary_path: Option<String>,
    pub args: Option<Vec<String>>,
    pub output_path: Option<String>,
    pub timeout_secs: Option<u64>,
}

/// The table `vlm` as far as it is filled in.
#[derive(Debug, PartialEq)]
pub struct FileVlm {
    pub base_url: String,
    pub model: Option<String>,
    pub api_key: Option<String>,
    pub timeout_secs: Option<u64>,
    pub max_tokens: Option<u32>,
}

/// The table `llm` as far as it is filled in.
#[derive(Debug, PartialEq)]
pub struct FileLlm {
    pub base_url: String,
    pub model: String,
    pub api_key: Option<String>,
    pub timeout_secs: Option<u64>,
    pub max_tokens: Option<u32>,
}

/// The table `downscale` as far as it is filled in.
#[derive(Debug, Default, PartialEq)]
pub struct FileDownscale {
    pub enabled: Option<bool>,
    pub max_long_edge: Option<u32>,
    pub command: Option<String>,
}

/// The tables of a settings file. One that is missing is as good as an empty one, but
/// for `llm`.
#[derive(Debug, PartialEq)]
pub struct FileConfig {
    pub server: FileServer,
    pub screenshot: FileScreenshot,
    pub vlm: FileVlm,
    pub llm: Option<FileLlm>,
    pub downscale: FileDownscale,
}

/// A given value, or the one to use without it.
pub open spec fn or<T>(given: Option<T>, otherwise: T) -> T {
    match given {
        Some(v) => v,
        None => otherwise,
    }
}

/// The settings that a file gives, with the defaults where it is silent.
pub open spec fn filled(f: FileConfig) -> ConfigView {
    ConfigView {
        server: ServerView {
            host: or_text(opt_text(f.server.host), "127.0.0.1"@),
            port: or(f.server.port, 8787u16),
            total_timeout_secs: or(f.server.total_timeout_secs, 90u64),
        },
        screenshot: ScreenshotView {
            mode: or_text(opt_text(f.screenshot.mode), "exec"@),
            binary_path: or_text(
                opt_text(f.screenshot.binary_path),
                "/opt/usr/home/owner/tizenscreenshot"@,
            ),
            args: match f.screenshot.args {
                Some(args) => texts(args@),
                None => Seq::empty(),
            },
            output_path: or_text(opt_text(f.screenshot.output_path), "/tmp/screenshot.png"@),
            timeout_secs: or(f.screenshot.timeout_secs, 10u64),
        },
        vlm: VlmView {
            base_url: f.vlm.base_url@,
            model: or_text(opt_text(f.vlm.model), "Qwen/Qwen3-VL-8B-Instruct"@),
            api_key: opt_text(f.vlm.api_key),
            timeout_secs: or(f.vlm.timeout_secs, 60u64),
            max_tokens: or(f.vlm.max_tokens, 1024u32),
        },
        llm: match f.llm {
            Some(llm) => Some(
                VlmView {
                    base_url: llm.base_url@,
                    model: llm.model@,
                    api_key: opt_text(llm.api_key),
                    timeout_secs: or(llm.timeout_secs, 60u64),
                    max_tokens: or(llm.max_tokens, 1024u32),
                },
            ),
            None => None,
        },
        downscale: DownscaleView {
            enabled: or(f.downscale.enabled, false),
            max_long_edge: or(f.downscale.max_long_edge, 1280u32),
            command: or_text(opt_text(f.downscale.command), Seq::empty()),
        },
    }
}

/// The given value, or the other one.
fn either<T>(given: Option<T>, otherwise: T) -> (v: T)
    ensures
        v == or(given, otherwise),
{
    match given {
        Some(v) => v,
        None => otherwise,
    }
}

impl FileConfig {
    /// Fills in the defaults where the file is silent.
    pub fn fill(self) -> (c: Config)
        ensures
            c@ == filled(self),
    {
        let server = ServerConfig {
            host: pick(self.server.host, d_host()),
            port: either(self.server.port, d_port()),
            total_timeout_secs: either(self.server.total_timeout_secs, d_total_timeout()),
        };
        let args = match self.screenshot.args {
            Some(args) => args,
            None => none(),
        };
        let screenshot = ScreenshotConfig {
            mode: pick(self.screenshot.mode, d_shot_mode()),
            binary_path: pick(self.screenshot.binary_path, d_shot_bin()),
            args,
            output_path: pick(self.screenshot.output_path, d_shot_out()),
            timeout_secs: either(self.screenshot.timeout_secs, d_shot_timeout()),
        };
        let vlm = VlmConfig {
            base_url: self.vlm.base_url,
            model: pick(self.vlm.model, d_vlm_model()),
            api_key: self.vlm.api_key,
            timeout_secs: either(self.vlm.timeout_secs, d_vlm_timeout()),
            max_tokens: either(self.vlm.max_tokens, d_max_tokens()),
        };
        let llm = match self.llm {
            Some(llm) => Some(
                VlmConfig {
                    base_url: llm.base_url,
                    model: llm.model,
                    api_key: llm.api_key,
                    timeout_secs: either(llm.timeout_secs, d_vlm_timeout()),
                    max_tokens: either(llm.max_tokens, d_max_tokens()),
                },
            ),
            None => None,
        };
        let downscale = DownscaleConfig {
            enabled: either(self.downscale.enabled, false),
            max_long_edge: either(self.downscale.max_long_edge, d_max_edge()),
            command: pick(self.downscale.command, String::new()),
        };
        Config { server, screenshot, vlm, llm, downscale }
    }
}

// ---------------------------------------------------------------------------
// Loading

/// The settings file to read: the one that `SIDECAR_CONFIG` names, else
/// `sidecar.toml`.
pub fn config_path(sidecar_config: Option<String>) -> (path: String)
    ensures
        path@ == or_text(opt_text(sidecar_config), "sidecar.toml"@),
{
    match sidecar_config {
        Some(path) => path,
        None => "sidecar.toml".to_owned(),
    }
}

/// What came of reading the settings file.
#[derive(Debug, PartialEq)]
pub enum ConfigFile {
    /// The file could not be read; why.
    Unreadable(String),
    /// The file is not a settings file; why.
    Malformed(String),
    /// What the file says.
    Parsed(FileConfig),
}

/// The environment variables that override the file, where they are set.
#[derive(Debug, Default)]
pub struct Overrides {
    pub sidecar_port: Option<String>,
    pub screenshot_bin: Option<String>,
    pub screenshot_output: Option<String>,
    pub screenshot_mode: Option<String>,
    pub vlm_base_url: Option<String>,
    pub vlm_model: Option<String>,
    pub vlm_api_key: Option<String>,
    pub llm_base_url: Option<String>,
    pub llm_model: Option<String>,
}

pub struct OverridesView {
    pub sidecar_port: Option<Seq<char>>,
    pub screenshot_bin: Option<Seq<char>>,
    pub screenshot_output: Option<Seq<char>>,
    pub screenshot_mode: Option<Seq<char>>,
    pub vlm_base_url: Option<Seq<char>>,
    pub vlm_model: Option<Seq<char>>,
    pub vlm_api_key: Option<Seq<char>>,
    pub llm_base_url: Option<Seq<char>>,
    pub llm_model: Option<Seq<char>>,
}

impl View for Overrides {
    type V = OverridesView;

    open spec fn view(&self) -> OverridesView {
        OverridesView {
            sidecar_port: opt_text(self.sidecar_port),
            screenshot_bin: opt_text(self.screenshot_bin),
            screenshot_output: opt_text(self.screenshot_output),
            screenshot_mode: opt_text(self.screenshot_mode),
            vlm_base_url: opt_text(self.vlm_base_url),
            vlm_model: opt_text(self.vlm_model),
            vlm_api_key: opt_text(self.vlm_api_key),
            llm_base_url: opt_text(self.llm_base_url),
            llm_model: opt_text(self.llm_model),
        }
    }
}

/// The capture modes there are.
pub open spec fn is_mode(mode: Seq<char>) -> bool {
    mode == "exec"@ || mode == "watch"@
}

/// The port after the overrides; nothing if the variable holds no port number.
pub open spec fn overridden_port(c: ConfigView, env: OverridesView) -> Option<u16> {
    match env.sidecar_port {
        Some(v) => port_number(v),
        None => Some(c.server.port),
    }
}

/// The analysis endpoint after the overrides.
pub open spec fn overridden_vlm(c: ConfigView, env: OverridesView) -> VlmView {
    VlmView {
        base_url: or_text(env.vlm_base_url, c.vlm.base_url),
        model: or_text(env.vlm_model, c.vlm.model),
        api_key: if env.vlm_api_key is Some {
            env.vlm_api_key
        } else {
            c.vlm.api_key
        },
        ..c.vlm
    }
}

/// The repair endpoint after the overrides. One that only the environment asks
/// for starts as a copy of the analysis endpoint.
pub open spec fn overridden_llm(c: ConfigView, env: OverridesView) -> Option<VlmView> {
    if env.llm_base_url is None && env.llm_model is None {
        c.llm
    } else {
        let base = match c.llm {
            Some(llm) => llm,
            None => overridden_vlm(c, env),
        };
        Some(
            VlmView {
                base_url: or_text(env.llm_base_url, base.base_url),
                model: or_text(env.llm_model, base.model),
                ..base
            },
        )
    }
}

/// The settings after the overrides, on a given port.
pub open spec fn overridden(c: ConfigView, env: OverridesView, port: u16) -> ConfigView {
    ConfigView {
        server: ServerView { port, ..c.server },
        screenshot: ScreenshotView {
            mode: or_text(env.screenshot_mode, c.screenshot.mode),
            binary_path: or_text(env.screenshot_bin, c.screenshot.binary_path),
            output_path: or_text(env.screenshot_output, c.screenshot.output_path),
            ..c.screenshot
        },
        vlm: overridden_vlm(c, env),
        llm: overridden_llm(c, env),
        downscale: c.downscale,
    }
}

/// The settings that a parsed file and the environment give, or why they are refused.
pub open spec fn accepted(c: ConfigView, env: OverridesView) -> Result<ConfigView, Seq<char>> {
    match overridden_port(c, env) {
        None => Err("SIDECAR_PORT not a port number"@),
        Some(port) => {
            let d = overridden(c, env, port);
            if is_mode(d.screenshot.mode) {
                Ok(d)
            } else {
                Err("screenshot.mode must be exec|watch, got "@ + d.screenshot.mode)
            }
        },
    }
}

/// The settings that a file at `path` and the environment give, or why there are none.
pub open spec fn loaded(path: Seq<char>, file: ConfigFile, env: OverridesView) -> Result<
    ConfigView,
    Seq<char>,
> {
    match file {
        ConfigFile::Unreadable(e) => Err("cannot read config "@ + path + ": "@ + e@),
        ConfigFile::Malformed(e) => Err("bad config "@ + path + ": "@ + e@),
        ConfigFile::Parsed(f) => accepted(filled(f), env),
    }
}

/// What loading gave.
pub open spec fn load_view(r: Result<Config, String>) -> Result<ConfigView, Seq<char>> {
    match r {
        Ok(c) => Ok(c@),
        Err(e) => Err(e@),
    }
}

/// The given text, or the other one.
fn pick(given: Option<String>, otherwise: String) -> (s: String)
    ensures
        s@ == or_text(opt_text(given), otherwise@),
{
    match given {
        Some(s) => s,
        None => otherwise,
    }
}

impl Config {
    /// Takes what came of reading the file at `path`, fills in the defaults, applies
    /// the environment overrides, and checks the outcome.
    pub fn load(path: &str, file: ConfigFile, env: Overrides) -> (r: Result<Config, String>)
        ensures
            load_view(r) == loaded(path@, file, env@),
    {
        let cfg = match file {
            ConfigFile::Unreadable(e) => {
                return Err(cat4("cannot read config ", path, ": ", e.as_str()));
            },
            ConfigFile::Malformed(e) => {
                return Err(cat4("bad config ", path, ": ", e.as_str()));
            },
            ConfigFile::Parsed(f) => f.fill(),
        };
        let port: u16 = match env.sidecar_port {
            Some(v) => match parse_port(v.as_str()) {
                Some(p) => p,
                None => {
                    return Err("SIDECAR_PORT not a port number".to_owned());
                },
            },
            None => cfg.server.port,
        };
        let vlm = VlmConfig {
            base_url: pick(env.vlm_base_url, cfg.vlm.base_url),
            model: pick(env.vlm_model, cfg.vlm.model),
            api_key: match env.vlm_api_key {
                Some(key) => Some(key),
                None => cfg.vlm.api_key,
            },
            timeout_secs: cfg.vlm.timeout_secs,
            max_tokens: cfg.vlm.max_tokens,
        };
        let llm = if env.llm_base_url.is_none() && env.llm_model.is_none() {
            cfg.llm
        } else {
            let base = match cfg.llm {
                Some(llm) => llm,
                None => vlm.clone(),
            };
            Some(
                VlmConfig {
                    base_url: pick(env.llm_base_url, base.base_url),
                    model: pick(env.llm_model, base.model),
                    api_key: base.api_key,
                    timeout_secs: base.timeout_secs,
                    max_tokens: base.max_tokens,
                },
            )
        };
        let screenshot = ScreenshotConfig {
            mode: pick(env.screenshot_mode, cfg.screenshot.mode),
            binary_path: pick(env.screenshot_bin, cfg.screenshot.binary_path),
            args: cfg.screenshot.args,
            output_path: pick(env.screenshot_output, cfg.screenshot.output_path),
            timeout_secs: cfg.screenshot.timeout_secs,
        };
        if !same_text(screenshot.mode.as_str(), "exec") && !same_text(
            screenshot.mode.as_str(),
            "watch",
        ) {
            return Err(
                cat2("screenshot.mode must be exec|watch, got ", screenshot.mode.as_str()),
            );
        }
        Ok(
            Config {
                server: ServerConfig {
                    host: cfg.server.host,
                    port,
                    total_timeout_secs: cfg.server.total_timeout_secs,
                },
                screenshot,
                vlm,
                llm,
                downscale: cfg.downscale,
            },
        )
    }

    /// The endpoint for the repair pass: the one set for it, else the analysis endpoint.
    pub fn llm_endpoint(&self) -> (ep: &VlmConfig)
        ensures
            ep@ == self@.repair_endpoint(),
    {
        match &self.llm {
            Some(llm) => llm,
            None => &self.vlm,
        }
    }
}

impl ConfigView {
    /// The endpoint that repairs go to.
    pub open spec fn repair_endpoint(self) -> VlmView {
        match self.llm {
            Some(llm) => llm,
            None => self.vlm,
        }
    }
}

impl ServerConfig {
    /// The address to listen on.
    pub fn address(&self) -> (s: String)
        ensures
            s@ == self.host@ + ":"@ + decimal_text(self.port as nat),
    {
        let port = decimal(self.port as u64);
        cat3(self.host.as_str(), ":", port.as_str())
    }
}

// ---------------------------------------------------------------------------
// Laws

/// Settings that load have a capture mode that there is.
pub proof fn law_loaded_mode(path: Seq<char>, file: ConfigFile, env: OverridesView)
    ensures
        loaded(path, file, env) matches Ok(c) ==> is_mode(c.screenshot.mode),
{
}

/// A variable that is set decides its setting, whatever the file says.
pub proof fn law_environment_wins(path: Seq<char>, file: ConfigFile, env: OverridesView)
    ensures
        loaded(path, file, env) matches Ok(c) ==> {
            &&& env.sidecar_port matches Some(v) ==> port_number(v) == Some(c.server.port)
            &&& env.screenshot_bin matches Some(v) ==> c.screenshot.binary_path == v
            &&& env.screenshot_output matches Some(v) ==> c.screenshot.output_path == v
            &&& env.screenshot_mode matches Some(v) ==> c.screenshot.mode == v
            &&& env.vlm_base_url matches Some(v) ==> c.vlm.base_url == v
            &&& env.vlm_model matches Some(v) ==> c.vlm.model == v
            &&& env.vlm_api_key matches Some(v) ==> c.vlm.api_key == Some(v)
            &&& env.llm_base_url matches Some(v) ==> c.repair_endpoint().base_url == v
            &&& env.llm_model matches Some(v) ==> c.repair_endpoint().model == v
        },
{
}

/// No variable is set.
pub open spec fn no_overrides() -> OverridesView {
    OverridesView {
        sidecar_port: None,
        screenshot_bin: None,
        screenshot_output: None,
        screenshot_mode: None,
        vlm_base_url: None,
        vlm_model: None,
        vlm_api_key: None,
        llm_base_url: None,
        llm_model: None,
    }
}

/// Without variables, a parsed file with a capture mode that there is gives its
/// settings as they stand, and the defaults where it is silent.
pub proof fn law_no_overrides(path: Seq<char>, f: FileConfig)
    requires
        is_mode(filled(f).screenshot.mode),
    ensures
        loaded(path, ConfigFile::Parsed(f), no_overrides()) == Ok::<ConfigView, Seq<char>>(
            filled(f),
        ),
{
}

/// A file that gives nothing but the base URL of the model is enough.
pub proof fn law_base_url_is_enough(path: Seq<char>, f: FileConfig)
    requires
        f.server == (FileServer { host: None, port: None, total_timeout_secs: None }),
        f.screenshot == (FileScreenshot {
            mode: None,
            binary_path: None,
            args: None,
            output_path: None,
            timeout_secs: None,
        }),
        f.vlm.model is None,
        f.llm is None,
    ensures
        loaded(path, ConfigFile::Parsed(f), no_overrides()) matches Ok(c) && c.vlm.base_url
            == f.vlm.base_url@ && c.vlm.model == "Qwen/Qwen3-VL-8B-Instruct"@ && c.server
            == (ServerView { host: "127.0.0.1"@, port: 8787, total_timeout_secs: 90 })
            && c.screenshot.mode == "exec"@ && c.repair_endpoint() == c.vlm,
{
}

/// Overrides that were applied once change nothing when applied again.
pub proof fn law_load_idempotent(c: ConfigView, env: OverridesView, again: ConfigView)
    requires
        accepted(c, env) == Ok::<ConfigView, Seq<char>>(again),
    ensures
        accepted(again, env) == Ok::<ConfigView, Seq<char>>(again),
{
}

/// With no endpoint of their own in the file or the environment, repairs go to the
/// analysis endpoint, overrides and all.
pub proof fn law_repair_reuses_analysis_endpoint(path: Seq<char>, f: FileConfig, env: OverridesView)
    requires
        f.llm is None,
        env.llm_base_url is None,
        env.llm_model is None,
    ensures
        loaded(path, ConfigFile::Parsed(f), env) matches Ok(d) ==> d.repair_endpoint() == d.vlm,
{
}

// ---------------------------------------------------------------------------
// Laws: setting by setting

/// A setting whose own variable is not set is the file's, whatever other variables are
/// set; settings without a variable are always the file's.
pub proof fn law_unset_variables_leave_the_file(path: Seq<char>, f: FileConfig, env: OverridesView)
    ensures
        loaded(path, ConfigFile::Parsed(f), env) matches Ok(c) ==> {
            &&& f.server.host matches Some(v) ==> c.server.host == v@
            &&& env.sidecar_port is None ==> (f.server.port matches Some(v) ==> c.server.port == v)
            &&& f.server.total_timeout_secs matches Some(v) ==> c.server.total_timeout_secs == v
            &&& env.screenshot_mode is None ==> (f.screenshot.mode matches Some(v)
                ==> c.screenshot.mode == v@)
            &&& env.screenshot_bin is None ==> (f.screenshot.binary_path matches Some(v)
                ==> c.screenshot.binary_path == v@)
            &&& f.screenshot.args matches Some(v) ==> c.screenshot.args == texts(v@)
            &&& env.screenshot_output is None ==> (f.screenshot.output_path matches Some(v)
                ==> c.screenshot.output_path == v@)
            &&& f.screenshot.timeout_secs matches Some(v) ==> c.screenshot.timeout_secs == v
            &&& env.vlm_base_url is None ==> c.vlm.base_url == f.vlm.base_url@
            &&& env.vlm_model is None ==> (f.vlm.model matches Some(v) ==> c.vlm.model == v@)
            &&& env.vlm_api_key is None ==> (f.vlm.api_key matches Some(v) ==> c.vlm.api_key == Some(
                v@,
            ))
            &&& f.vlm.timeout_secs matches Some(v) ==> c.vlm.timeout_secs == v
            &&& f.vlm.max_tokens matches Some(v) ==> c.vlm.max_tokens == v
            &&& f.downscale.enabled matches Some(v) ==> c.downscale.enabled == v
            &&& f.downscale.max_long_edge matches Some(v) ==> c.downscale.max_long_edge == v
            &&& f.downscale.command matches Some(v) ==> c.downscale.command == v@
        },
{
}

/// A setting that neither the file nor a variable gives has its default, whatever else is
/// set.
pub proof fn law_defaults(path: Seq<char>, f: FileConfig, env: OverridesView)
    ensures
        loaded(path, ConfigFile::Parsed(f), env) matches Ok(c) ==> {
            &&& f.server.host is None ==> c.server.host == "127.0.0.1"@
            &&& f.server.port is None && env.sidecar_port is None ==> c.server.port == 8787
            &&& f.server.total_timeout_secs is None ==> c.server.total_timeout_secs == 90
            &&& f.screenshot.mode is None && env.screenshot_mode is None ==> c.screenshot.mode
                == "exec"@
            &&& f.screenshot.binary_path is None && env.screenshot_bin is None
                ==> c.screenshot.binary_path == "/opt/usr/home/owner/tizenscreenshot"@
            &&& f.screenshot.args is None ==> c.screenshot.args.len() == 0
            &&& f.screenshot.output_path is None && env.screenshot_output is None
                ==> c.screenshot.output_path == "/tmp/screenshot.png"@
            &&& f.screenshot.timeout_secs is None ==> c.screenshot.timeout_secs == 10
            &&& f.vlm.model is None && env.vlm_model is None ==> c.vlm.model
                == "Qwen/Qwen3-VL-8B-Instruct"@
            &&& f.vlm.api_key is None && env.vlm_api_key is None ==> c.vlm.api_key is None
            &&& f.vlm.timeout_secs is None ==> c.vlm.timeout_secs == 60
            &&& f.vlm.max_tokens is None ==> c.vlm.max_tokens == 1024
            &&& f.downscale.enabled is None ==> !c.downscale.enabled
            &&& f.downscale.max_long_edge is None ==> c.downscale.max_long_edge == 1280
            &&& f.downscale.command is None ==> c.downscale.command.len() == 0
        },
{
}

/// A repair endpoint that the file gives is kept: all of it while neither of its
/// variables is set, and otherwise all but what they set. No other variable touches it.
pub proof fn law_repair_endpoint_of_the_file(
    path: Seq<char>,
    f: FileConfig,
    env: OverridesView,
    llm: FileLlm,
)
    requires
        f.llm == Some(llm),
    ensures
        loaded(path, ConfigFile::Parsed(f), env) matches Ok(c) ==> {
            let ep = c.repair_endpoint();
            &&& c.llm == Some(ep)
            &&& env.llm_base_url is None ==> ep.base_url == llm.base_url@
            &&& env.llm_base_url matches Some(v) ==> ep.base_url == v
            &&& env.llm_model is None ==> ep.model == llm.model@
            &&& env.llm_model matches Some(v) ==> ep.model == v
            &&& llm.api_key matches Some(key) ==> ep.api_key == Some(key@)
            &&& llm.api_key is None ==> ep.api_key is None
            &&& llm.timeout_secs matches Some(v) ==> ep.timeout_secs == v
            &&& llm.timeout_secs is None ==> ep.timeout_secs == 60
            &&& llm.max_tokens matches Some(v) ==> ep.max_tokens == v
            &&& llm.max_tokens is None ==> ep.max_tokens == 1024
        },
{
}

/// Without a repair endpoint in the file, repairs go to the analysis endpoint as it was
/// loaded, but for what the variables of the repair endpoint set.
pub proof fn law_repair_endpoint_otherwise(path: Seq<char>, f: FileConfig, env: OverridesView)
    requires
        f.llm is None,
    ensures
        loaded(path, ConfigFile::Parsed(f), env) matches Ok(c) ==> {
            let ep = c.repair_endpoint();
            &&& env.llm_base_url is None ==> ep.base_url == c.vlm.base_url
            &&& env.llm_base_url matches Some(v) ==> ep.base_url == v
            &&& env.llm_model is None ==> ep.model == c.vlm.model
            &&& env.llm_model matches Some(v) ==> ep.model == v
            &&& ep.api_key == c.vlm.api_key
            &&& ep.timeout_secs == c.vlm.timeout_secs
            &&& ep.max_tokens == c.vlm.max_tokens
        },
{
}

/// Repairs go to the repair endpoint if there is one, else to the analysis endpoint.
pub proof fn law_where_repairs_go(c: ConfigView)
    ensures
        c.llm matches Some(llm) ==> c.repair_endpoint() == llm,
        c.llm is None ==> c.repair_endpoint() == c.vlm,
{
}

/// Settings load just if the file could be read and parsed, the port variable, if set,
/// holds a port number, and the capture mode is exec or watch. The first of these that
/// fails is told.
pub proof fn law_when_settings_load(
    path: Seq<char>,
    f: FileConfig,
    env: OverridesView,
    why: String,
)
    ensures
        ({
            let port = env.sidecar_port matches Some(v) ==> port_number(v) is Some;
            let mode = match env.screenshot_mode {
                Some(v) => v,
                None => match f.screenshot.mode {
                    Some(v) => v@,
                    None => "exec"@,
                },
            };
            let r = loaded(path, ConfigFile::Parsed(f), env);
            &&& r is Ok <==> port && (mode == "exec"@ || mode == "watch"@)
            &&& !port ==> r == Err::<ConfigView, Seq<char>>("SIDECAR_PORT not a port number"@)
            &&& port && mode != "exec"@ && mode != "watch"@ ==> r == Err::<ConfigView, Seq<char>>(
                "screenshot.mode must be exec|watch, got "@ + mode,
            )
        }),
        loaded(path, ConfigFile::Unreadable(why), env) == Err::<ConfigView, Seq<char>>(
            "cannot read config "@ + path + ": "@ + why@,
        ),
        loaded(path, ConfigFile::Malformed(why), env) == Err::<ConfigView, Seq<char>>(
            "bad config "@ + path + ": "@ + why@,
        ),
{
}

} // verus!
