//! How the `p` program settles the browser it drives: its command-line flags come first,
//! then its configuration file, then the defaults.
use vstd::prelude::*;

verus! {

/// The launch flags given on the command line.
pub struct CliOptions {
    pub headful: Option<bool>,
    pub port: Option<u16>,
    pub url: Option<String>,
    pub width: Option<u32>,
    pub height: Option<u32>,
    pub verbose: Option<bool>,
    pub chrome_args: Vec<String>,
}

/// The settings that the configuration file may hold; each one may be absent.
pub struct Config {
    pub headless: Option<bool>,
    pub sandbox: Option<bool>,
    pub devtools: Option<bool>,
    pub enable_gpu: Option<bool>,
    pub enable_logging: Option<bool>,
    pub width: Option<u32>,
    pub height: Option<u32>,
    pub port: Option<u16>,
    pub ignore_certificate_errors: Option<bool>,
    pub chrome_path: Option<String>,
    pub user_data_dir: Option<String>,
    pub disable_default_args: Option<bool>,
    pub idle_browser_timeout_secs: Option<u64>,
    pub proxy_server: Option<String>,
    pub chrome_args: Option<Vec<String>>,
    pub process_envs: Option<Vec<(String, String)>>,
    pub verbose: Option<bool>,
    pub url: Option<String>,
}

/// How to launch Chrome.
pub struct LaunchSettings {
    pub headless: bool,
    pub sandbox: bool,
    pub devtools: bool,
    pub enable_gpu: bool,
    pub enable_logging: bool,
    pub width: u32,
    pub height: u32,
    pub port: Option<u16>,
    pub ignore_certificate_errors: bool,
    pub chrome_path: Option<String>,
    pub user_data_dir: Option<String>,
    pub disable_default_args: bool,
    pub idle_browser_timeout_secs: u64,
    pub process_envs: Option<Vec<(String, String)>>,
    pub proxy_server: Option<String>,
    pub args: Vec<String>,
}

/// Which browser to drive.
pub enum BrowserPlan {
    /// Connect to the Chrome instance at this WebSocket URL
    Connect(String),
    /// Launch a new Chrome
    Launch(LaunchSettings),
}

/// The first value that is present, or the default.
pub open spec fn first_of<T>(a: Option<T>, b: Option<T>, default: T) -> T {
    match a {
        Some(x) => x,
        None => match b {
            Some(y) => y,
            None => default,
        },
    }
}

fn pick<T>(a: Option<T>, b: Option<T>, default: T) -> (r: T)
    ensures
        r == first_of(a, b, default),
{
    match a {
        Some(x) => x,
        None => match b {
            Some(y) => y,
            None => default,
        },
    }
}

/// Whether output is verbose: the flag, else the configuration, else not.
pub fn resolve_verbose(cli: Option<bool>, cfg: Option<bool>) -> (r: bool)
    ensures
        r == first_of(cli, cfg, false),
{
    pick(cli, cfg, false)
}

/// The WebSocket URL to connect to: the flag's, else the configuration's.
pub open spec fn connect_target(cli_url: Option<String>, cfg_url: Option<String>) -> Option<Seq<char>> {
    match cli_url {
        Some(u) => Some(u@),
        None => match cfg_url {
            Some(u) => Some(u@),
            None => None,
        },
    }
}

/// The launch settings that the flags and the configuration give.
pub open spec fn launched_as(cli: CliOptions, cfg: Config, s: LaunchSettings) -> bool {
    &&& s.headless == match cli.headful {
        Some(h) => !h,
        None => first_of(cfg.headless, None, true),
    }
    &&& s.port == (match cli.port {
        Some(p) => Some(p),
        None => cfg.port,
    })
    &&& s.width == first_of(cli.width, cfg.width, 1280)
    &&& s.height == first_of(cli.height, cfg.height, 720)
    &&& s.sandbox == first_of(cfg.sandbox, None, true)
    &&& s.devtools == first_of(cfg.devtools, None, false)
    &&& s.enable_gpu == first_of(cfg.enable_gpu, None, false)
    &&& s.enable_logging == first_of(cfg.enable_logging, None, false)
    &&& s.ignore_certificate_errors == first_of(cfg.ignore_certificate_errors, None, true)
    &&& s.disable_default_args == first_of(cfg.disable_default_args, None, false)
    &&& s.idle_browser_timeout_secs == first_of(cfg.idle_browser_timeout_secs, None, 30)
    &&& s.chrome_path == cfg.chrome_path
    &&& s.user_data_dir == cfg.user_data_dir
    &&& s.process_envs == cfg.process_envs
    &&& s.proxy_server == cfg.proxy_server
    &&& s.args@ == (match cfg.chrome_args {
        Some(a) => a@,
        None => Seq::empty(),
    }) + cli.chrome_args@
}

/// Settles the browser: a WebSocket URL (the flag's, else the configuration's) means
/// connecting to it; otherwise each launch setting comes from the flag, else from the
/// configuration, else from its default, and the Chrome arguments of the configuration come
/// before those of the command line.
pub fn plan_browser(cli: CliOptions, cfg: Config) -> (r: BrowserPlan)
    ensures
        r matches BrowserPlan::Connect(c) ==> connect_target(cli.url, cfg.url) == Some(c@),
        r matches BrowserPlan::Launch(s) ==> connect_target(cli.url, cfg.url) is None,
        r matches BrowserPlan::Launch(s) ==> launched_as(cli, cfg, s),
{
    if let Some(u) = cli.url {
        return BrowserPlan::Connect(u);
    }
    if let Some(u) = cfg.url {
        return BrowserPlan::Connect(u);
    }
    let mut args: Vec<String> = match cfg.chrome_args {
        Some(a) => a,
        None => Vec::new(),
    };
    let mut extra = cli.chrome_args;
    args.append(&mut extra);
    let headless = match cli.headful {
        Some(h) => !h,
        None => pick(cfg.headless, None, true),
    };
    let port = match cli.port {
        Some(p) => Some(p),
        None => cfg.port,
    };
    BrowserPlan::Launch(
        LaunchSettings {
            headless,
            sandbox: pick(cfg.sandbox, None, true),
            devtools: pick(cfg.devtools, None, false),
            enable_gpu: pick(cfg.enable_gpu, None, false),
            enable_logging: pick(cfg.enable_logging, None, false),
            width: pick(cli.width, cfg.width, 1280),
            height: pick(cli.height, cfg.height, 720),
            port,
            ignore_certificate_errors: pick(cfg.ignore_certificate_errors, None, true),
            chrome_path: cfg.chrome_path,
            user_data_dir: cfg.user_data_dir,
            disable_default_args: pick(cfg.disable_default_args, None, false),
            idle_browser_timeout_secs: pick(cfg.idle_browser_timeout_secs, None, 30),
            process_envs: cfg.process_envs,
            proxy_server: cfg.proxy_server,
            args,
        },
    )
}

/// Command-line flags override the configuration file: a flag that is given decides its
/// setting, and a WebSocket URL flag decides where to connect.
pub proof fn law_flags_override_config(cli: CliOptions, cfg: Config, s: LaunchSettings)
    requires
        launched_as(cli, cfg, s),
    ensures
        cli.width matches Some(w) ==> s.width == w,
        cli.height matches Some(h) ==> s.height == h,
        cli.port matches Some(p) ==> s.port == Some(p),
        cli.headful matches Some(h) ==> s.headless == !h,
        cli.url matches Some(u) ==> connect_target(cli.url, cfg.url) == Some(u@),
{
}

} // verus!
