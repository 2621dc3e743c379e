//! The command-line scanner. Tokens are read left to right into a draft; a
//! flag that takes a value takes the next token verbatim, and a later
//! occurrence of a flag overrides an earlier one. Once all tokens are read the
//! draft is validated: the server URL, then the state file, then, when a proxy
//! was asked for, the proxy address. The `--proxy-*` flags are accepted
//! without `--use-proxy` but then have no effect.

use vstd::prelude::*;
use crate::config::{Config, ConfigView, OutcomeView, ParseOutcome, ProxyInfo, ProxyInfoView, ProxyType};
use crate::proxy_addr::{parse_proxy_addr, spec_parse_proxy_addr};
use crate::server_url::{clean_server_url, spec_clean_server_url};
use crate::text::{append_chars, chars_of, joined, same_chars, upper_all, upper_chars};

verus! {

/// The proxy address used when a proxy is asked for without `--proxy-addr`.
pub const DEFAULT_PROXY_ADDR: &'static str = "127.0.0.1:9050";

/// The raw values gathered from the tokens, before validation.
pub struct Draft {
    pub server_url: Option<String>,
    pub state_file_path: Option<String>,
    pub use_proxy: bool,
    pub proxy_type: ProxyType,
    pub proxy_addr: Option<String>,
    pub proxy_user: Option<String>,
    pub proxy_pass: Option<String>,
    pub debug: bool,
}

pub struct DraftView {
    pub server_url: Option<Seq<char>>,
    pub state_file_path: Option<Seq<char>>,
    pub use_proxy: bool,
    pub proxy_type: ProxyType,
    pub proxy_addr: Option<Seq<char>>,
    pub proxy_user: Option<Seq<char>>,
    pub proxy_pass: Option<Seq<char>>,
    pub debug: bool,
}

impl View for Draft {
    type V = DraftView;

    open spec fn view(&self) -> DraftView {
        DraftView {
            server_url: self.server_url.deep_view(),
            state_file_path: self.state_file_path.deep_view(),
            use_proxy: self.use_proxy,
            proxy_type: self.proxy_type,
            proxy_addr: self.proxy_addr.deep_view(),
            proxy_user: self.proxy_user.deep_view(),
            proxy_pass: self.proxy_pass.deep_view(),
            debug: self.debug,
        }
    }
}

/// The draft before any token is read.
pub open spec fn initial_draft() -> DraftView {
    DraftView {
        server_url: None,
        state_file_path: None,
        use_proxy: false,
        proxy_type: ProxyType::Socks5,
        proxy_addr: None,
        proxy_user: None,
        proxy_pass: None,
        debug: false,
    }
}

impl Draft {
    pub fn new() -> (r: Draft)
        ensures
            r@ == initial_draft(),
    {
        Draft {
            server_url: None,
            state_file_path: None,
            use_proxy: false,
            proxy_type: ProxyType::Socks5,
            proxy_addr: None,
            proxy_user: None,
            proxy_pass: None,
            debug: false,
        }
    }
}

/// The proxy type that a `--proxy-type` value names, in any letter case.
pub open spec fn proxy_type_of(v: Seq<char>) -> Option<ProxyType> {
    let u = upper_chars(v);
    if u == "HTTP"@ {
        Some(ProxyType::Http)
    } else if u == "SOCKS4"@ {
        Some(ProxyType::Socks4)
    } else if u == "SOCKS5"@ {
        Some(ProxyType::Socks5)
    } else {
        None
    }
}

/// What reading one token does: a flag alone, a flag with the next token as
/// its value, the help request, or a failure.
pub enum StepView {
    Flag(DraftView),
    FlagValue(DraftView),
    Help,
    Fail(Seq<char>),
}

/// The effect of the token `t` on the draft `d`, where `next` is the token
/// after it, if any.
pub open spec fn step(t: Seq<char>, next: Option<Seq<char>>, d: DraftView) -> StepView {
    if t == "--server"@ {
        match next {
            Some(v) => StepView::FlagValue(DraftView { server_url: Some(v), ..d }),
            None => StepView::Fail("--server requires a value"@),
        }
    } else if t == "--state-file"@ {
        match next {
            Some(v) => StepView::FlagValue(DraftView { state_file_path: Some(v), ..d }),
            None => StepView::Fail("--state-file requires a file name / path"@),
        }
    } else if t == "--use-proxy"@ {
        StepView::Flag(DraftView { use_proxy: true, ..d })
    } else if t == "--proxy-type"@ {
        match next {
            Some(v) => match proxy_type_of(v) {
                Some(k) => StepView::FlagValue(DraftView { proxy_type: k, ..d }),
                None => StepView::Fail(
                    "Invalid proxy type: "@ + v + " (allowed: HTTP, SOCKS4, SOCKS5)"@,
                ),
            },
            None => StepView::Fail("--proxy-type requires a value"@),
        }
    } else if t == "--proxy-addr"@ {
        match next {
            Some(v) => StepView::FlagValue(DraftView { proxy_addr: Some(v), ..d }),
            None => StepView::Fail("--proxy-addr requires a value"@),
        }
    } else if t == "--proxy-user"@ {
        match next {
            Some(v) => StepView::FlagValue(DraftView { proxy_user: Some(v), ..d }),
            None => StepView::Fail("--proxy-user requires a value"@),
        }
    } else if t == "--proxy-pass"@ {
        match next {
            Some(v) => StepView::FlagValue(DraftView { proxy_pass: Some(v), ..d }),
            None => StepView::Fail("--proxy-pass requires a value"@),
        }
    } else if t == "--debug"@ {
        StepView::Flag(DraftView { debug: true, ..d })
    } else if t == "--help"@ || t == "-h"@ {
        StepView::Help
    } else {
        StepView::Fail("Unknown argument: "@ + t)
    }
}

/// How scanning the tokens ends: with a draft, a help request, or a failure.
pub enum ScanView {
    Done(DraftView),
    Help,
    Fail(Seq<char>),
}

/// Scanning `args` from index `i` on, starting from the draft `d`.
pub open spec fn scan(args: Seq<Seq<char>>, i: int, d: DraftView) -> ScanView
    decreases args.len() - i,
{
    if i < 0 || i >= args.len() {
        ScanView::Done(d)
    } else {
        let next = if i + 1 < args.len() {
            Some(args[i + 1])
        } else {
            None
        };
        match step(args[i], next, d) {
            StepView::Flag(d2) => scan(args, i + 1, d2),
            StepView::FlagValue(d2) => scan(args, i + 2, d2),
            StepView::Help => ScanView::Help,
            StepView::Fail(m) => ScanView::Fail(m),
        }
    }
}

/// The proxy address that a draft asks for.
pub open spec fn draft_proxy_addr(d: DraftView) -> Seq<char> {
    match d.proxy_addr {
        Some(a) => a,
        None => DEFAULT_PROXY_ADDR@,
    }
}

/// The validation of a finished draft.
pub open spec fn finish(d: DraftView) -> OutcomeView {
    if d.server_url is None {
        OutcomeView::Error("--server is required"@)
    } else if spec_clean_server_url(d.server_url->0) is Err {
        OutcomeView::Error(spec_clean_server_url(d.server_url->0)->Err_0)
    } else if d.state_file_path is None {
        OutcomeView::Error("--state-file is required"@)
    } else {
        let url = spec_clean_server_url(d.server_url->0)->Ok_0;
        let path = d.state_file_path->0;
        if !d.use_proxy {
            OutcomeView::Success(
                ConfigView { server_url: url, state_file_path: path, proxy: None, debug: d.debug },
            )
        } else {
            let addr = draft_proxy_addr(d);
            match spec_parse_proxy_addr(addr) {
                Err(e) => OutcomeView::Error("Invalid proxy address '"@ + addr + "': "@ + e),
                Ok((host, port)) => OutcomeView::Success(
                    ConfigView {
                        server_url: url,
                        state_file_path: path,
                        proxy: Some(
                            ProxyInfoView {
                                ptype: d.proxy_type,
                                host: host,
                                port: port,
                                username: d.proxy_user,
                                password: d.proxy_pass,
                            },
                        ),
                        debug: d.debug,
                    },
                ),
            }
        }
    }
}

/// The tokens as character sequences.
pub open spec fn tokens(args: Seq<String>) -> Seq<Seq<char>> {
    args.map_values(|s: String| s@)
}

/// The outcome of parsing the tokens `args` (the program name not among them).
pub open spec fn spec_parse_args(args: Seq<Seq<char>>) -> OutcomeView {
    match scan(args, 0, initial_draft()) {
        ScanView::Done(d) => finish(d),
        ScanView::Help => OutcomeView::Help,
        ScanView::Fail(m) => OutcomeView::Error(m),
    }
}

fn is_token(t: &String, lit: &str) -> (r: bool)
    ensures
        r == (t@ == lit@),
{
    let l = lit.to_owned();
    *t == l
}

fn read_proxy_type(v: &String) -> (r: Option<ProxyType>)
    ensures
        r == proxy_type_of(v@),
{
    let c = chars_of(v.as_str());
    let u = upper_all(c.as_slice());
    let http = chars_of("HTTP");
    let socks4 = chars_of("SOCKS4");
    let socks5 = chars_of("SOCKS5");
    if same_chars(u.as_slice(), http.as_slice()) {
        Some(ProxyType::Http)
    } else if same_chars(u.as_slice(), socks4.as_slice()) {
        Some(ProxyType::Socks4)
    } else if same_chars(u.as_slice(), socks5.as_slice()) {
        Some(ProxyType::Socks5)
    } else {
        None
    }
}

/// Turns a validated draft into the outcome of the parse.
fn finish_draft(d: Draft) -> (r: ParseOutcome)
    ensures
        r@ == finish(d@),
{
    let ghost dv = d@;
    let raw = match d.server_url {
        Some(s) => s,
        None => {
            return ParseOutcome::Error("--server is required".to_owned());
        },
    };
    let server_url = match clean_server_url(raw) {
        Ok(u) => u,
        Err(e) => {
            return ParseOutcome::Error(e);
        },
    };
    let state_file_path = match d.state_file_path {
        Some(p) => p,
        None => {
            return ParseOutcome::Error("--state-file is required".to_owned());
        },
    };
    if !d.use_proxy {
        return ParseOutcome::Success(
            Config { server_url, state_file_path, proxy: None, debug: d.debug },
        );
    }
    let addr = match d.proxy_addr {
        Some(a) => a,
        None => DEFAULT_PROXY_ADDR.to_owned(),
    };
    assert(addr@ == draft_proxy_addr(dv));
    match parse_proxy_addr(addr.as_str()) {
        Err(e) => {
            let mut v = chars_of(addr.as_str());
            let mid = chars_of("': ");
            append_chars(&mut v, mid.as_slice());
            let m = chars_of(e.as_str());
            append_chars(&mut v, m.as_slice());
            let msg = joined("Invalid proxy address '", v.as_slice(), "");
            proof {
                reveal_strlit("");
            }
            assert(msg@ =~= "Invalid proxy address '"@ + addr@ + "': "@ + e@);
            ParseOutcome::Error(msg)
        },
        Ok((host, port)) => {
            let proxy = ProxyInfo {
                ptype: d.proxy_type,
                host,
                port,
                username: d.proxy_user,
                password: d.proxy_pass,
            };
            ParseOutcome::Success(
                Config { server_url, state_file_path, proxy: Some(proxy), debug: d.debug },
            )
        },
    }
}

/// Parses the command-line tokens (the program name not among them) into a
/// configuration, a help request, or the message for the first fault.
pub fn parse_args(args: &Vec<String>) -> (r: ParseOutcome)
    ensures
        r@ == spec_parse_args(tokens(args@)),
{
    let ghost a = tokens(args@);
    let mut d = Draft::new();
    let mut i: usize = 0;
    while i < args.len()
        invariant
            i <= args.len(),
            a == tokens(args@),
            scan(a, 0, initial_draft()) == scan(a, i as int, d@),
        decreases args.len() - i,
    {
        let t = &args[i];
        let has_next = i + 1 < args.len();
        assert(a[i as int] == t@);
        if is_token(t, "--server") {
            if !has_next {
                return ParseOutcome::Error("--server requires a value".to_owned());
            }
            d.server_url = Some(args[i + 1].clone());
            i = i + 2;
        } else if is_token(t, "--state-file") {
            if !has_next {
                return ParseOutcome::Error("--state-file requires a file name / path".to_owned());
            }
            d.state_file_path = Some(args[i + 1].clone());
            i = i + 2;
        } else if is_token(t, "--use-proxy") {
            d.use_proxy = true;
            i = i + 1;
        } else if is_token(t, "--proxy-type") {
            if !has_next {
                return ParseOutcome::Error("--proxy-type requires a value".to_owned());
            }
            let v = &args[i + 1];
            match read_proxy_type(v) {
                Some(k) => {
                    d.proxy_type = k;
                },
                None => {
                    let raw = chars_of(v.as_str());
                    return ParseOutcome::Error(
                        joined("Invalid proxy type: ", raw.as_slice(), " (allowed: HTTP, SOCKS4, SOCKS5)"),
                    );
                },
            }
            i = i + 2;
        } else if is_token(t, "--proxy-addr") {
            if !has_next {
                return ParseOutcome::Error("--proxy-addr requires a value".to_owned());
            }
            d.proxy_addr = Some(args[i + 1].clone());
            i = i + 2;
        } else if is_token(t, "--proxy-user") {
            if !has_next {
                return ParseOutcome::Error("--proxy-user requires a value".to_owned());
            }
            d.proxy_user = Some(args[i + 1].clone());
            i = i + 2;
        } else if is_token(t, "--proxy-pass") {
            if !has_next {
                return ParseOutcome::Error("--proxy-pass requires a value".to_owned());
            }
            d.proxy_pass = Some(args[i + 1].clone());
            i = i + 2;
        } else if is_token(t, "--debug") {
            d.debug = true;
            i = i + 1;
        } else if is_token(t, "--help") || is_token(t, "-h") {
            return ParseOutcome::Help;
        } else {
            let raw = chars_of(t.as_str());
            let m = joined("Unknown argument: ", raw.as_slice(), "");
            proof {
                reveal_strlit("");
            }
            assert(m@ =~= "Unknown argument: "@ + t@);
            return ParseOutcome::Error(m);
        }
    }
    finish_draft(d)
}

/// The usage text printed for `--help` and after an error.
pub open spec fn usage_text() -> Seq<char> {
    "Usage:
  coldwire-desktop --server <server-url> --state-file <file-path> [--debug] [--use-proxy]
If --use-proxy is present you can pass:
  --proxy-type <HTTP|SOCKS4|SOCKS5>    (default: SOCKS5)
  --proxy-addr <host:port>             (default: 127.0.0.1:9050)
  --proxy-user <username>
  --proxy-pass <password>"@
}

/// The usage text: the flags, and the defaults for the proxy type and address.
pub fn usage() -> (r: &'static str)
    ensures
        r@ == usage_text(),
{
    "Usage:
  coldwire-desktop --server <server-url> --state-file <file-path> [--debug] [--use-proxy]
If --use-proxy is present you can pass:
  --proxy-type <HTTP|SOCKS4|SOCKS5>    (default: SOCKS5)
  --proxy-addr <host:port>             (default: 127.0.0.1:9050)
  --proxy-user <username>
  --proxy-pass <password>"
}

} // verus!
