//! Facts about whole parses: how a scan splits over a sequence of tokens, and
//! what the outcome is in the cases that matter to a caller.

use vstd::prelude::*;
use crate::config::{ConfigView, OutcomeView, ProxyInfoView, ProxyType};
use crate::parse::{initial_draft, scan, spec_parse_args, step, DraftView, ScanView, StepView};
use crate::proxy_addr::lemma_default_addr;
use crate::server_url::{is_bare_host, lemma_bare_host_gets_https, spec_clean_server_url};

verus! {

/// The flag literals are all different from one another.
pub proof fn lemma_flag_literals()
    ensures
        "--server"@.len() == 8,
        "--state-file"@.len() == 12,
        "--use-proxy"@.len() == 11,
        "--proxy-type"@.len() == 12,
        "--proxy-addr"@.len() == 12,
        "--proxy-user"@.len() == 12,
        "--proxy-pass"@.len() == 12,
        "--debug"@.len() == 7,
        "--help"@.len() == 6,
        "-h"@.len() == 2,
        "--state-file"@ != "--proxy-type"@,
        "--state-file"@ != "--proxy-addr"@,
        "--state-file"@ != "--proxy-user"@,
        "--state-file"@ != "--proxy-pass"@,
        "--proxy-type"@ != "--proxy-addr"@,
        "--proxy-type"@ != "--proxy-user"@,
        "--proxy-type"@ != "--proxy-pass"@,
        "--proxy-addr"@ != "--proxy-user"@,
        "--proxy-addr"@ != "--proxy-pass"@,
        "--proxy-user"@ != "--proxy-pass"@,
{
    reveal_strlit("--server");
    reveal_strlit("--state-file");
    reveal_strlit("--use-proxy");
    reveal_strlit("--proxy-type");
    reveal_strlit("--proxy-addr");
    reveal_strlit("--proxy-user");
    reveal_strlit("--proxy-pass");
    reveal_strlit("--debug");
    reveal_strlit("--help");
    reveal_strlit("-h");
    assert("--state-file"@[2] != "--proxy-type"@[2]);
    assert("--state-file"@[2] != "--proxy-addr"@[2]);
    assert("--state-file"@[2] != "--proxy-user"@[2]);
    assert("--state-file"@[2] != "--proxy-pass"@[2]);
    assert("--proxy-type"@[8] != "--proxy-addr"@[8]);
    assert("--proxy-type"@[8] != "--proxy-user"@[8]);
    assert("--proxy-type"@[8] != "--proxy-pass"@[8]);
    assert("--proxy-addr"@[8] != "--proxy-user"@[8]);
    assert("--proxy-addr"@[8] != "--proxy-pass"@[8]);
    assert("--proxy-user"@[8] != "--proxy-pass"@[8]);
}

/// Scanning `a + b` from a point inside `b` is scanning `b` alone from there.
pub proof fn lemma_scan_shift(a: Seq<Seq<char>>, b: Seq<Seq<char>>, j: int, d: DraftView)
    requires
        0 <= j <= b.len(),
    ensures
        scan(a + b, a.len() + j, d) == scan(b, j, d),
    decreases b.len() - j,
{
    let ab = a + b;
    if j < b.len() {
        assert(ab[a.len() + j] == b[j]);
        if j + 1 < b.len() {
            assert(ab[a.len() + j + 1] == b[j + 1]);
        }
        match step(b[j], if j + 1 < b.len() { Some(b[j + 1]) } else { None }, d) {
            StepView::Flag(d2) => {
                lemma_scan_shift(a, b, j + 1, d2);
            },
            StepView::FlagValue(d2) => {
                if j + 2 <= b.len() {
                    lemma_scan_shift(a, b, j + 2, d2);
                }
            },
            _ => {},
        }
    }
}

/// Where the tokens `a` scan to a draft, the tokens `a + b` scan as `b` does
/// from that draft.
pub proof fn lemma_scan_append(a: Seq<Seq<char>>, b: Seq<Seq<char>>, i: int, d: DraftView)
    requires
        0 <= i <= a.len(),
        scan(a, i, d) is Done,
    ensures
        scan(a + b, i, d) == scan(b, 0, scan(a, i, d)->Done_0),
    decreases a.len() - i,
{
    let ab = a + b;
    if i == a.len() {
        lemma_scan_shift(a, b, 0, d);
    } else {
        assert(ab[i] == a[i]);
        let na = if i + 1 < a.len() { Some(a[i + 1]) } else { None };
        let nab = if i + 1 < ab.len() { Some(ab[i + 1]) } else { None };
        if i + 1 < a.len() {
            assert(ab[i + 1] == a[i + 1]);
        }
        match step(a[i], na, d) {
            StepView::Flag(d2) => {
                assert(step(a[i], nab, d) == StepView::Flag(d2));
                lemma_scan_append(a, b, i + 1, d2);
            },
            StepView::FlagValue(d2) => {
                assert(step(a[i], nab, d) == StepView::FlagValue(d2));
                lemma_scan_append(a, b, i + 2, d2);
            },
            _ => {},
        }
    }
}

/// A help flag that stands where a flag is read (every token before it scans
/// without failure, and it is not the value of the flag before it) makes the
/// outcome the help request, whatever follows it.
pub proof fn lemma_help_wins(args: Seq<Seq<char>>, k: int)
    requires
        0 <= k < args.len(),
        args[k] == "--help"@ || args[k] == "-h"@,
        scan(args.take(k), 0, initial_draft()) is Done,
    ensures
        spec_parse_args(args) == OutcomeView::Help,
{
    lemma_flag_literals();
    let a = args.take(k);
    let b = args.skip(k);
    assert(a + b =~= args);
    lemma_scan_append(a, b, 0, initial_draft());
    assert(b[0] == args[k]);
}

/// Whether scanning all of `args` ends with the draft `d`.
pub open spec fn scanned_to(args: Seq<Seq<char>>, d: DraftView) -> bool {
    scan(args, 0, initial_draft()) == ScanView::Done(d)
}

/// Without `--server` the parse fails with the message that asks for it.
pub proof fn lemma_server_required(args: Seq<Seq<char>>, d: DraftView)
    requires
        scanned_to(args, d),
        d.server_url is None,
    ensures
        spec_parse_args(args) == OutcomeView::Error("--server is required"@),
{
}

/// With a valid server value but without `--state-file` the parse fails with
/// the message that asks for it.
pub proof fn lemma_state_file_required(args: Seq<Seq<char>>, d: DraftView)
    requires
        scanned_to(args, d),
        d.server_url is Some,
        spec_clean_server_url(d.server_url->0) is Ok,
        d.state_file_path is None,
    ensures
        spec_parse_args(args) == OutcomeView::Error("--state-file is required"@),
{
}

/// A server value over 512 characters fails the parse with the length
/// message, whatever the other flags hold.
pub proof fn lemma_long_server_fails(args: Seq<Seq<char>>, d: DraftView)
    requires
        scanned_to(args, d),
        d.server_url is Some,
        d.server_url->0.len() > 512,
    ensures
        spec_parse_args(args) == OutcomeView::Error("URL too long (max 512 chars)"@),
{
}

/// A bare dotted host name as the server value becomes `https://` and that host.
pub proof fn lemma_server_gets_https(args: Seq<Seq<char>>, d: DraftView)
    requires
        scanned_to(args, d),
        d.server_url is Some,
        is_bare_host(d.server_url->0),
    ensures
        spec_parse_args(args) is Success ==> spec_parse_args(args)->Success_0.server_url == "https://"@
            + d.server_url->0,
{
    lemma_bare_host_gets_https(d.server_url->0);
}

/// Without `--use-proxy` a successful parse has no proxy, whatever
/// `--proxy-*` flags were given.
pub proof fn lemma_no_proxy_without_flag(args: Seq<Seq<char>>)
    requires
        forall|j: int| 0 <= j < args.len() ==> args[j] != "--use-proxy"@,
    ensures
        spec_parse_args(args) is Success ==> spec_parse_args(args)->Success_0.proxy is None,
{
    if scan(args, 0, initial_draft()) is Done {
        lemma_scan_keeps(args, 0, initial_draft());
    }
}

/// When the scan asks for a proxy and no token is `--proxy-addr` or
/// `--proxy-type`, a successful parse has a SOCKS5 proxy at `127.0.0.1`, port 9050.
pub proof fn lemma_default_proxy(args: Seq<Seq<char>>, d: DraftView)
    requires
        scanned_to(args, d),
        d.use_proxy,
        forall|j: int| 0 <= j < args.len() ==> args[j] != "--proxy-addr"@,
        forall|j: int| 0 <= j < args.len() ==> args[j] != "--proxy-type"@,
    ensures
        spec_parse_args(args) is Success ==> spec_parse_args(args)->Success_0.proxy == Some(
            ProxyInfoView {
                ptype: ProxyType::Socks5,
                host: "127.0.0.1"@,
                port: 9050,
                username: d.proxy_user,
                password: d.proxy_pass,
            },
        ),
{
    lemma_default_addr();
    lemma_scan_keeps(args, 0, initial_draft());
}

/// Where no token from `i` on is `--use-proxy` (or `--proxy-type`, or
/// `--proxy-addr`), scanning from `i` leaves that part of the draft as it was.
pub proof fn lemma_scan_keeps(args: Seq<Seq<char>>, i: int, d: DraftView)
    requires
        0 <= i,
        scan(args, i, d) is Done,
    ensures
        (forall|j: int| i <= j < args.len() ==> args[j] != "--use-proxy"@) ==> scan(
            args,
            i,
            d,
        )->Done_0.use_proxy == d.use_proxy,
        (forall|j: int| i <= j < args.len() ==> args[j] != "--proxy-type"@) ==> scan(
            args,
            i,
            d,
        )->Done_0.proxy_type == d.proxy_type,
        (forall|j: int| i <= j < args.len() ==> args[j] != "--proxy-addr"@) ==> scan(
            args,
            i,
            d,
        )->Done_0.proxy_addr == d.proxy_addr,
    decreases args.len() - i,
{
    if i < args.len() {
        let next = if i + 1 < args.len() { Some(args[i + 1]) } else { None };
        match step(args[i], next, d) {
            StepView::Flag(d2) => {
                lemma_scan_keeps(args, i + 1, d2);
            },
            StepView::FlagValue(d2) => {
                lemma_scan_keeps(args, i + 2, d2);
            },
            _ => {},
        }
    }
}

/// The `--proxy-type` value that names a proxy type.
pub open spec fn proxy_type_text(k: ProxyType) -> Seq<char> {
    match k {
        ProxyType::Http => "HTTP"@,
        ProxyType::Socks4 => "SOCKS4"@,
        ProxyType::Socks5 => "SOCKS5"@,
    }
}

proof fn lemma_type_name(k: ProxyType)
    ensures
        crate::parse::proxy_type_of(proxy_type_text(k)) == Some(k),
{
    reveal_strlit("HTTP");
    reveal_strlit("SOCKS4");
    reveal_strlit("SOCKS5");
    let n = proxy_type_text(k);
    assert(crate::text::upper_chars(n) =~= n);
    assert("SOCKS4"@ != "SOCKS5"@) by {
        assert("SOCKS4"@[5] != "SOCKS5"@[5]);
    }
}

/// The tokens that ask for exactly the configuration `c`.
pub open spec fn tokens_of(c: ConfigView) -> Seq<Seq<char>> {
    seq!["--server"@, c.server_url, "--state-file"@, c.state_file_path] + (if c.debug {
        seq!["--debug"@]
    } else {
        Seq::empty()
    }) + match c.proxy {
        None => Seq::empty(),
        Some(p) => seq![
            "--use-proxy"@,
            "--proxy-type"@,
            proxy_type_text(p.ptype),
            "--proxy-addr"@,
            crate::proxy_addr::addr_text(p.host, p.port),
        ] + match p.username {
            Some(u) => seq!["--proxy-user"@, u],
            None => Seq::empty(),
        } + match p.password {
            Some(w) => seq!["--proxy-pass"@, w],
            None => Seq::empty(),
        },
    }
}

/// The draft that the tokens of `c` scan to.
pub open spec fn draft_of(c: ConfigView) -> DraftView {
    DraftView {
        server_url: Some(c.server_url),
        state_file_path: Some(c.state_file_path),
        use_proxy: c.proxy is Some,
        proxy_type: match c.proxy {
            Some(p) => p.ptype,
            None => ProxyType::Socks5,
        },
        proxy_addr: match c.proxy {
            Some(p) => Some(crate::proxy_addr::addr_text(p.host, p.port)),
            None => None,
        },
        proxy_user: match c.proxy {
            Some(p) => p.username,
            None => None,
        },
        proxy_pass: match c.proxy {
            Some(p) => p.password,
            None => None,
        },
        debug: c.debug,
    }
}

proof fn lemma_scan_tokens_of(c: ConfigView)
    ensures
        scan(tokens_of(c), 0, initial_draft()) == ScanView::Done(draft_of(c)),
{
    lemma_flag_literals();
    reveal_with_fuel(scan, 4);
    let a = seq!["--server"@, c.server_url, "--state-file"@, c.state_file_path];
    let b: Seq<Seq<char>> = if c.debug {
        seq!["--debug"@]
    } else {
        Seq::empty()
    };
    let d1 = DraftView {
        server_url: Some(c.server_url),
        state_file_path: Some(c.state_file_path),
        ..initial_draft()
    };
    let d2 = DraftView { debug: c.debug, ..d1 };
    assert(scan(a, 0, initial_draft()) == ScanView::Done(d1));
    assert(scan(b, 0, d1) == ScanView::Done(d2));
    lemma_scan_append(a, b, 0, initial_draft());
    match c.proxy {
        None => {
            assert(tokens_of(c) =~= a + b + Seq::<Seq<char>>::empty());
            assert(a + b + Seq::<Seq<char>>::empty() =~= a + b);
        },
        Some(p) => {
            lemma_type_name(p.ptype);
            let addr = crate::proxy_addr::addr_text(p.host, p.port);
            let e = seq!["--use-proxy"@, "--proxy-type"@, proxy_type_text(p.ptype), "--proxy-addr"@, addr];
            let f: Seq<Seq<char>> = match p.username {
                Some(u) => seq!["--proxy-user"@, u],
                None => Seq::empty(),
            };
            let g: Seq<Seq<char>> = match p.password {
                Some(w) => seq!["--proxy-pass"@, w],
                None => Seq::empty(),
            };
            let d3 = DraftView {
                use_proxy: true,
                proxy_type: p.ptype,
                proxy_addr: Some(addr),
                ..d2
            };
            let d4 = DraftView { proxy_user: p.username, ..d3 };
            let d5 = DraftView { proxy_pass: p.password, ..d4 };
            assert(scan(e, 3, DraftView { use_proxy: true, proxy_type: p.ptype, ..d2 })
                == ScanView::Done(d3));
            assert(scan(e, 1, DraftView { use_proxy: true, ..d2 }) == ScanView::Done(d3));
            assert(scan(e, 0, d2) == ScanView::Done(d3));
            assert(scan(f, 0, d3) == ScanView::Done(d4));
            assert(scan(g, 0, d4) == ScanView::Done(d5));
            lemma_scan_append(a + b, e, 0, initial_draft());
            lemma_scan_append(a + b + e, f, 0, initial_draft());
            lemma_scan_append(a + b + e + f, g, 0, initial_draft());
            assert(tokens_of(c) =~= a + b + (e + f + g));
            assert(a + b + (e + f + g) =~= a + b + e + f + g);
            assert(d5 == draft_of(c));
        },
    }
}

/// Parsing the tokens that ask for a parsed configuration gives that
/// configuration again.
pub proof fn lemma_parse_idempotent(args: Seq<Seq<char>>)
    requires
        spec_parse_args(args) is Success,
    ensures
        spec_parse_args(tokens_of(spec_parse_args(args)->Success_0)) == spec_parse_args(args),
{
    let c = spec_parse_args(args)->Success_0;
    let d = scan(args, 0, initial_draft())->Done_0;
    lemma_scan_tokens_of(c);
    crate::server_url::lemma_clean_idempotent(d.server_url->0);
    if d.use_proxy {
        crate::proxy_addr::lemma_addr_round_trip(crate::parse::draft_proxy_addr(d));
    }
}

} // verus!
