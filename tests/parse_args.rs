use coldwire_args::config::{Config, ParseOutcome, ProxyInfo, ProxyType};
use coldwire_args::parse::{parse_args, usage};

fn parse(tokens: &[&str]) -> ParseOutcome {
    let args: Vec<String> = tokens.iter().map(|t| t.to_string()).collect();
    parse_args(&args)
}

fn config(tokens: &[&str]) -> Config {
    match parse(tokens) {
        ParseOutcome::Success(c) => c,
        other => panic!("expected a configuration, got {:?}", other),
    }
}

fn error(tokens: &[&str]) -> String {
    match parse(tokens) {
        ParseOutcome::Error(m) => m,
        other => panic!("expected an error, got {:?}", other),
    }
}

fn proxy_type_name(k: ProxyType) -> &'static str {
    match k {
        ProxyType::Http => "HTTP",
        ProxyType::Socks4 => "SOCKS4",
        ProxyType::Socks5 => "SOCKS5",
    }
}

fn tokens_for(c: &Config) -> Vec<String> {
    let mut t = vec![
        "--server".to_string(),
        c.server_url.clone(),
        "--state-file".to_string(),
        c.state_file_path.clone(),
    ];
    if c.debug {
        t.push("--debug".to_string());
    }
    if let Some(p) = &c.proxy {
        t.push("--use-proxy".to_string());
        t.push("--proxy-type".to_string());
        t.push(proxy_type_name(p.ptype).to_string());
        t.push("--proxy-addr".to_string());
        if !p.host.is_empty() && !p.host.starts_with('[') {
            t.push(format!("{}:{}", p.host, p.port));
        } else {
            t.push(format!("[{}]:{}", p.host, p.port));
        }
        if let Some(u) = &p.username {
            t.push("--proxy-user".to_string());
            t.push(u.clone());
        }
        if let Some(w) = &p.password {
            t.push("--proxy-pass".to_string());
            t.push(w.clone());
        }
    }
    t
}

#[test]
fn server_bare_host_becomes_https() {
    let c = config(&["--server", "host.example.com", "--state-file", "s.db"]);
    assert_eq!(c.server_url, "https://host.example.com");
    let c = config(&["--debug", "--state-file", "x", "--server", "host.example.com", "--use-proxy"]);
    assert_eq!(c.server_url, "https://host.example.com");
    assert!(c.debug);
}

#[test]
fn server_with_scheme_and_port_kept() {
    let c = config(&["--server", "http://host.example.com:8080", "--state-file", "s.db"]);
    assert_eq!(c.server_url, "http://host.example.com:8080");
}

#[test]
fn server_localhost_and_dotless() {
    let c = config(&["--server", "localhost", "--state-file", "s.db"]);
    assert_eq!(c.server_url, "https://localhost");
    assert_eq!(
        error(&["--server", "a-b", "--state-file", "s.db"]),
        "hostname must contain a dot unless 'localhost'"
    );
}

#[test]
fn server_too_long_wins_over_other_faults() {
    let long = format!("{}.com", "a".repeat(600));
    assert_eq!(
        error(&["--server", &long, "--use-proxy", "--proxy-addr", "bad"]),
        "URL too long (max 512 chars)"
    );
}

#[test]
fn server_port_out_of_range() {
    assert_eq!(
        error(&["--server", "host.example.com:99999", "--state-file", "s.db"]),
        "port is not a valid number"
    );
}

#[test]
fn proxy_ipv6_address() {
    let c = config(&[
        "--server", "host.example.com", "--state-file", "s.db", "--use-proxy", "--proxy-addr",
        "[::1]:9050",
    ]);
    let p = c.proxy.unwrap();
    assert_eq!(p.host, "::1");
    assert_eq!(p.port, 9050);
}

#[test]
fn proxy_address_without_colon() {
    assert_eq!(
        error(&["--server", "host.example.com", "--state-file", "s.db", "--use-proxy", "--proxy-addr", "bad"]),
        "Invalid proxy address 'bad': Empty host or port"
    );
}

#[test]
fn proxy_defaults() {
    let c = config(&["--server", "host.example.com", "--state-file", "s.db", "--use-proxy"]);
    assert_eq!(
        c.proxy,
        Some(ProxyInfo {
            ptype: ProxyType::Socks5,
            host: "127.0.0.1".to_string(),
            port: 9050,
            username: None,
            password: None,
        })
    );
}

#[test]
fn proxy_flags_inert_without_use_proxy() {
    let c = config(&[
        "--server", "host.example.com", "--state-file", "s.db", "--proxy-user", "alice",
        "--proxy-addr", "bad", "--proxy-type", "http",
    ]);
    assert_eq!(c.proxy, None);
}

#[test]
fn proxy_full_settings() {
    let c = config(&[
        "--use-proxy", "--proxy-type", "socks4", "--proxy-addr", "proxy.local:1080", "--proxy-user",
        "alice", "--proxy-pass", "SECRET-REDACTED", "--server", "https://srv.example.org", "--state-file",
        "/tmp/state",
    ]);
    assert_eq!(
        c,
        Config {
            server_url: "https://srv.example.org".to_string(),
            state_file_path: "/tmp/state".to_string(),
            proxy: Some(ProxyInfo {
                ptype: ProxyType::Socks4,
                host: "proxy.local".to_string(),
                port: 1080,
                username: Some("alice".to_string()),
                password: Some("SECRET-REDACTED".to_string()),
            }),
            debug: false,
        }
    );
}

#[test]
fn proxy_password_only() {
    let c = config(&[
        "--server", "host.example.com", "--state-file", "s", "--use-proxy", "--proxy-pass", "pw",
        "--proxy-type", "Http",
    ]);
    let p = c.proxy.unwrap();
    assert_eq!(p.ptype, ProxyType::Http);
    assert_eq!(p.username, None);
    assert_eq!(p.password, Some("pw".to_string()));
}

#[test]
fn invalid_proxy_type() {
    assert_eq!(
        error(&["--proxy-type", "socks6", "--server", "host.example.com"]),
        "Invalid proxy type: socks6 (allowed: HTTP, SOCKS4, SOCKS5)"
    );
}

#[test]
fn help_anywhere() {
    assert_eq!(parse(&["--help"]), ParseOutcome::Help);
    assert_eq!(parse(&["-h", "--bogus"]), ParseOutcome::Help);
    assert_eq!(parse(&["--server", "a-b", "--use-proxy", "--help"]), ParseOutcome::Help);
    assert_eq!(parse(&["--debug", "--proxy-addr", "bad", "-h", "--server"]), ParseOutcome::Help);
}

#[test]
fn help_as_a_value_or_after_unknown() {
    assert_eq!(
        error(&["--server", "--help", "--state-file", "s"]),
        "hostname must contain a dot unless 'localhost'"
    );
    assert_eq!(error(&["--bogus", "--help"]), "Unknown argument: --bogus");
}

#[test]
fn required_flags() {
    assert_eq!(error(&[]), "--server is required");
    assert_eq!(error(&["--state-file", "s.db"]), "--server is required");
    assert_eq!(error(&["--server", "host.example.com"]), "--state-file is required");
}

#[test]
fn server_checked_before_state_file() {
    assert_eq!(error(&["--server", "a-b"]), "hostname must contain a dot unless 'localhost'");
}

#[test]
fn flags_that_need_a_value() {
    assert_eq!(error(&["--server"]), "--server requires a value");
    assert_eq!(error(&["--state-file"]), "--state-file requires a file name / path");
    assert_eq!(error(&["--proxy-type"]), "--proxy-type requires a value");
    assert_eq!(error(&["--proxy-addr"]), "--proxy-addr requires a value");
    assert_eq!(error(&["--proxy-user"]), "--proxy-user requires a value");
    assert_eq!(error(&["--proxy-pass"]), "--proxy-pass requires a value");
}

#[test]
fn unknown_argument() {
    assert_eq!(
        error(&["--server", "host.example.com", "--verbose"]),
        "Unknown argument: --verbose"
    );
}

#[test]
fn last_flag_wins() {
    let c = config(&[
        "--server", "first.example.com", "--server", "second.example.com", "--state-file", "a",
        "--state-file", "b",
    ]);
    assert_eq!(c.server_url, "https://second.example.com");
    assert_eq!(c.state_file_path, "b");
}

#[test]
fn value_is_taken_verbatim() {
    let c = config(&["--server", "host.example.com", "--state-file", "--debug"]);
    assert_eq!(c.state_file_path, "--debug");
    assert!(!c.debug);
}

#[test]
fn reparse_of_own_tokens_is_same_config() {
    let inputs: Vec<Vec<&str>> = vec![
        vec!["--server", "Host.Example.com:0080/x", "--state-file", "s", "--debug"],
        vec![
            "--server", "http://localhost", "--state-file", "s", "--use-proxy", "--proxy-addr",
            "[::1]:+9050", "--proxy-user", "u",
        ],
        vec!["--server", "h.io", "--state-file", "", "--use-proxy", "--proxy-addr", "[]:7"],
        vec!["--server", "h.io", "--state-file", "p", "--use-proxy", "--proxy-addr", "a:]:5"],
        vec!["--server", "h.io", "--state-file", "p", "--use-proxy", "--proxy-addr", "[[x]:5"],
    ];
    for input in inputs {
        let c = config(&input);
        let again = parse_args(&tokens_for(&c));
        assert_eq!(again, ParseOutcome::Success(c));
    }
}

#[test]
fn usage_names_defaults() {
    let u = usage();
    assert!(u.starts_with("Usage:"));
    assert!(u.contains("(default: SOCKS5)"));
    assert!(u.contains("(default: 127.0.0.1:9050)"));
}
