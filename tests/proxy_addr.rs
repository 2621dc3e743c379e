use coldwire_args::proxy_addr::parse_proxy_addr;

#[test]
fn plain_host_and_port() {
    assert_eq!(parse_proxy_addr("127.0.0.1:9050"), Ok(("127.0.0.1".to_string(), 9050)));
    assert_eq!(parse_proxy_addr("proxy.local:8080"), Ok(("proxy.local".to_string(), 8080)));
}

#[test]
fn bracketed_ipv6() {
    assert_eq!(parse_proxy_addr("[::1]:9050"), Ok(("::1".to_string(), 9050)));
    assert_eq!(parse_proxy_addr("[]:1"), Ok(("".to_string(), 1)));
}

#[test]
fn unbracketed_colons_split_at_last() {
    assert_eq!(parse_proxy_addr("::1:9050"), Ok(("::1".to_string(), 9050)));
}

#[test]
fn missing_closing_bracket() {
    assert_eq!(parse_proxy_addr("[::1:9050"), Err("missing closing ']' for IPv6".to_string()));
}

#[test]
fn missing_colon_after_bracket() {
    assert_eq!(parse_proxy_addr("[::1]9050"), Err("Missing ':' after IPv6 address".to_string()));
    assert_eq!(parse_proxy_addr("[::1]"), Err("Missing ':' after IPv6 address".to_string()));
}

#[test]
fn empty_port_after_bracket() {
    assert_eq!(parse_proxy_addr("[::1]:"), Err("Port is empty".to_string()));
}

#[test]
fn no_colon_fails() {
    assert_eq!(parse_proxy_addr("bad"), Err("Empty host or port".to_string()));
    assert_eq!(parse_proxy_addr(""), Err("Empty host or port".to_string()));
}

#[test]
fn empty_host_or_port_fails() {
    assert_eq!(parse_proxy_addr(":9050"), Err("Empty host or port".to_string()));
    assert_eq!(parse_proxy_addr("host:"), Err("Empty host or port".to_string()));
}

#[test]
fn bad_port_number_fails() {
    assert_eq!(parse_proxy_addr("host:70000"), Err("Port is not a valid number".to_string()));
    assert_eq!(parse_proxy_addr("host:x1"), Err("Port is not a valid number".to_string()));
    assert_eq!(parse_proxy_addr("[::1]:x"), Err("Port is not a valid number".to_string()));
}

#[test]
fn port_text_is_read_as_number() {
    assert_eq!(parse_proxy_addr("host:+0081"), Ok(("host".to_string(), 81)));
}
