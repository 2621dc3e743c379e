use coldwire_args::server_url::clean_server_url;

fn clean(s: &str) -> Result<String, String> {
    clean_server_url(s.to_string())
}

#[test]
fn bare_host_gets_https() {
    assert_eq!(clean("host.example.com"), Ok("https://host.example.com".to_string()));
}

#[test]
fn explicit_http_with_port_is_kept() {
    assert_eq!(
        clean("http://host.example.com:8080"),
        Ok("http://host.example.com:8080".to_string())
    );
}

#[test]
fn normalized_url_is_a_fixed_point() {
    let once = clean("Example.COM:0443/some/path?q=1").unwrap();
    assert_eq!(once, "https://Example.COM:443");
    assert_eq!(clean(&once), Ok(once.clone()));
}

#[test]
fn localhost_is_accepted() {
    assert_eq!(clean("localhost"), Ok("https://localhost".to_string()));
    assert_eq!(clean("http://localhost:3000"), Ok("http://localhost:3000".to_string()));
}

#[test]
fn host_without_dot_fails() {
    assert_eq!(
        clean("a-b"),
        Err("hostname must contain a dot unless 'localhost'".to_string())
    );
}

#[test]
fn url_over_512_chars_fails() {
    let long = format!("{}.com", "a".repeat(509));
    assert_eq!(long.chars().count(), 513);
    assert_eq!(clean(&long), Err("URL too long (max 512 chars)".to_string()));
    let bad = format!("ftp://{}", "!".repeat(507));
    assert_eq!(clean(&bad), Err("URL too long (max 512 chars)".to_string()));
}

#[test]
fn url_of_exactly_512_chars_is_checked_further() {
    let s = format!("{}.com", "a".repeat(508));
    assert_eq!(clean(&s), Err("hostname too long (max 255 chars)".to_string()));
}

#[test]
fn port_out_of_range_fails() {
    assert_eq!(
        clean("host.example.com:99999"),
        Err("port is not a valid number".to_string())
    );
    assert_eq!(
        clean("host.example.com:65536"),
        Err("port is not a valid number".to_string())
    );
    assert_eq!(clean("host.example.com:65535"), Ok("https://host.example.com:65535".to_string()));
}

#[test]
fn port_with_letters_fails() {
    assert_eq!(clean("host.example.com:8o"), Err("port is not a valid number".to_string()));
    assert_eq!(clean("host.example.com:-1"), Err("port is not a valid number".to_string()));
    assert_eq!(clean("host.example.com:+"), Err("port is not a valid number".to_string()));
}

#[test]
fn port_with_plus_or_zeros_is_rendered_as_number() {
    assert_eq!(clean("host.example.com:+80"), Ok("https://host.example.com:80".to_string()));
    assert_eq!(clean("host.example.com:00000"), Ok("https://host.example.com:0".to_string()));
}

#[test]
fn empty_port_fails() {
    assert_eq!(clean("host.example.com:"), Err("port is empty".to_string()));
}

#[test]
fn empty_host_fails() {
    assert_eq!(clean("https://:8080"), Err("hostname empty".to_string()));
    assert_eq!(clean(""), Err("hostname empty".to_string()));
    assert_eq!(clean("http:///path"), Err("hostname empty".to_string()));
}

#[test]
fn host_over_255_chars_fails() {
    let host = format!("{}.com", "a".repeat(252));
    assert_eq!(clean(&host), Err("hostname too long (max 255 chars)".to_string()));
    let ok = format!("{}.com", "a".repeat(251));
    assert_eq!(clean(&ok), Ok(format!("https://{}", ok)));
}

#[test]
fn invalid_host_characters_fail() {
    assert_eq!(
        clean("host_name.com"),
        Err("hostname contains invalid characters".to_string())
    );
    assert_eq!(clean("hóst.com"), Err("hostname contains invalid characters".to_string()));
}

#[test]
fn scheme_is_matched_in_any_case_but_must_be_lower() {
    assert_eq!(clean("HTTPS://host.example.com"), Err("unsupported scheme 'HTTPS'".to_string()));
    assert_eq!(clean("Http://host.example.com"), Err("unsupported scheme 'Http'".to_string()));
}

#[test]
fn other_scheme_gets_https_prefix() {
    assert_eq!(
        clean("ftp://host.example.com"),
        Err("hostname must contain a dot unless 'localhost'".to_string())
    );
}

#[test]
fn host_case_is_preserved_and_path_dropped() {
    assert_eq!(clean("https://Host.Example.com/a/b"), Ok("https://Host.Example.com".to_string()));
}

#[test]
fn host_split_at_last_colon() {
    assert_eq!(clean("a.b:c:80"), Err("hostname contains invalid characters".to_string()));
}
