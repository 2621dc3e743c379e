//! Normalization and validation of the server URL: a scheme is added when
//! missing, only `http` and `https` are allowed, the host is checked for its
//! shape and an optional port for its range; any path is dropped.

use vstd::prelude::*;
use crate::text::{
    append_chars, chars_of, decimal, find_first, find_last, find_occurrence, first_index,
    first_occurrence, last_index, lower_chars, push_decimal, result_view, same_chars,
    spec_parse_u16, starts_with_lower, string_of, sub_chars, joined, parse_u16,
};

verus! {

/// Whether `url`, read with ASCII letters in lower case, begins with
/// `http://` or `https://`.
pub open spec fn has_http_prefix(url: Seq<char>) -> bool {
    let l = lower_chars(url);
    ("http://"@.len() <= url.len() && l.take("http://"@.len() as int) == "http://"@) || (
    "https://"@.len() <= url.len() && l.take("https://"@.len() as int) == "https://"@)
}

/// `url` with `https://` put in front unless it already names the scheme.
pub open spec fn with_scheme(url: Seq<char>) -> Seq<char> {
    if has_http_prefix(url) {
        url
    } else {
        "https://"@ + url
    }
}

/// A character allowed in a host name other than `localhost`.
pub open spec fn is_host_char(c: char) -> bool {
    ('a' <= c && c <= 'z') || ('A' <= c && c <= 'Z') || ('0' <= c && c <= '9') || c == '.' || c
        == '-'
}

pub open spec fn all_host_chars(h: Seq<char>) -> bool {
    forall|i: int| 0 <= i < h.len() ==> #[trigger] is_host_char(h[i])
}

/// The scheme of `u`: what stands before its first `://`.
pub open spec fn scheme_of(u: Seq<char>) -> Seq<char> {
    u.take(first_occurrence(u, "://"@))
}

/// The network location of `u`: what follows its first `://`, up to the first `/`.
pub open spec fn netloc_of(u: Seq<char>) -> Seq<char> {
    let rest = u.skip(first_occurrence(u, "://"@) + "://"@.len());
    rest.take(first_index(rest, '/'))
}

/// The host part of a network location: all before its last `:`, or all of it.
pub open spec fn host_of(netloc: Seq<char>) -> Seq<char> {
    let li = last_index(netloc, ':');
    if li < 0 {
        netloc
    } else {
        netloc.take(li)
    }
}

/// The check of a host name, or the message for its first fault.
pub open spec fn host_check(host: Seq<char>) -> Option<Seq<char>> {
    if host.len() == 0 {
        Some("hostname empty"@)
    } else if host.len() > 255 {
        Some("hostname too long (max 255 chars)"@)
    } else if host == "localhost"@ {
        None
    } else if !all_host_chars(host) {
        Some("hostname contains invalid characters"@)
    } else if !host.contains('.') {
        Some("hostname must contain a dot unless 'localhost'"@)
    } else {
        None
    }
}

/// The normalized server URL for the raw value `url`, or the message for its
/// first fault. Lengths are counted in characters.
pub open spec fn spec_clean_server_url(url: Seq<char>) -> Result<Seq<char>, Seq<char>> {
    let u = with_scheme(url);
    let scheme = scheme_of(u);
    let netloc = netloc_of(u);
    let li = last_index(netloc, ':');
    let host = host_of(netloc);
    let port = netloc.skip(li + 1);
    if url.len() > 512 {
        Err("URL too long (max 512 chars)"@)
    } else if first_occurrence(u, "://"@) < 0 {
        Err("missing scheme"@)
    } else if scheme != "http"@ && scheme != "https"@ {
        Err("unsupported scheme '"@ + scheme + "'"@)
    } else if host_check(host) is Some {
        Err(host_check(host)->0)
    } else if li < 0 {
        Ok(scheme + "://"@ + host)
    } else if port.len() == 0 {
        Err("port is empty"@)
    } else if spec_parse_u16(port) is None {
        Err("port is not a valid number"@)
    } else {
        Ok(scheme + "://"@ + host + ":"@ + decimal(spec_parse_u16(port)->0 as nat))
    }
}

fn check_host(host: &[char]) -> (r: Option<String>)
    ensures
        match r {
            Some(m) => host_check(host@) == Some(m@),
            None => host_check(host@) is None,
        },
{
    if host.len() == 0 {
        return Some("hostname empty".to_owned());
    }
    if host.len() > 255 {
        return Some("hostname too long (max 255 chars)".to_owned());
    }
    let localhost = chars_of("localhost");
    if same_chars(host, localhost.as_slice()) {
        return None;
    }
    let mut i: usize = 0;
    while i < host.len()
        invariant
            i <= host.len(),
            0 < host@.len() <= 255,
            host@ != "localhost"@,
            forall|j: int| 0 <= j < i ==> #[trigger] is_host_char(host@[j]),
        decreases host.len() - i,
    {
        let c = host[i];
        if !(('a' <= c && c <= 'z') || ('A' <= c && c <= 'Z') || ('0' <= c && c <= '9') || c
            == '.' || c == '-') {
            assert(!is_host_char(host@[i as int]));
            assert(!all_host_chars(host@));
            return Some("hostname contains invalid characters".to_owned());
        }
        i = i + 1;
    }
    let dot = find_first(host, '.');
    if dot == host.len() {
        proof {
            crate::text::lemma_first_index_absent(host@, '.');
        }
        return Some("hostname must contain a dot unless 'localhost'".to_owned());
    }
    proof {
        crate::text::lemma_first_index_present(host@, '.');
    }
    None
}

/// Normalizes and validates a server URL: `https://` is put in front when
/// no `http://` or `https://` begins it (in any case), the scheme must then be
/// `http` or `https` exactly, the host must be `localhost` or a dotted name of
/// ASCII letters, digits, `.` and `-`, and a port, when given, must be a 16-bit
/// number. The result is `scheme://host` or `scheme://host:port`.
pub fn clean_server_url(url: String) -> (r: Result<String, String>)
    ensures
        result_view(r) == spec_clean_server_url(url@),
{
    let chars = chars_of(url.as_str());
    if chars.len() > 512 {
        return Err("URL too long (max 512 chars)".to_owned());
    }
    let http = chars_of("http://");
    let https = chars_of("https://");
    let u: Vec<char> = if starts_with_lower(chars.as_slice(), http.as_slice())
        || starts_with_lower(chars.as_slice(), https.as_slice()) {
        chars
    } else {
        let mut v = https;
        append_chars(&mut v, chars.as_slice());
        v
    };
    assert(u@ == with_scheme(url@));
    let sep = chars_of("://");
    let k = match find_occurrence(u.as_slice(), sep.as_slice()) {
        Some(k) => k,
        None => {
            return Err("missing scheme".to_owned());
        },
    };
    proof {
        crate::text::lemma_first_occurrence_fits(u@, sep@);
    }
    assert(k + sep@.len() <= u@.len());
    assert(sep.len() == sep@.len());
    let scheme = sub_chars(u.as_slice(), 0, k);
    assert(scheme@ =~= scheme_of(u@));
    let http_name = chars_of("http");
    let https_name = chars_of("https");
    if !same_chars(scheme.as_slice(), http_name.as_slice()) && !same_chars(
        scheme.as_slice(),
        https_name.as_slice(),
    ) {
        return Err(joined("unsupported scheme '", scheme.as_slice(), "'"));
    }
    assert(k + sep.len() <= u.len());
    let start: usize = k + sep.len();
    let rest = sub_chars(u.as_slice(), start, u.len());
    assert(rest@ =~= u@.skip(k + "://"@.len()));
    let slash = find_first(rest.as_slice(), '/');
    proof {
        crate::text::lemma_first_index_bound(rest@, '/');
    }
    let netloc = sub_chars(rest.as_slice(), 0, slash);
    assert(netloc@ =~= netloc_of(u@));
    let last = find_last(netloc.as_slice(), ':');
    let host = match last {
        Some(i) => sub_chars(netloc.as_slice(), 0, i),
        None => sub_chars(netloc.as_slice(), 0, netloc.len()),
    };
    assert(host@ =~= host_of(netloc@));
    match check_host(host.as_slice()) {
        Some(m) => {
            return Err(m);
        },
        None => {},
    }
    let mut out = scheme;
    append_chars(&mut out, sep.as_slice());
    append_chars(&mut out, host.as_slice());
    match last {
        None => {
            assert(netloc@.skip(0) =~= netloc@);
            Ok(string_of(&out))
        },
        Some(i) => {
            let port = sub_chars(netloc.as_slice(), i + 1, netloc.len());
            assert(port@ =~= netloc@.skip(i + 1));
            if port.len() == 0 {
                return Err("port is empty".to_owned());
            }
            match parse_u16(port.as_slice()) {
                None => Err("port is not a valid number".to_owned()),
                Some(p) => {
                    let colon = chars_of(":");
                    append_chars(&mut out, colon.as_slice());
                    push_decimal(&mut out, p);
                    Ok(string_of(&out))
                },
            }
        },
    }
}

pub open spec fn free_of(s: Seq<char>, c: char) -> bool {
    forall|i: int| 0 <= i < s.len() ==> s[i] != c
}

/// The validation of a URL that reads `scheme://host` followed by `tail`,
/// where the tail is empty or a colon with the port text.
pub proof fn lemma_clean_parts(
    url: Seq<char>,
    scheme: Seq<char>,
    host: Seq<char>,
    tail: Seq<char>,
)
    requires
        url.len() <= 512,
        scheme == "http"@ || scheme == "https"@,
        with_scheme(url) == scheme + "://"@ + host + tail,
        free_of(host, ':'),
        free_of(host, '/'),
        free_of(tail, '/'),
        tail.len() == 0 || (tail[0] == ':' && free_of(tail.skip(1), ':')),
    ensures
        spec_clean_server_url(url) == if host_check(host) is Some {
            Err(host_check(host)->0)
        } else if tail.len() == 0 {
            Ok(scheme + "://"@ + host)
        } else if tail.len() == 1 {
            Err("port is empty"@)
        } else if spec_parse_u16(tail.skip(1)) is None {
            Err("port is not a valid number"@)
        } else {
            Ok(scheme + "://"@ + host + ":"@ + decimal(spec_parse_u16(tail.skip(1))->0 as nat))
        },
{
    reveal_strlit("http");
    reveal_strlit("https");
    reveal_strlit("://");
    reveal_strlit(":");
    let u = with_scheme(url);
    let sep = "://"@;
    let k = scheme.len() as int;
    assert forall|j: int| 0 <= j < k implies !crate::text::occurs_at(u, sep, j) by {
        assert(u[j] == scheme[j]);
        if j + sep.len() <= u.len() {
            assert(u.subrange(j, j + sep.len())[0] != sep[0]);
        }
    }
    assert(u.subrange(k, k + sep.len()) =~= sep);
    crate::text::lemma_first_occurrence(u, sep, k);
    assert(scheme_of(u) =~= scheme);
    let rest = u.skip(k + sep.len());
    assert(rest =~= host + tail);
    assert forall|j: int| 0 <= j < rest.len() implies rest[j] != '/' by {
        if j >= host.len() {
            assert(rest[j] == tail[j - host.len()]);
        }
    }
    crate::text::lemma_first_index_bound(rest, '/');
    if first_index(rest, '/') < rest.len() {
        assert(rest[first_index(rest, '/')] == '/');
    }
    let netloc = netloc_of(u);
    assert(netloc =~= host + tail);
    if tail.len() == 0 {
        crate::text::lemma_last_index(netloc, ':', -1);
        assert(host_of(netloc) =~= host);
    } else {
        let h = host.len() as int;
        assert forall|j: int| h < j < netloc.len() implies netloc[j] != ':' by {
            assert(netloc[j] == tail.skip(1)[j - h - 1]);
        }
        crate::text::lemma_last_index(netloc, ':', h);
        assert(host_of(netloc) =~= host);
        assert(netloc.skip(h + 1) =~= tail.skip(1));
    }
}

/// A dotted host name of valid characters, or `localhost`.
pub open spec fn is_bare_host(h: Seq<char>) -> bool {
    0 < h.len() <= 255 && all_host_chars(h) && h.contains('.')
}

/// A text that begins with a dotted host name does not begin with a scheme.
pub proof fn lemma_no_http_prefix(u: Seq<char>, h: Seq<char>)
    requires
        is_bare_host(h),
        h.len() <= u.len(),
        u.take(h.len() as int) == h,
    ensures
        !has_http_prefix(u),
{
    reveal_strlit("http://");
    reveal_strlit("https://");
    let d = choose|d: int| 0 <= d < h.len() && h[d] == '.';
    assert(u[d] == h[d]);
    let l = lower_chars(u);
    if 7 <= u.len() && l.take(7) == "http://"@ {
        assert(l.take(7)[d] == "http://"@[d]) by {
            if d < 7 {
            }
        }
        if d >= 4 {
            assert(u[4] == h[4]);
            assert(is_host_char(h[4]));
            assert(l.take(7)[4] == "http://"@[4]);
        }
    }
    if 8 <= u.len() && l.take(8) == "https://"@ {
        if d >= 5 {
            assert(u[5] == h[5]);
            assert(is_host_char(h[5]));
            assert(l.take(8)[5] == "https://"@[5]);
        } else {
            assert(l.take(8)[d] == "https://"@[d]);
        }
    }
}

/// A host that passes the host check holds no `:` and no `/`.
pub proof fn lemma_checked_host_free(host: Seq<char>)
    requires
        host_check(host) is None,
    ensures
        free_of(host, ':'),
        free_of(host, '/'),
        0 < host.len() <= 255,
{
    reveal_strlit("localhost");
    if host != "localhost"@ {
        assert forall|i: int| 0 <= i < host.len() implies host[i] != ':' && host[i] != '/' by {
            assert(is_host_char(host[i]));
        }
    }
}

/// A bare dotted host name is accepted, with `https://` put in front.
pub proof fn lemma_bare_host_gets_https(h: Seq<char>)
    requires
        is_bare_host(h),
    ensures
        spec_clean_server_url(h) == Ok::<Seq<char>, Seq<char>>("https://"@ + h),
{
    reveal_strlit("https://");
    reveal_strlit("https");
    reveal_strlit("://");
    assert(h.take(h.len() as int) =~= h);
    lemma_no_http_prefix(h, h);
    assert("https://"@ + h =~= "https"@ + "://"@ + h + Seq::<char>::empty());
    assert forall|i: int| 0 <= i < h.len() implies h[i] != ':' && h[i] != '/' by {
        assert(is_host_char(h[i]));
    }
    lemma_clean_parts(h, "https"@, h, Seq::<char>::empty());
    assert("https"@ + "://"@ + h =~= "https://"@ + h);
}

/// A raw server value longer than 512 characters fails with the length
/// message, whatever else it holds.
pub proof fn lemma_too_long(url: Seq<char>)
    requires
        url.len() > 512,
    ensures
        spec_clean_server_url(url) == Err::<Seq<char>, Seq<char>>("URL too long (max 512 chars)"@),
{
}

/// A dotted host name followed by a colon and a number above 65535 fails with
/// the port message.
pub proof fn lemma_port_out_of_range(h: Seq<char>, p: Seq<char>)
    requires
        is_bare_host(h),
        p.len() > 0,
        crate::text::all_digits(p),
        crate::text::digits_value(p) > 65535,
        h.len() + 1 + p.len() <= 512,
    ensures
        spec_clean_server_url(h + ":"@ + p) == Err::<Seq<char>, Seq<char>>("port is not a valid number"@),
{
    reveal_strlit("https://");
    reveal_strlit("https");
    reveal_strlit("://");
    reveal_strlit(":");
    let url = h + ":"@ + p;
    assert(url.take(h.len() as int) =~= h);
    lemma_no_http_prefix(url, h);
    let tail = ":"@ + p;
    assert("https://"@ + url =~= "https"@ + "://"@ + h + tail);
    assert forall|i: int| 0 <= i < h.len() implies h[i] != ':' && h[i] != '/' by {
        assert(is_host_char(h[i]));
    }
    assert(tail.skip(1) =~= p);
    assert forall|i: int| 0 <= i < p.len() implies p[i] != ':' && p[i] != '/' by {
        assert(crate::text::is_digit(p[i]));
    }
    assert forall|i: int| 0 <= i < tail.len() implies tail[i] != '/' by {
        if i > 0 {
            assert(tail[i] == p[i - 1]);
        }
    }
    assert(crate::text::is_digit(p[0]));
    if h != "localhost"@ {
    }
    lemma_clean_parts(url, "https"@, h, tail);
}

/// A normalized server URL is left as it is by a second normalization.
pub proof fn lemma_clean_idempotent(url: Seq<char>)
    requires
        spec_clean_server_url(url) is Ok,
    ensures
        spec_clean_server_url(spec_clean_server_url(url)->Ok_0) == spec_clean_server_url(url),
{
    reveal_strlit("http");
    reveal_strlit("https");
    reveal_strlit("://");
    reveal_strlit(":");
    reveal_strlit("http://");
    reveal_strlit("https://");
    let w = with_scheme(url);
    let scheme = scheme_of(w);
    let netloc = netloc_of(w);
    let li = last_index(netloc, ':');
    let host = host_of(netloc);
    let u = spec_clean_server_url(url)->Ok_0;
    lemma_checked_host_free(host);
    let tail = if li < 0 {
        Seq::<char>::empty()
    } else {
        let n = spec_parse_u16(netloc.skip(li + 1))->0;
        crate::text::lemma_decimal_parses(n as nat);
        ":"@ + decimal(n as nat)
    };
    assert(u =~= scheme + "://"@ + host + tail);
    if li >= 0 {
        let n = spec_parse_u16(netloc.skip(li + 1))->0;
        let dn = decimal(n as nat);
        assert(tail.skip(1) =~= dn);
        assert forall|i: int| 0 <= i < tail.len() implies tail[i] != '/' by {
            if i > 0 {
                assert(tail[i] == dn[i - 1]);
                assert(crate::text::is_digit(dn[i - 1]));
            }
        }
        assert forall|i: int| 0 <= i < dn.len() implies dn[i] != ':' by {
            assert(crate::text::is_digit(dn[i]));
        }
    }
    let l = lower_chars(u);
    if scheme == "http"@ {
        assert(l.take(7) =~= "http://"@);
    } else {
        assert(l.take(8) =~= "https://"@);
    }
    assert(with_scheme(u) == u);
    lemma_clean_parts(u, scheme, host, tail);
}

} // verus!
