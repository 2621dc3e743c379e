//! Parsing of a proxy address `host:port`. A host that holds colons (an IPv6
//! literal) must stand in brackets: `[::1]:9050`. Without brackets the address
//! is split at its last colon.

use vstd::prelude::*;
use crate::text::{
    chars_of, decimal, find_first, find_last, first_index, last_index, lemma_decimal_parses,
    lemma_first_index, lemma_first_index_bound, lemma_last_index, parse_u16, spec_parse_u16,
    string_of, sub_chars,
};

verus! {

/// The message for an address port that is not a 16-bit number, or the port.
pub open spec fn port_part(port: Seq<char>) -> Result<u16, Seq<char>> {
    match spec_parse_u16(port) {
        Some(p) => Ok(p),
        None => Err("Port is not a valid number"@),
    }
}

/// The host and port that the address `s` names, or the message for its first fault.
pub open spec fn spec_parse_proxy_addr(s: Seq<char>) -> Result<(Seq<char>, u16), Seq<char>> {
    if s.len() > 0 && s[0] == '[' {
        let close = first_index(s, ']');
        let rest = s.skip(close + 1);
        if close == s.len() {
            Err("missing closing ']' for IPv6"@)
        } else if !(rest.len() > 0 && rest[0] == ':') {
            Err("Missing ':' after IPv6 address"@)
        } else if rest.len() == 1 {
            Err("Port is empty"@)
        } else {
            match port_part(rest.skip(1)) {
                Ok(p) => Ok((s.subrange(1, close), p)),
                Err(m) => Err(m),
            }
        }
    } else {
        let li = last_index(s, ':');
        if li <= 0 || li == s.len() - 1 {
            Err("Empty host or port"@)
        } else {
            match port_part(s.skip(li + 1)) {
                Ok(p) => Ok((s.take(li), p)),
                Err(m) => Err(m),
            }
        }
    }
}

/// The view of a parsed proxy address.
pub open spec fn addr_view(r: Result<(String, u16), String>) -> Result<(Seq<char>, u16), Seq<char>> {
    match r {
        Ok((h, p)) => Ok((h@, p)),
        Err(e) => Err(e@),
    }
}

/// Parses `host:port` into its host and port. A host in brackets, `[::1]:9050`,
/// is taken from between them and may hold colons; otherwise the address is
/// split at its last colon, and host and port must both be non-empty. The port
/// is a 16-bit number.
pub fn parse_proxy_addr(s: &str) -> (r: Result<(String, u16), String>)
    ensures
        addr_view(r) == spec_parse_proxy_addr(s@),
{
    let c = chars_of(s);
    if c.len() > 0 && c[0] == '[' {
        let close = find_first(c.as_slice(), ']');
        proof {
            crate::text::lemma_first_index_bound(c@, ']');
        }
        if close == c.len() {
            return Err("missing closing ']' for IPv6".to_owned());
        }
        let rest = sub_chars(c.as_slice(), close + 1, c.len());
        assert(rest@ =~= s@.skip(close + 1));
        if !(rest.len() > 0 && rest[0] == ':') {
            return Err("Missing ':' after IPv6 address".to_owned());
        }
        if rest.len() == 1 {
            return Err("Port is empty".to_owned());
        }
        let port = sub_chars(rest.as_slice(), 1, rest.len());
        assert(port@ =~= rest@.skip(1));
        match parse_u16(port.as_slice()) {
            None => Err("Port is not a valid number".to_owned()),
            Some(p) => {
                let host = sub_chars(c.as_slice(), 1, close);
                Ok((string_of(&host), p))
            },
        }
    } else {
        let li = match find_last(c.as_slice(), ':') {
            Some(i) => i,
            None => {
                return Err("Empty host or port".to_owned());
            },
        };
        if li == 0 || li == c.len() - 1 {
            return Err("Empty host or port".to_owned());
        }
        let port = sub_chars(c.as_slice(), li + 1, c.len());
        assert(port@ =~= s@.skip(li + 1));
        match parse_u16(port.as_slice()) {
            None => Err("Port is not a valid number".to_owned()),
            Some(p) => {
                let host = sub_chars(c.as_slice(), 0, li);
                assert(host@ =~= s@.take(li as int));
                Ok((string_of(&host), p))
            },
        }
    }
}

/// The address text that names `host` and `port`: `host:port`, or
/// `[host]:port` where the host is empty or begins with `[`.
pub open spec fn addr_text(host: Seq<char>, port: u16) -> Seq<char> {
    if host.len() > 0 && host[0] != '[' {
        host + ":"@ + decimal(port as nat)
    } else {
        "["@ + host + "]:"@ + decimal(port as nat)
    }
}

/// An address without brackets and without a colon fails with the message
/// for an empty host or port.
pub proof fn lemma_no_colon(s: Seq<char>)
    requires
        s.len() == 0 || s[0] != '[',
        forall|i: int| 0 <= i < s.len() ==> s[i] != ':',
    ensures
        spec_parse_proxy_addr(s) == Err::<(Seq<char>, u16), Seq<char>>("Empty host or port"@),
{
    lemma_last_index(s, ':', -1);
}

/// Parsing the address text of a parsed address gives back the same host and port.
pub proof fn lemma_addr_round_trip(s: Seq<char>)
    requires
        spec_parse_proxy_addr(s) is Ok,
    ensures
        spec_parse_proxy_addr(
            addr_text(spec_parse_proxy_addr(s)->Ok_0.0, spec_parse_proxy_addr(s)->Ok_0.1),
        ) == spec_parse_proxy_addr(s),
{
    reveal_strlit(":");
    reveal_strlit("[");
    reveal_strlit("]:");
    let (host, port) = spec_parse_proxy_addr(s)->Ok_0;
    let dn = decimal(port as nat);
    lemma_decimal_parses(port as nat);
    assert(dn.len() > 0);
    assert(dn[0] != '+') by {
        assert(crate::text::is_digit(dn[0]));
    }
    assert forall|i: int| 0 <= i < dn.len() implies dn[i] != ':' by {
        assert(crate::text::is_digit(dn[i]));
    }
    assert(port_part(dn) == Ok::<u16, Seq<char>>(port));
    let t = addr_text(host, port);
    if host.len() > 0 && host[0] != '[' {
        assert(t =~= host + ":"@ + dn);
        let h = host.len() as int;
        assert forall|j: int| h < j < t.len() implies t[j] != ':' by {
            assert(t[j] == dn[j - h - 1]);
        }
        lemma_last_index(t, ':', h);
        assert(t.skip(h + 1) =~= dn);
        assert(t.take(h) =~= host);
        assert(t[0] == host[0]);
    } else {
        // Only the bracketed form yields an empty host or one that begins with `[`.
        assert(s.len() > 0 && s[0] == '[') by {
            if !(s.len() > 0 && s[0] == '[') {
                let li = last_index(s, ':');
                crate::text::lemma_last_index_bound(s, ':');
                assert(host =~= s.take(li));
                assert(host[0] == s[0]);
            }
        }
        let close = first_index(s, ']');
        lemma_first_index_bound(s, ']');
        assert(host =~= s.subrange(1, close));
        assert(t =~= "["@ + host + "]:"@ + dn);
        let c = host.len() + 1int;
        assert forall|j: int| 0 <= j < c implies t[j] != ']' by {
            if j > 0 {
                assert(t[j] == s[j]);
            }
        }
        lemma_first_index(t, ']', c);
        assert(t.skip(c + 1) =~= ":"@ + dn);
        assert(t.skip(c + 1).skip(1) =~= dn);
        assert(t.subrange(1, c) =~= host);
    }
}

/// The default proxy address names `127.0.0.1` and port 9050.
pub proof fn lemma_default_addr()
    ensures
        spec_parse_proxy_addr("127.0.0.1:9050"@) == Ok::<(Seq<char>, u16), Seq<char>>(
            ("127.0.0.1"@, 9050u16),
        ),
{
    reveal_strlit("127.0.0.1:9050");
    reveal_strlit("127.0.0.1");
    reveal_strlit(":");
    reveal_strlit("[");
    reveal_strlit("]:");
    reveal_with_fuel(decimal, 4);
    let s = "127.0.0.1:9050"@;
    let h = "127.0.0.1"@;
    assert(s =~= h + ":"@ + decimal(9050));
    lemma_decimal_parses(9050);
    let dn = decimal(9050);
    assert forall|j: int| 9 < j < s.len() implies s[j] != ':' by {
        assert(s[j] == dn[j - 10]);
        assert(crate::text::is_digit(dn[j - 10]));
    }
    lemma_last_index(s, ':', 9);
    assert(s.skip(10) =~= dn);
    assert(s.take(9) =~= h);
}

} // verus!
