//! The validated configuration that a successful parse yields, and the three
//! outcomes of a parse.

use vstd::prelude::*;

verus! {

/// The protocol spoken to an outbound proxy.
#[derive(Clone, Copy, Debug, PartialEq, Eq, Structural)]
pub enum ProxyType {
    Http,
    Socks4,
    Socks5,
}

/// An outbound proxy: protocol, host and port, and optional credentials.
#[derive(Clone, Debug, PartialEq, Eq)]
pub struct ProxyInfo {
    pub ptype: ProxyType,
    pub host: String,
    pub port: u16,
    pub username: Option<String>,
    pub password: Option<String>,
}

pub struct ProxyInfoView {
    pub ptype: ProxyType,
    pub host: Seq<char>,
    pub port: u16,
    pub username: Option<Seq<char>>,
    pub password: Option<Seq<char>>,
}

impl View for ProxyInfo {
    type V = ProxyInfoView;

    open spec fn view(&self) -> ProxyInfoView {
        ProxyInfoView {
            ptype: self.ptype,
            host: self.host@,
            port: self.port,
            username: self.username.deep_view(),
            password: self.password.deep_view(),
        }
    }
}

/// A fully validated configuration.
#[derive(Clone, Debug, PartialEq, Eq)]
pub struct Config {
    /// `http://host`, `https://host` or either with `:port`.
    pub server_url: String,
    pub state_file_path: String,
    /// Present exactly when a proxy was asked for.
    pub proxy: Option<ProxyInfo>,
    pub debug: bool,
}

pub struct ConfigView {
    pub server_url: Seq<char>,
    pub state_file_path: Seq<char>,
    pub proxy: Option<ProxyInfoView>,
    pub debug: bool,
}

impl View for Config {
    type V = ConfigView;

    open spec fn view(&self) -> ConfigView {
        ConfigView {
            server_url: self.server_url@,
            state_file_path: self.state_file_path@,
            proxy: match self.proxy {
                Some(p) => Some(p@),
                None => None,
            },
            debug: self.debug,
        }
    }
}

/// What a parse of the command line comes to: a configuration, a request for
/// the usage text, or a message that says what was wrong.
#[derive(Clone, Debug, PartialEq, Eq)]
pub enum ParseOutcome {
    Success(Config),
    Help,
    Error(String),
}

pub enum OutcomeView {
    Success(ConfigView),
    Help,
    Error(Seq<char>),
}

impl View for ParseOutcome {
    type V = OutcomeView;

    open spec fn view(&self) -> OutcomeView {
        match self {
            ParseOutcome::Success(c) => OutcomeView::Success(c@),
            ParseOutcome::Help => OutcomeView::Help,
            ParseOutcome::Error(m) => OutcomeView::Error(m@),
        }
    }
}

} // verus!
