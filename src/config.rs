use vstd::prelude::*;

use crate::message::{push_char, same_text};

verus! {

/// The process settings: where to listen, and how much to log.
#[derive(Clone, Debug, PartialEq, Eq)]
pub struct Settings {
    pub server: ServerSettings,
    pub log: LogSettings,
}

/// The address the server binds and clients connect to.
#[derive(Clone, Debug, PartialEq, Eq)]
pub struct ServerSettings {
    pub host: String,
    pub port: u16,
}

/// The name of the least severe level that is logged.
#[derive(Clone, Debug, PartialEq, Eq)]
pub struct LogSettings {
    pub level: String,
}

/// How much is logged, from least to most.
#[derive(Clone, Copy, Debug, PartialEq, Eq, Structural)]
pub enum LogLevel {
    Error,
    Warn,
    Info,
    Debug,
    Trace,
}

/// The level a name stands for; an unknown name means `Info`.
pub open spec fn level_of(name: Seq<char>) -> LogLevel {
    if name == seq!['e', 'r', 'r', 'o', 'r'] {
        LogLevel::Error
    } else if name == seq!['w', 'a', 'r', 'n'] {
        LogLevel::Warn
    } else if name == seq!['d', 'e', 'b', 'u', 'g'] {
        LogLevel::Debug
    } else if name == seq!['t', 'r', 'a', 'c', 'e'] {
        LogLevel::Trace
    } else {
        LogLevel::Info
    }
}

/// Reads a level name: `error`, `warn`, `info`, `debug` or `trace`.
/// Anything else reads as `Info`.
pub fn string_to_log_level(level: &str) -> (r: LogLevel)
    ensures
        r == level_of(level@),
{
    proof {
        reveal_strlit("error");
        reveal_strlit("warn");
        reveal_strlit("debug");
        reveal_strlit("trace");
        assert("error"@ =~= seq!['e', 'r', 'r', 'o', 'r']);
        assert("warn"@ =~= seq!['w', 'a', 'r', 'n']);
        assert("debug"@ =~= seq!['d', 'e', 'b', 'u', 'g']);
        assert("trace"@ =~= seq!['t', 'r', 'a', 'c', 'e']);
    }
    if same_text(level, "error") {
        LogLevel::Error
    } else if same_text(level, "warn") {
        LogLevel::Warn
    } else if same_text(level, "debug") {
        LogLevel::Debug
    } else if same_text(level, "trace") {
        LogLevel::Trace
    } else {
        LogLevel::Info
    }
}

/// The decimal digits of `n`, without leading zeros.
pub open spec fn decimal(n: nat) -> Seq<char>
    decreases n,
{
    if n < 10 {
        seq![(n + 48) as char]
    } else {
        decimal(n / 10).push(((n % 10) + 48) as char)
    }
}

fn push_decimal(out: &mut String, n: u16)
    ensures
        final(out)@ == old(out)@ + decimal(n as nat),
    decreases n,
{
    if n >= 10 {
        push_decimal(out, n / 10);
    }
    let d = ((n % 10) as u8 + 48) as char;
    push_char(out, d);
    proof {
        if n < 10 {
            assert(old(out)@ + decimal(n as nat) =~= old(out)@.push(d));
        } else {
            assert(old(out)@ + decimal(n as nat) =~= (old(out)@ + decimal((n / 10) as nat)).push(d));
        }
    }
}

/// `host:port`, the port in decimal.
pub open spec fn address_text(host: Seq<char>, port: u16) -> Seq<char> {
    host + seq![':'] + decimal(port as nat)
}

impl ServerSettings {
    pub fn new(host: String, port: u16) -> (r: ServerSettings)
        ensures
            r.host@ == host@,
            r.port == port,
    {
        ServerSettings { host, port }
    }

    /// The address to listen on: `host:port`.
    pub fn address(&self) -> (r: String)
        ensures
            r@ == address_text(self.host@, self.port),
    {
        let mut r = self.host.clone();
        push_char(&mut r, ':');
        push_decimal(&mut r, self.port);
        assert(r@ =~= address_text(self.host@, self.port));
        r
    }

    /// The URL a client connects to: `ws://host:port`.
    pub fn url(&self) -> (r: String)
        ensures
            r@ == seq!['w', 's', ':', '/', '/'] + address_text(self.host@, self.port),
    {
        let mut r = String::new();
        r.append("ws://");
        let a = self.address();
        r.append(a.as_str());
        proof {
            reveal_strlit("ws://");
            assert(r@ =~= seq!['w', 's', ':', '/', '/'] + address_text(self.host@, self.port));
        }
        r
    }
}

} // verus!
