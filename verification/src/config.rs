//! Backend configuration, from the settings the environment provides.

use vstd::prelude::*;
use crate::text::{
    IntErrorKind, join3, owned, parse_u64, split_on, split_text, strip_trailing, trim,
    trim_end_char, trim_white, u64_from_text,
};

verus! {

/// Configuration for the backend.
pub struct Config {
    /// Address the HTTP server binds to.
    pub bind_addr: String,
    /// Base URL of the Prometheus server, e.g. `http://prometheus:9090`.
    pub prometheus_url: String,
    /// Per-request timeout for Prometheus queries, in seconds.
    pub query_timeout_secs: u64,
    /// Per-request timeout when probing Prometheus reachability, in seconds.
    pub ping_timeout_secs: u64,
    /// CORS origins allowed for the frontend. Empty disables CORS.
    pub cors_origins: Vec<String>,
}

/// A setting that does not hold an unsigned integer.
pub struct ConfigError {
    pub key: String,
    pub kind: IntErrorKind,
}

/// How `std::num::ParseIntError` describes each kind.
pub open spec fn int_error_text(kind: IntErrorKind) -> Seq<char> {
    match kind {
        IntErrorKind::Empty => "cannot parse integer from empty string"@,
        IntErrorKind::InvalidDigit => "invalid digit found in string"@,
        IntErrorKind::PosOverflow => "number too large to fit in target type"@,
        IntErrorKind::NegOverflow => "number too small to fit in target type"@,
    }
}

/// A URL without surrounding whitespace and without trailing `/`.
pub open spec fn normalized_url(url: Seq<char>) -> Seq<char> {
    strip_trailing(trim_white(url), '/')
}

/// The origins in a comma-separated list: each trimmed, empty ones dropped.
pub open spec fn origin_list(v: Seq<char>) -> Seq<Seq<char>> {
    split_on(v, ',').map_values(|p: Seq<char>| trim_white(p)).filter(|p: Seq<char>| p.len() > 0)
}

/// A timeout setting: its default when unset, otherwise its value as an
/// unsigned integer.
pub open spec fn secs_setting(value: Option<Seq<char>>, default: u64) -> Result<u64, IntErrorKind> {
    match value {
        None => Ok(default),
        Some(v) => u64_from_text(v),
    }
}

pub open spec fn text_of(v: Option<String>) -> Option<Seq<char>> {
    match v {
        Some(s) => Some(s@),
        None => None,
    }
}

proof fn lemma_strip_trailing_ends(s: Seq<char>, c: char)
    ensures
        strip_trailing(s, c).len() == 0 || strip_trailing(s, c).last() != c,
    decreases s.len(),
{
    if s.len() > 0 && s.last() == c {
        lemma_strip_trailing_ends(s.drop_last(), c);
    }
}

impl ConfigError {
    /// `{key}: invalid unsigned integer: {reason}`.
    pub fn message(&self) -> (s: String)
        ensures
            s@ == self.key@ + ": invalid unsigned integer: "@ + int_error_text(self.kind),
    {
        let reason = match self.kind {
            IntErrorKind::Empty => "cannot parse integer from empty string",
            IntErrorKind::InvalidDigit => "invalid digit found in string",
            IntErrorKind::PosOverflow => "number too large to fit in target type",
            IntErrorKind::NegOverflow => "number too small to fit in target type",
        };
        join3(self.key.as_str(), ": invalid unsigned integer: ", reason)
    }
}

/// Strips surrounding whitespace and trailing slashes so joined paths stay
/// well-formed.
pub fn normalize(url: &str) -> (r: String)
    ensures
        r@ == normalized_url(url@),
        r@.len() == 0 || r@.last() != '/',
{
    let trimmed = trim(url);
    proof {
        lemma_strip_trailing_ends(trim_white(url@), '/');
    }
    trim_end_char(trimmed.as_str(), '/')
}

/// The origins listed in a comma-separated setting.
pub fn parse_cors_origins(v: &str) -> (r: Vec<String>)
    ensures
        r@.map_values(|s: String| s@) == origin_list(v@),
{
    let pieces = split_text(v, ',');
    let ghost m = split_on(v@, ',').map_values(|p: Seq<char>| trim_white(p));
    let ghost keep = |p: Seq<char>| p.len() > 0;
    let n = pieces.len();
    let mut out: Vec<String> = Vec::new();
    let mut i: usize = 0;
    proof {
        reveal(Seq::filter);
        assert(m.take(0).filter(keep) =~= Seq::<Seq<char>>::empty());
        assert(out@.map_values(|s: String| s@) =~= Seq::<Seq<char>>::empty());
    }
    while i < n
        invariant
            n == pieces@.len(),
            i <= n,
            pieces@.map_values(|p: String| p@) == split_on(v@, ','),
            m == split_on(v@, ',').map_values(|p: Seq<char>| trim_white(p)),
            keep == (|p: Seq<char>| p.len() > 0),
            out@.map_values(|s: String| s@) == m.take(i as int).filter(keep),
        decreases n - i,
    {
        let t = trim(pieces[i].as_str());
        proof {
            reveal(Seq::filter);
            assert(m.take(i + 1).drop_last() =~= m.take(i as int));
            assert(pieces@[i as int]@ == split_on(v@, ',')[i as int]);
            assert(m.take(i + 1).last() == t@);
        }
        let ghost before = out@;
        if !t.as_str().is_empty() {
            out.push(t);
            assert(out@.map_values(|s: String| s@) =~= before.map_values(|s: String| s@).push(
                m[i as int],
            ));
        }
        i = i + 1;
    }
    proof {
        assert(m.len() == n);
        assert(m.take(n as int) =~= m);
    }
    out
}

/// A timeout in seconds: `default` when unset, else the setting read as an
/// unsigned integer.
pub fn parse_secs(key: &str, value: Option<String>, default: u64) -> (r: Result<u64, ConfigError>)
    ensures
        match secs_setting(text_of(value), default) {
            Ok(n) => r == Ok::<u64, ConfigError>(n),
            Err(k) => r matches Err(e) && e.key@ == key@ && e.kind == k,
        },
{
    match value {
        None => Ok(default),
        Some(v) => match parse_u64(v.as_str()) {
            Ok(n) => Ok(n),
            Err(kind) => Err(ConfigError { key: owned(key), kind }),
        },
    }
}

impl Config {
    /// Builds the configuration from the settings that are present, with
    /// development-friendly defaults; fails on a timeout that is not an
    /// unsigned integer (the query timeout is read first).
    pub fn from_settings(
        bind_addr: Option<String>,
        prometheus_url: Option<String>,
        query_timeout: Option<String>,
        ping_timeout: Option<String>,
        cors_origins: Option<String>,
    ) -> (r: Result<Config, ConfigError>)
        ensures
            match secs_setting(text_of(query_timeout), 10) {
                Err(k) => r matches Err(e) && e.key@ == "PROMETHEUS_QUERY_TIMEOUT_SECS"@ && e.kind
                    == k,
                Ok(q) => match secs_setting(text_of(ping_timeout), 3) {
                    Err(k) => r matches Err(e) && e.key@ == "PROMETHEUS_PING_TIMEOUT_SECS"@
                        && e.kind == k,
                    Ok(p) => r matches Ok(c) && {
                        &&& c.bind_addr@ == (match text_of(bind_addr) {
                            Some(b) => b,
                            None => "0.0.0.0:8080"@,
                        })
                        &&& c.prometheus_url@ == normalized_url(
                            match text_of(prometheus_url) {
                                Some(u) => u,
                                None => "http://localhost:9090"@,
                            },
                        )
                        &&& c.query_timeout_secs == q
                        &&& c.ping_timeout_secs == p
                        &&& c.cors_origins@.map_values(|s: String| s@) == (match text_of(
                            cors_origins,
                        ) {
                            Some(v) => origin_list(v),
                            None => Seq::empty(),
                        })
                    },
                },
            },
    {
        let bind_addr = match bind_addr {
            Some(b) => b,
            None => owned("0.0.0.0:8080"),
        };
        let url = match prometheus_url {
            Some(u) => u,
            None => owned("http://localhost:9090"),
        };
        let prometheus_url = normalize(url.as_str());
        let query_timeout_secs = match parse_secs("PROMETHEUS_QUERY_TIMEOUT_SECS", query_timeout, 10) {
            Ok(n) => n,
            Err(e) => return Err(e),
        };
        let ping_timeout_secs = match parse_secs("PROMETHEUS_PING_TIMEOUT_SECS", ping_timeout, 3) {
            Ok(n) => n,
            Err(e) => return Err(e),
        };
        let cors_origins = match cors_origins {
            Some(v) => parse_cors_origins(v.as_str()),
            None => {
                let r: Vec<String> = Vec::new();
                assert(r@.map_values(|s: String| s@) =~= Seq::<Seq<char>>::empty());
                r
            },
        };
        Ok(Config { bind_addr, prometheus_url, query_timeout_secs, ping_timeout_secs, cors_origins })
    }
}

} // verus!
