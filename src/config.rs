//! The page server's configuration: string parameters from the command line
//! or the configuration file, and the settings they resolve to.
use vstd::prelude::*;
use crate::text::{all_dec, dec_value, parse_dec_u64};

verus! {

pub const DEFAULT_GC_HORIZON: u64 = 64 * 1024 * 1024;

pub const DEFAULT_GC_PERIOD_SECS: u64 = 100;

/// Settings of a running page server; immutable after startup.
#[derive(Clone, Debug)]
pub struct PageServerConf {
    pub daemonize: bool,
    pub listen_addr: String,
    pub http_endpoint_addr: String,
    pub gc_horizon: u64,
    /// The GC period as whole seconds and the nanoseconds beyond them.
    pub gc_period_secs: u64,
    pub gc_period_nanos: u32,
    pub superuser: String,
    pub workdir: String,
    pub pg_distrib_dir: String,
}

/// String parameters that the command line or the configuration file give.
#[derive(Clone, Debug)]
pub struct CfgFileParams {
    pub listen_addr: Option<String>,
    pub http_endpoint_addr: Option<String>,
    pub gc_horizon: Option<String>,
    pub gc_period: Option<String>,
    pub pg_distrib_dir: Option<String>,
}

pub open spec fn opt_view(o: Option<String>) -> Option<Seq<char>> {
    match o {
        Some(s) => Some(s@),
        None => None,
    }
}

pub open spec fn first_of(a: Option<Seq<char>>, b: Option<Seq<char>>) -> Option<Seq<char>> {
    match a {
        Some(x) => Some(x),
        None => b,
    }
}

fn either(a: Option<String>, b: Option<String>) -> (r: Option<String>)
    ensures
        opt_view(r) == first_of(opt_view(a), opt_view(b)),
{
    match a {
        Some(x) => Some(x),
        None => b,
    }
}

/// Why the parameters do not make a configuration.
#[derive(Clone, Copy, Debug, PartialEq, Eq, Structural)]
pub enum ConfigError {
    /// `gc_horizon` is not a decimal `u64`.
    BadGcHorizon,
    /// `gc_period` is not a duration, or holds more than
    /// `MAX_PERIOD_DIGITS` digits.
    BadGcPeriod,
}

/// A duration as humantime reads it: seconds and the nanoseconds beyond.
pub uninterp spec fn humantime_duration(s: Seq<char>) -> Option<(u64, u32)>;

/// How many ASCII digits a byte string holds. In UTF-8 a digit byte only
/// ever stands for a digit character, so this counts the text's digits.
pub open spec fn digit_count(b: Seq<u8>) -> nat
    decreases b.len(),
{
    if b.len() == 0 {
        0
    } else {
        digit_count(b.drop_last()) + if 48 <= b.last() <= 57 {
            1nat
        } else {
            0nat
        }
    }
}

/// The most digits a GC period may hold. With at most this many, every
/// span of the text, a year's worth of seconds included, sums to well below
/// `u64::MAX` seconds, where humantime's final `Duration::new` would panic.
pub const MAX_PERIOD_DIGITS: usize = 11;

/// Relies on humantime::parse_duration: the result depends on the text
/// alone, and `"0"` is the zero duration. It panics only where the seconds
/// sum to `u64::MAX` with a carry of nanoseconds still to add, which the
/// bound on digits leaves out.
#[verifier::external_body]
fn parse_duration(s: &str) -> (r: Option<(u64, u32)>)
    requires
        digit_count(vstd::utf8::encode_utf8(s@)) <= MAX_PERIOD_DIGITS,
    ensures
        r == humantime_duration(s@),
        s@ == seq!['0'] ==> r == Some((0u64, 0u32)),
{
    match humantime::parse_duration(s) {
        Ok(d) => Some((d.as_secs(), d.subsec_nanos())),
        Err(_) => None,
    }
}

/// The GC horizon that a parameter gives: decimal digits of a `u64`,
/// optionally after a `+`.
pub open spec fn horizon_of(s: Seq<char>) -> Option<u64> {
    horizon_of_bytes(vstd::utf8::encode_utf8(s))
}

/// A GC period is read only where it holds few enough digits.
pub open spec fn period_of(s: Seq<char>) -> Option<(u64, u32)> {
    if digit_count(vstd::utf8::encode_utf8(s)) <= MAX_PERIOD_DIGITS {
        humantime_duration(s)
    } else {
        None
    }
}

fn count_digits(b: &[u8]) -> (r: usize)
    ensures
        r as nat == digit_count(b@),
{
    let mut n: usize = 0;
    let mut i: usize = 0;
    while i < b.len()
        invariant
            i <= b@.len(),
            n <= i,
            n as nat == digit_count(b@.subrange(0, i as int)),
        decreases b@.len() - i,
    {
        let ghost next = b@.subrange(0, i + 1);
        assert(next.drop_last() =~= b@.subrange(0, i as int));
        if 48 <= b[i] && b[i] <= 57 {
            n += 1;
        }
        i += 1;
    }
    assert(b@.subrange(0, b@.len() as int) =~= b@);
    n
}

fn parse_horizon(b: &[u8]) -> (r: Option<u64>)
    ensures
        r == horizon_of_bytes(b@),
{
    if b.len() > 0 && b[0] == 43 {
        let rest = crate::text::copy_range(b, 1, b.len());
        parse_dec_u64(rest.as_slice())
    } else {
        parse_dec_u64(b)
    }
}

/// The GC horizon that the bytes of a parameter give.
pub open spec fn horizon_of_bytes(b: Seq<u8>) -> Option<u64> {
    let digits = if b.len() > 0 && b[0] == 43 {
        b.subrange(1, b.len() as int)
    } else {
        b
    };
    if digits.len() > 0 && all_dec(digits) && dec_value(digits) <= u64::MAX {
        Some(dec_value(digits) as u64)
    } else {
        None
    }
}

impl CfgFileParams {
    pub open spec fn views(self) -> Seq<Option<Seq<char>>> {
        seq![
            opt_view(self.listen_addr),
            opt_view(self.http_endpoint_addr),
            opt_view(self.gc_horizon),
            opt_view(self.gc_period),
            opt_view(self.pg_distrib_dir),
        ]
    }

    /// Fills the parameters missing in `self` with those of `other`.
    pub fn or(self, other: CfgFileParams) -> (r: CfgFileParams)
        ensures
            forall|i: int| 0 <= i < 5 ==> #[trigger] r.views()[i] == first_of(self.views()[i], other.views()[i]),
    {
        CfgFileParams {
            listen_addr: either(self.listen_addr, other.listen_addr),
            http_endpoint_addr: either(self.http_endpoint_addr, other.http_endpoint_addr),
            gc_horizon: either(self.gc_horizon, other.gc_horizon),
            gc_period: either(self.gc_period, other.gc_period),
            pg_distrib_dir: either(self.pg_distrib_dir, other.pg_distrib_dir),
        }
    }

    /// Resolves the parameters into settings; missing ones take their
    /// defaults, and `default_pg_distrib_dir` stands for the distribution
    /// directory when none is given.
    pub fn try_into_config(&self, default_pg_distrib_dir: String) -> (r: Result<PageServerConf, ConfigError>)
        ensures
            match self.gc_horizon {
                Some(h) => horizon_of(h@) is None ==> r == Err::<PageServerConf, ConfigError>(ConfigError::BadGcHorizon),
                None => true,
            },
            r matches Ok(c) ==> c.gc_horizon == match self.gc_horizon {
                Some(h) => horizon_of(h@)->Some_0,
                None => DEFAULT_GC_HORIZON,
            } && (c.gc_period_secs, c.gc_period_nanos) == match self.gc_period {
                Some(p) => period_of(p@)->Some_0,
                None => (DEFAULT_GC_PERIOD_SECS, 0u32),
            } && c.listen_addr@ == match self.listen_addr {
                Some(a) => a@,
                None => default_listen_addr(),
            } && c.http_endpoint_addr@ == match self.http_endpoint_addr {
                Some(a) => a@,
                None => default_http_endpoint_addr(),
            } && c.pg_distrib_dir@ == match self.pg_distrib_dir {
                Some(d) => d@,
                None => default_pg_distrib_dir@,
            } && !c.daemonize && c.superuser@ == "zenith_admin"@ && c.workdir@ == "."@,
            (self.gc_horizon matches Some(h) ==> horizon_of(h@) is Some) ==> (r is Err <==> (
                self.gc_period matches Some(p) && period_of(p@) is None)),
            r == Err::<PageServerConf, ConfigError>(ConfigError::BadGcPeriod) ==> (self.gc_period matches Some(p)
                && period_of(p@) is None),
    {
        let listen_addr = match &self.listen_addr {
            Some(a) => a.clone(),
            None => default_listen_addr_string(),
        };
        let http_endpoint_addr = match &self.http_endpoint_addr {
            Some(a) => a.clone(),
            None => default_http_endpoint_addr_string(),
        };
        let gc_horizon = match &self.gc_horizon {
            Some(h) => {
                let b = h.as_str().as_bytes();
                match parse_horizon(b) {
                    Some(v) => v,
                    None => return Err(ConfigError::BadGcHorizon),
                }
            },
            None => DEFAULT_GC_HORIZON,
        };
        let (gc_period_secs, gc_period_nanos) = match &self.gc_period {
            Some(p) => {
                if count_digits(p.as_str().as_bytes()) > MAX_PERIOD_DIGITS {
                    return Err(ConfigError::BadGcPeriod);
                }
                match parse_duration(p.as_str()) {
                    Some(d) => d,
                    None => return Err(ConfigError::BadGcPeriod),
                }
            },
            None => (DEFAULT_GC_PERIOD_SECS, 0u32),
        };
        let pg_distrib_dir = match &self.pg_distrib_dir {
            Some(d) => d.clone(),
            None => default_pg_distrib_dir,
        };
        proof {
            reveal_strlit("zenith_admin");
            reveal_strlit(".");
        }
        Ok(
            PageServerConf {
                daemonize: false,
                listen_addr,
                http_endpoint_addr,
                gc_horizon,
                gc_period_secs,
                gc_period_nanos,
                superuser: "zenith_admin".to_owned(),
                workdir: ".".to_owned(),
                pg_distrib_dir,
            },
        )
    }
}

pub open spec fn default_listen_addr() -> Seq<char> {
    "127.0.0.1:64000"@
}

pub open spec fn default_http_endpoint_addr() -> Seq<char> {
    "127.0.0.1:9898"@
}

fn default_listen_addr_string() -> (r: String)
    ensures
        r@ == default_listen_addr(),
{
    "127.0.0.1:64000".to_owned()
}

fn default_http_endpoint_addr_string() -> (r: String)
    ensures
        r@ == default_http_endpoint_addr(),
{
    "127.0.0.1:9898".to_owned()
}

} // verus!
