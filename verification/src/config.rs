//! Process-wide immutable configuration, constructed once at startup and
//! passed by reference into the components; no behavior re-reads
//! configuration mid-operation.
use vstd::prelude::*;
use vstd::string::StringExecFns;

verus! {

/// The monitoring service's configuration: broker connection URLs, queue
/// names, the HTTP listen address and storage limits, all supplied
/// externally at process start.
#[derive(Clone, Debug)]
pub struct AppConfig {
    pub database_url: String,
    pub sync_broker_url: String,
    pub data_broker_url: String,
    pub sync_queue: String,
    pub measurement_queue: String,
    pub http_host: String,
    pub http_port: u16,
    pub max_db_connections: u32,
}

/// The decimal digit characters of `n`, most significant first.
pub open spec fn dec_chars(n: nat) -> Seq<char>
    decreases n,
{
    if n < 10 {
        seq![digit_char(n)]
    } else {
        dec_chars(n / 10).push(digit_char(n % 10))
    }
}

pub open spec fn digit_char(d: nat) -> char {
    if d == 0 {
        '0'
    } else if d == 1 {
        '1'
    } else if d == 2 {
        '2'
    } else if d == 3 {
        '3'
    } else if d == 4 {
        '4'
    } else if d == 5 {
        '5'
    } else if d == 6 {
        '6'
    } else if d == 7 {
        '7'
    } else if d == 8 {
        '8'
    } else {
        '9'
    }
}

fn digit_str(d: u8) -> (r: &'static str)
    requires
        d < 10,
    ensures
        r@ == seq![digit_char(d as nat)],
{
    proof {
        reveal_strlit("0");
        reveal_strlit("1");
        reveal_strlit("2");
        reveal_strlit("3");
        reveal_strlit("4");
        reveal_strlit("5");
        reveal_strlit("6");
        reveal_strlit("7");
        reveal_strlit("8");
        reveal_strlit("9");
    }
    if d == 0 {
        "0"
    } else if d == 1 {
        "1"
    } else if d == 2 {
        "2"
    } else if d == 3 {
        "3"
    } else if d == 4 {
        "4"
    } else if d == 5 {
        "5"
    } else if d == 6 {
        "6"
    } else if d == 7 {
        "7"
    } else if d == 8 {
        "8"
    } else {
        "9"
    }
}

fn push_dec_u16(s: &mut String, n: u16)
    ensures
        final(s)@ == old(s)@ + dec_chars(n as nat),
    decreases n,
{
    if n < 10 {
        s.append(digit_str(n as u8));
    } else {
        push_dec_u16(s, n / 10);
        s.append(digit_str((n % 10) as u8));
    }
}

impl AppConfig {
    /// The `host:port` address the HTTP listener binds.
    pub fn http_addr(&self) -> (r: String)
        ensures
            r@ == self.http_host@ + seq![':'] + dec_chars(self.http_port as nat),
    {
        proof {
            reveal_strlit(":");
        }
        let mut r = String::from_str(self.http_host.as_str());
        r.append(":");
        assert(r@ == self.http_host@ + seq![':']);
        push_dec_u16(&mut r, self.http_port);
        r
    }
}

/// Token-signing configuration of the identity collaborator.
#[derive(Clone, Debug)]
pub struct JwtConfig {
    pub secret: String,
    pub issuer: String,
    pub audience: String,
    pub ttl_seconds: i64,
}

/// How often the synthetic-telemetry producer publishes a batch when its
/// configuration names no interval, in seconds.
pub fn default_interval_seconds() -> (r: u64)
    ensures
        r == 600,
{
    600
}

} // verus!
