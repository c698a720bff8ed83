//! Configuration consumed by the traffic core.
//!
//! The core does not read or parse files; it is handed these plain values.
//! Zero values for the load parameters are normalised to their defaults by
//! the accessors, so the rest of the library never sees a zero rate or a
//! zero window.

use vstd::prelude::*;
use vstd::string::StrSliceExecFns;
use vstd::string::StringExecFns;

verus! {

/// Default number of binds.
pub const DEFAULT_BINDS: usize = 1;

/// Default per-bind throughput ceiling, in submissions per second.
pub const DEFAULT_MAX_TPS: u32 = 100;

/// Default per-bind in-flight window.
pub const DEFAULT_INFLIGHT: usize = 64;

/// How a session authenticates: transmitter or transceiver.
#[derive(Clone, Copy, Debug, PartialEq, Eq, Structural)]
pub enum BindType {
    Tx,
    Trx,
}

/// The character for a single decimal digit.
pub open spec fn digit_char(d: nat) -> char {
    ((d + 48) as u8) as char
}

/// The decimal digit sequence of a number, most significant first.
pub open spec fn dec_digits(n: nat) -> Seq<char>
    decreases n,
{
    if n < 10 {
        seq![digit_char(n)]
    } else {
        dec_digits(n / 10).push(digit_char(n % 10))
    }
}

fn digit_str(d: u16) -> (r: &'static str)
    requires
        d < 10,
    ensures
        r@ =~= seq![digit_char(d as nat)],
{
    proof {
        reveal_strlit("0");
        reveal_strlit("1");
        reveal_strlit("2");
        reveal_strlit("3");
        reveal_strlit("4");
        reveal_strlit("5");
        reveal_strlit("6");
        reveal_strlit("7");
        reveal_strlit("8");
        reveal_strlit("9");
    }
    match d {
        0 => "0",
        1 => "1",
        2 => "2",
        3 => "3",
        4 => "4",
        5 => "5",
        6 => "6",
        7 => "7",
        8 => "8",
        _ => "9",
    }
}

/// Format a port number in decimal.
pub fn u16_to_string(n: u16) -> (s: String)
    ensures
        s@ == dec_digits(n as nat),
    decreases n,
{
    if n < 10 {
        digit_str(n).to_owned()
    } else {
        let mut s = u16_to_string(n / 10);
        s.append(digit_str(n % 10));
        proof {
            assert(s@ =~= dec_digits((n / 10) as nat).push(digit_char((n % 10) as nat)));
        }
        s
    }
}

/// The connection target and credentials for every session.
#[derive(Clone, Debug)]
pub struct SmppConfig {
    pub host: String,
    pub port: u16,
    pub system_id: String,
    pub system_type: Option<String>,
    pub password: String,
    pub bind_type: BindType,
}

/// What [`SmppConfig::connection_uri`] yields for a host and port.
pub open spec fn connection_uri_view(host: Seq<char>, port: u16) -> Seq<char> {
    "smpp://"@ + host + ":"@ + dec_digits(port as nat)
}

impl SmppConfig {
    /// The connection URI, `smpp://<host>:<port>`.
    pub fn connection_uri(&self) -> (r: String)
        ensures
            r@ == connection_uri_view(self.host@, self.port),
    {
        let mut s = "smpp://".to_owned();
        s.append(self.host.as_str());
        s.append(":");
        let port = u16_to_string(self.port);
        s.append(port.as_str());
        proof {
            assert(s@ =~= connection_uri_view(self.host@, self.port));
        }
        s
    }
}

/// The immutable message template settings.
#[derive(Clone, Debug)]
pub struct MessageConfig {
    pub source_addr: String,
    pub source_ton: u8,
    pub source_npi: u8,
    pub destination_addr: String,
    pub destination_ton: u8,
    pub destination_npi: u8,
    pub body: String,
    pub service_type: Option<String>,
    pub data_coding: u8,
    pub request_dlr: bool,
}

/// The load shape: how many binds, and each bind's rate and window.
#[derive(Clone, Copy, Debug, PartialEq, Eq, Structural)]
pub struct LoadConfig {
    pub binds: usize,
    pub max_tps_per_bind: u32,
    pub inflight_per_bind: usize,
}

impl LoadConfig {
    /// The configured rate ceiling, with zero normalised to the default.
    pub fn max_tps_per_bind(&self) -> (r: u32)
        ensures
            self.max_tps_per_bind == 0 ==> r == DEFAULT_MAX_TPS,
            self.max_tps_per_bind != 0 ==> r == self.max_tps_per_bind,
    {
        if self.max_tps_per_bind == 0 {
            DEFAULT_MAX_TPS
        } else {
            self.max_tps_per_bind
        }
    }

    /// The configured in-flight window, with zero normalised to the default.
    pub fn inflight_per_bind(&self) -> (r: usize)
        ensures
            self.inflight_per_bind == 0 ==> r == DEFAULT_INFLIGHT,
            self.inflight_per_bind != 0 ==> r == self.inflight_per_bind,
            r >= 1,
    {
        if self.inflight_per_bind == 0 {
            DEFAULT_INFLIGHT
        } else {
            self.inflight_per_bind
        }
    }
}

impl Default for LoadConfig {
    /// The default load shape: one bind at the default rate and window.
    fn default() -> (r: LoadConfig)
        ensures
            r.binds == DEFAULT_BINDS,
            r.max_tps_per_bind == DEFAULT_MAX_TPS,
            r.inflight_per_bind == DEFAULT_INFLIGHT,
    {
        LoadConfig {
            binds: DEFAULT_BINDS,
            max_tps_per_bind: DEFAULT_MAX_TPS,
            inflight_per_bind: DEFAULT_INFLIGHT,
        }
    }
}

/// Everything the core needs to drive a load test.
#[derive(Clone, Debug)]
pub struct Config {
    pub smpp: SmppConfig,
    pub message: MessageConfig,
    pub load: LoadConfig,
}

} // verus!
