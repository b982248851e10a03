//! Configuration of a reconciliation pass.
//!
//! The configuration is read once, before the pass starts, and is only
//! consulted afterwards. The defaults here are the documented ones: a
//! well-known address-check service, a five-minute TTL, no forced update,
//! and a public resolver queried over UDP on the standard DNS port.

use vstd::prelude::*;

verus! {

/// The transport carrying a DNS query to the resolver endpoint. The two
/// variants answer the same query contract; they differ only in connection
/// setup and delivery characteristics.
#[derive(Debug, PartialEq, Eq, Structural, Clone, Copy, Default)]
pub enum DnsProtocol {
    TCP,
    #[default]
    UDP,
}

/// Where and how to query for the managed record's current value.
#[derive(Debug, PartialEq, Eq)]
pub struct DnsServerConfig {
    pub host: String,
    pub port: u16,
    pub protocol: DnsProtocol,
}

/// One pass's configuration.
#[derive(Debug, PartialEq)]
pub struct Config {
    /// The zone holding the managed record.
    pub hosted_zone_id: String,
    /// The managed record's name.
    pub record_name: String,
    /// TTL, in seconds, written with each upsert.
    pub ttl: i64,
    /// The address-check service queried for the current public address.
    pub ip_check: String,
    /// When set, an update is issued whether or not the record is current.
    pub always_update_record: bool,
    /// The resolver asked for the record's current value.
    pub dns_server: DnsServerConfig,
}

pub fn default_ip_service() -> (r: String)
    ensures
        r@ == "https://checkip.amazonaws.com"@,
{
    "https://checkip.amazonaws.com".to_owned()
}

pub fn default_ttl() -> (r: i64)
    ensures
        r == 300,
{
    300
}

pub fn default_force_set() -> (r: bool)
    ensures
        r == false,
{
    false
}

pub fn default_dns_port() -> (r: u16)
    ensures
        r == 53,
{
    53
}

pub fn default_dns_server() -> (r: DnsServerConfig)
    ensures
        r.host@ == "1.1.1.1"@,
        r.port == 53,
        r.protocol is UDP,
{
    DnsServerConfig { host: "1.1.1.1".to_owned(), port: 53, protocol: DnsProtocol::UDP }
}

/// The character of one decimal digit.
pub open spec fn spec_digit(d: int) -> char {
    if d == 0 {
        '0'
    } else if d == 1 {
        '1'
    } else if d == 2 {
        '2'
    } else if d == 3 {
        '3'
    } else if d == 4 {
        '4'
    } else if d == 5 {
        '5'
    } else if d == 6 {
        '6'
    } else if d == 7 {
        '7'
    } else if d == 8 {
        '8'
    } else {
        '9'
    }
}

/// Decimal text of a nonnegative number, most significant digit first.
pub open spec fn spec_decimal(n: int) -> Seq<char>
    decreases n,
{
    if n < 10 {
        seq![spec_digit(n)]
    } else {
        spec_decimal(n / 10) + seq![spec_digit(n % 10)]
    }
}

/// One decimal digit as string text.
fn digit_str(d: u16) -> (r: &'static str)
    requires
        d <= 9,
    ensures
        r@ == seq![spec_digit(d as int)],
{
    proof {
        reveal_strlit("0");
        reveal_strlit("1");
        reveal_strlit("2");
        reveal_strlit("3");
        reveal_strlit("4");
        reveal_strlit("5");
        reveal_strlit("6");
        reveal_strlit("7");
        reveal_strlit("8");
        reveal_strlit("9");
    }
    match d {
        0 => "0",
        1 => "1",
        2 => "2",
        3 => "3",
        4 => "4",
        5 => "5",
        6 => "6",
        7 => "7",
        8 => "8",
        _ => "9",
    }
}

/// Appends the decimal text of `n`.
fn push_decimal_u16(out: &mut String, n: u16)
    ensures
        final (out)@ == old(out)@ + spec_decimal(n as int),
{
    proof {
        assert((n / 10) / 10 == n / 100 && (n / 100) / 10 == n / 1000 && (n / 1000) / 10 == n
            / 10000 && n / 10 <= 6553 && n / 100 <= 655 && n / 1000 <= 65 && n / 10000 <= 6 && (n
            / 10) % 10 <= 9 && (n / 100) % 10 <= 9 && (n / 1000) % 10 <= 9 && n % 10 <= 9 && (n
            >= 10 ==> n / 10 >= 1) && (n >= 100 ==> n / 10 >= 10) && (n >= 1000 ==> n / 100 >= 10)
            && (n >= 10000 ==> n / 1000 >= 10) && (n < 100 ==> n / 10 < 10) && (n < 1000 ==> n / 100
            < 10) && (n < 10000 ==> n / 1000 < 10) && (n / 1000 < 10 ==> n / 1000 == (n / 1000) % 10)
            && (n / 100 < 10 ==> n / 100 == (n / 100) % 10) && (n / 10 < 10 ==> n / 10 == (n / 10)
            % 10)) by (bit_vector);
    }
    if n >= 10000 {
        out.append(digit_str(n / 10000));
    }
    if n >= 1000 {
        out.append(digit_str((n / 1000) % 10));
    }
    if n >= 100 {
        out.append(digit_str((n / 100) % 10));
    }
    if n >= 10 {
        out.append(digit_str((n / 10) % 10));
    }
    out.append(digit_str(n % 10));
    proof {
        reveal_with_fuel(spec_decimal, 6);
        assert(out@ =~= old(out)@ + spec_decimal(n as int));
    }
}

impl DnsServerConfig {
    /// The "host:port" text naming the resolver's socket address.
    pub fn endpoint_text(&self) -> (r: String)
        ensures
            r@ == self.host@ + seq![':'] + spec_decimal(self.port as int),
    {
        let mut out = self.host.as_str().to_owned();
        out.append(":");
        proof {
            reveal_strlit(":");
        }
        push_decimal_u16(&mut out, self.port);
        proof {
            assert(out@ =~= self.host@ + seq![':'] + spec_decimal(self.port as int));
        }
        out
    }
}

} // verus!
