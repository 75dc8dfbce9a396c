//! Settings of the broker, resolved from the tables of its configuration
//! file with a default for everything that is missing.

use vstd::prelude::*;
use vstd::string::StringSliceAdditionalSpecFns;
use crate::bytes::{decimal, push_decimal};

verus! {

/// Importance of a log message; the order of the variants is the order
/// of importance.
#[derive(Copy, Clone, Debug, PartialEq, Eq, Structural)]
pub enum LogLevel {
    All,
    Info,
    Warning,
    Error,
}

/// Position of `l` in the order of importance.
pub open spec fn log_level_rank(l: LogLevel) -> int {
    match l {
        LogLevel::All => 0,
        LogLevel::Info => 1,
        LogLevel::Warning => 2,
        LogLevel::Error => 3,
    }
}

fn rank(l: &LogLevel) -> (r: u8)
    ensures
        r == log_level_rank(*l),
{
    match l {
        LogLevel::All => 0,
        LogLevel::Info => 1,
        LogLevel::Warning => 2,
        LogLevel::Error => 3,
    }
}

/// Comparison of two levels by importance.
pub open spec fn log_level_order(a: LogLevel, b: LogLevel) -> Option<core::cmp::Ordering> {
    if log_level_rank(a) < log_level_rank(b) {
        Some(core::cmp::Ordering::Less)
    } else if log_level_rank(a) == log_level_rank(b) {
        Some(core::cmp::Ordering::Equal)
    } else {
        Some(core::cmp::Ordering::Greater)
    }
}

impl PartialOrd for LogLevel {
    fn partial_cmp(&self, other: &LogLevel) -> (r: Option<core::cmp::Ordering>) {
        let a = rank(self);
        let b = rank(other);
        if a < b {
            Some(core::cmp::Ordering::Less)
        } else if a == b {
            Some(core::cmp::Ordering::Equal)
        } else {
            Some(core::cmp::Ordering::Greater)
        }
    }
}

impl vstd::std_specs::cmp::PartialOrdSpecImpl for LogLevel {
    open spec fn obeys_partial_cmp_spec() -> bool {
        true
    }

    open spec fn partial_cmp_spec(&self, other: &LogLevel) -> Option<core::cmp::Ordering> {
        log_level_order(*self, *other)
    }
}

/// The `server` table of the configuration file.
pub struct ConfigTomlServer {
    pub port: Option<String>,
}

/// The `period` table of the configuration file, in seconds.
pub struct ConfigTomlPeriod {
    pub heartbeat_period: Option<u16>,
    pub ping_period: Option<u16>,
}

/// The `debug` table of the configuration file.
pub struct ConfigTomlDebug {
    pub debug_level: Option<LogLevel>,
    pub debug_datagram_handler: Option<bool>,
    pub debug_ping_sender: Option<bool>,
    pub debug_data_handler: Option<bool>,
    pub debug_heartbeat_checker: Option<bool>,
    pub debug_topic_handler: Option<bool>,
}

/// The tables of the configuration file, each of which may be missing.
pub struct ConfigToml {
    pub server: Option<ConfigTomlServer>,
    pub debug: Option<ConfigTomlDebug>,
    pub period: Option<ConfigTomlPeriod>,
}

/// Settings of the broker.
pub struct Config {
    pub port: String,
    pub heart_beat_period: u16,
    pub ping_period: u16,
    pub debug_level: LogLevel,
    pub debug_datagram_handler: bool,
    pub debug_ping_sender: bool,
    pub debug_data_handler: bool,
    pub debug_heartbeat_checker: bool,
    pub debug_topic_handler: bool,
}

/// The byte is an ASCII decimal digit.
pub open spec fn is_digit(c: u8) -> bool {
    48 <= c <= 57
}

/// Value of a sequence of ASCII decimal digits, most significant first.
pub open spec fn digits_value(d: Seq<u8>) -> int
    decreases d.len(),
{
    if d.len() == 0 {
        0
    } else {
        digits_value(d.drop_last()) * 10 + (d.last() - 48)
    }
}

/// The digits of a number written with an optional `+` sign.
pub open spec fn unsigned_digits(s: Seq<u8>) -> Seq<u8> {
    if s.len() > 0 && s[0] == 43 {
        s.drop_first()
    } else {
        s
    }
}

/// `s` is the decimal writing of a `u16`, as `str::parse` reads it: an
/// optional `+`, then at least one digit, the value being at most 65535.
pub open spec fn is_u16_text(s: Seq<u8>) -> bool {
    let d = unsigned_digits(s);
    &&& d.len() > 0
    &&& forall|i: int| 0 <= i < d.len() ==> is_digit(#[trigger] d[i])
    &&& digits_value(d) <= 65535
}

/// Appending a digit never makes the value smaller.
proof fn lemma_digits_value_grows(d: Seq<u8>, c: u8)
    requires
        is_digit(c),
    ensures
        digits_value(d.push(c)) == digits_value(d) * 10 + (c - 48),
        digits_value(d) >= 0 ==> digits_value(d.push(c)) >= digits_value(d),
{
    assert(d.push(c).drop_last() =~= d);
}

/// Every sequence of digits has a value of at least 0.
proof fn lemma_digits_value_nonneg(d: Seq<u8>)
    requires
        forall|i: int| 0 <= i < d.len() ==> is_digit(#[trigger] d[i]),
    ensures
        digits_value(d) >= 0,
    decreases d.len(),
{
    if d.len() > 0 {
        lemma_digits_value_nonneg(d.drop_last());
    }
}

/// Reads the decimal writing of a `u16` as `str::parse` does: `None`
/// when `s` is not one.
pub fn parse_u16(s: &str) -> (r: Option<u16>)
    ensures
        is_u16_text(s.spec_bytes()) ==> r == Some(digits_value(unsigned_digits(s.spec_bytes())) as u16),
        !is_u16_text(s.spec_bytes()) ==> r is None,
{
    let b = s.as_bytes();
    let ghost d = unsigned_digits(b@);
    let start: usize = if b.len() > 0 && b[0] == 43 {
        1
    } else {
        0
    };
    assert(d =~= b@.subrange(start as int, b@.len() as int));
    if start >= b.len() {
        return None;
    }
    let mut value: u32 = 0;
    let mut i: usize = start;
    while i < b.len()
        invariant
            start <= i <= b@.len(),
            d == unsigned_digits(b@),
            b@ == s.spec_bytes(),
            d =~= b@.subrange(start as int, b@.len() as int),
            forall|j: int| start <= j < i ==> is_digit(#[trigger] b@[j]),
            value == digits_value(b@.subrange(start as int, i as int)),
            value <= 65535,
        decreases b.len() - i,
    {
        let c = b[i];
        if c < 48 || c > 57 {
            assert(d[i - start] == c);
            assert(!is_digit(d[i - start]));
            assert(!is_u16_text(b@));
            return None;
        }
        proof {
            assert(b@.subrange(start as int, i + 1) =~= b@.subrange(start as int, i as int).push(c));
            lemma_digits_value_grows(b@.subrange(start as int, i as int), c);
        }
        let next = value * 10 + (c - 48) as u32;
        if next > 65535 {
            proof {
                assert forall|j: int| 0 <= j < i + 1 - start implies is_digit(
                    #[trigger] b@.subrange(start as int, i + 1)[j],
                ) by {
                    assert(b@.subrange(start as int, i + 1)[j] == b@[start + j]);
                }
                let k = (i + 1 - start) as int;
                assert(d.subrange(0, k) =~= b@.subrange(start as int, i + 1));
                lemma_value_stays_above(d, k, 65535);
            }
            return None;
        }
        value = next;
        i = i + 1;
    }
    assert(b@.subrange(start as int, i as int) =~= d);
    Some(value as u16)
}

/// Once a prefix of a sequence of digits is above `limit`, so is any
/// longer prefix, and so is the whole sequence.
proof fn lemma_value_stays_above(d: Seq<u8>, k: int, limit: int)
    requires
        0 < k <= d.len(),
        limit >= 0,
        forall|j: int| 0 <= j < k ==> is_digit(#[trigger] d.subrange(0, k)[j]),
        digits_value(d.subrange(0, k)) > limit,
    ensures
        (forall|j: int| 0 <= j < d.len() ==> is_digit(#[trigger] d[j])) ==> digits_value(d) > limit,
    decreases d.len() - k,
{
    if forall|j: int| 0 <= j < d.len() ==> is_digit(#[trigger] d[j]) {
        if k == d.len() {
            assert(d.subrange(0, k) =~= d);
        } else {
            let p = d.subrange(0, k);
            lemma_digits_value_nonneg(p);
            assert(d.subrange(0, k + 1) =~= p.push(d[k]));
            lemma_digits_value_grows(p, d[k]);
            assert forall|j: int| 0 <= j < k + 1 implies is_digit(#[trigger] d.subrange(0, k + 1)[j]) by {
                assert(d.subrange(0, k + 1)[j] == d[j]);
            }
            lemma_value_stays_above(d, k + 1, limit);
        }
    }
}

/// The digits of a number written with an optional `+` or `-` sign.
pub open spec fn signed_digits(s: Seq<u8>) -> Seq<u8> {
    if s.len() > 0 && (s[0] == 43 || s[0] == 45) {
        s.drop_first()
    } else {
        s
    }
}

/// The text `s` starts with a `-` sign.
pub open spec fn is_negative_text(s: Seq<u8>) -> bool {
    s.len() > 0 && s[0] == 45
}

/// `s` is the decimal writing of an `i16`, as `str::parse` reads it: an
/// optional sign, then at least one digit, the value being between
/// -32768 and 32767.
pub open spec fn is_i16_text(s: Seq<u8>) -> bool {
    let d = signed_digits(s);
    &&& d.len() > 0
    &&& forall|i: int| 0 <= i < d.len() ==> is_digit(#[trigger] d[i])
    &&& digits_value(d) <= if is_negative_text(s) {
        32768int
    } else {
        32767int
    }
}

/// Value of the decimal writing `s` of a number with an optional sign.
pub open spec fn signed_value(s: Seq<u8>) -> int {
    if is_negative_text(s) {
        -digits_value(signed_digits(s))
    } else {
        digits_value(signed_digits(s))
    }
}

/// Reads the decimal writing of an `i16` as `str::parse` does: `None`
/// when `s` is not one.
pub fn parse_i16(s: &str) -> (r: Option<i16>)
    ensures
        is_i16_text(s.spec_bytes()) ==> r == Some(signed_value(s.spec_bytes()) as i16),
        !is_i16_text(s.spec_bytes()) ==> r is None,
{
    let b = s.as_bytes();
    let ghost d = signed_digits(b@);
    let negative = b.len() > 0 && b[0] == 45;
    let start: usize = if b.len() > 0 && (b[0] == 43 || b[0] == 45) {
        1
    } else {
        0
    };
    let limit: u32 = if negative {
        32768
    } else {
        32767
    };
    assert(d =~= b@.subrange(start as int, b@.len() as int));
    if start >= b.len() {
        return None;
    }
    let mut value: u32 = 0;
    let mut i: usize = start;
    while i < b.len()
        invariant
            start <= i <= b@.len(),
            d == signed_digits(b@),
            b@ == s.spec_bytes(),
            negative == is_negative_text(b@),
            limit == if negative { 32768int } else { 32767int },
            d =~= b@.subrange(start as int, b@.len() as int),
            forall|j: int| start <= j < i ==> is_digit(#[trigger] b@[j]),
            value == digits_value(b@.subrange(start as int, i as int)),
            value <= limit,
        decreases b.len() - i,
    {
        let c = b[i];
        if c < 48 || c > 57 {
            assert(d[i - start] == c);
            assert(!is_digit(d[i - start]));
            assert(!is_i16_text(b@));
            return None;
        }
        proof {
            assert(b@.subrange(start as int, i + 1) =~= b@.subrange(start as int, i as int).push(c));
            lemma_digits_value_grows(b@.subrange(start as int, i as int), c);
        }
        let next = value * 10 + (c - 48) as u32;
        if next > limit {
            proof {
                assert forall|j: int| 0 <= j < i + 1 - start implies is_digit(
                    #[trigger] b@.subrange(start as int, i + 1)[j],
                ) by {
                    assert(b@.subrange(start as int, i + 1)[j] == b@[start + j]);
                }
                let k = (i + 1 - start) as int;
                assert(d.subrange(0, k) =~= b@.subrange(start as int, i + 1));
                lemma_value_stays_above(d, k, limit as int);
            }
            return None;
        }
        value = next;
        i = i + 1;
    }
    assert(b@.subrange(start as int, i as int) =~= d);
    if negative {
        Some((0 - value as i32) as i16)
    } else {
        Some(value as i16)
    }
}

/// `o`, or `d` when it is missing.
pub open spec fn or_default<T>(o: Option<T>, d: T) -> T {
    match o {
        Some(v) => v,
        None => d,
    }
}

/// The configuration file gives a port that is the writing of a `u16`
/// whenever it has a `server` table; otherwise no port can be read.
pub open spec fn port_readable(t: ConfigToml) -> bool {
    t.server matches Some(server) ==> (server.port matches Some(p) && is_u16_text(
        vstd::utf8::encode_utf8(p@),
    ))
}

/// The port that the tables `t` give: the number that the `server` table
/// writes, or 3838.
pub open spec fn resolved_port(t: ConfigToml) -> u16 {
    match t.server {
        Some(server) => digits_value(unsigned_digits(vstd::utf8::encode_utf8(server.port->0@))) as u16,
        None => 3838,
    }
}

/// `c` holds the settings that the tables `t` give: the port of the
/// `server` table or 3838, written in decimal as `to_string` writes it;
/// periods of 5 seconds; every message logged, whatever its source,
/// unless the `debug` table says otherwise.
pub open spec fn resolved(c: Config, t: ConfigToml) -> bool {
    &&& vstd::utf8::encode_utf8(c.port@) == decimal(resolved_port(t) as nat)
    &&& c.heart_beat_period == match t.period {
        Some(p) => or_default(p.heartbeat_period, 5),
        None => 5,
    }
    &&& c.ping_period == match t.period {
        Some(p) => or_default(p.ping_period, 5),
        None => 5,
    }
    &&& c.debug_level == match t.debug {
        Some(d) => or_default(d.debug_level, LogLevel::All),
        None => LogLevel::All,
    }
    &&& c.debug_datagram_handler == match t.debug {
        Some(d) => or_default(d.debug_datagram_handler, true),
        None => true,
    }
    &&& c.debug_ping_sender == match t.debug {
        Some(d) => or_default(d.debug_ping_sender, true),
        None => true,
    }
    &&& c.debug_data_handler == match t.debug {
        Some(d) => or_default(d.debug_data_handler, true),
        None => true,
    }
    &&& c.debug_heartbeat_checker == match t.debug {
        Some(d) => or_default(d.debug_heartbeat_checker, true),
        None => true,
    }
    &&& c.debug_topic_handler == match t.debug {
        Some(d) => or_default(d.debug_topic_handler, true),
        None => true,
    }
}

/// Every byte of the decimal writing of a number is a digit.
proof fn lemma_decimal_digits(n: nat)
    ensures
        forall|i: int| 0 <= i < decimal(n).len() ==> is_digit(#[trigger] decimal(n)[i]),
    decreases n,
{
    if n >= 10 {
        lemma_decimal_digits(n / 10);
        let d = decimal(n / 10);
        assert(decimal(n) == d.push((48 + n % 10) as u8));
        assert forall|i: int| 0 <= i < decimal(n).len() implies is_digit(#[trigger] decimal(n)[i]) by {
            if i < d.len() {
                assert(decimal(n)[i] == d[i]);
            }
        }
    }
}

/// Bytes below 128 are the UTF-8 encoding of the characters they stand
/// for.
proof fn lemma_ascii_encoding(b: Seq<u8>)
    requires
        forall|i: int| 0 <= i < b.len() ==> #[trigger] b[i] < 128,
    ensures
        vstd::utf8::encode_utf8(Seq::new(b.len(), |i: int| b[i] as char)) == b,
    decreases b.len(),
{
    if b.len() > 0 {
        let c = Seq::new(b.len(), |i: int| b[i] as char);
        let rest = b.drop_first();
        assert(forall|i: int| 0 <= i < rest.len() ==> #[trigger] rest[i] == b[i + 1]);
        lemma_ascii_encoding(rest);
        assert(c.drop_first() =~= Seq::new(rest.len(), |i: int| rest[i] as char));
        let x = b[0];
        assert(x < 128);
        assert((x as char) as u32 == x as u32);
        let v = x as u32;
        assert(((v & 0x7F) as u8) == x) by (bit_vector)
            requires
                v == x as u32,
                x < 128,
        ;
        assert(vstd::utf8::encode_scalar(c[0] as u32) =~= seq![x]);
        assert(b =~= seq![x] + rest);
    }
}

/// The decimal writing of `n`, as `to_string` gives it.
fn decimal_string(n: u16) -> (r: String)
    ensures
        vstd::utf8::encode_utf8(r@) == decimal(n as nat),
{
    let mut bytes: Vec<u8> = Vec::new();
    push_decimal(&mut bytes, n as u64);
    proof {
        assert(bytes@ =~= decimal(n as nat));
        lemma_decimal_digits(n as nat);
        assert(forall|i: int| 0 <= i < bytes@.len() ==> #[trigger] bytes@[i] < 128);
        lemma_ascii_encoding(bytes@);
        vstd::utf8::encode_utf8_valid_utf8(Seq::new(bytes@.len(), |i: int| bytes@[i] as char));
    }
    crate::asyncbroker::broker::utf8_string(bytes).unwrap()
}

/// `o`, or `d` when it is missing.
fn unwrap_or_flag(o: Option<bool>, d: bool) -> (r: bool)
    ensures
        r == or_default(o, d),
{
    match o {
        Some(v) => v,
        None => d,
    }
}

/// `o`, or `d` when it is missing.
fn unwrap_or_period(o: Option<u16>, d: u16) -> (r: u16)
    ensures
        r == or_default(o, d),
{
    match o {
        Some(v) => v,
        None => d,
    }
}

impl Config {
    /// Resolves the settings from the tables of the configuration file,
    /// as `resolved` says.
    pub fn from_toml(config_toml: ConfigToml) -> (r: Config)
        requires
            port_readable(config_toml),
        ensures
            resolved(r, config_toml),
    {
        let port: u16 = match &config_toml.server {
            Some(server) => {
                let text = server.port.as_ref().unwrap();
                parse_u16(text.as_str()).unwrap()
            },
            None => 3838,
        };
        let (heartbeat_period, ping_period): (u16, u16) = match &config_toml.period {
            Some(period) => (
                unwrap_or_period(period.heartbeat_period, 5),
                unwrap_or_period(period.ping_period, 5),
            ),
            None => (5, 5),
        };
        let (
            debug_level,
            debug_datagram_handler,
            debug_ping_sender,
            debug_data_handler,
            debug_heartbeat_checker,
            debug_topic_handler,
        ) = match &config_toml.debug {
            Some(debug) => (
                match debug.debug_level {
                    Some(level) => level,
                    None => LogLevel::All,
                },
                unwrap_or_flag(debug.debug_datagram_handler, true),
                unwrap_or_flag(debug.debug_ping_sender, true),
                unwrap_or_flag(debug.debug_data_handler, true),
                unwrap_or_flag(debug.debug_heartbeat_checker, true),
                unwrap_or_flag(debug.debug_topic_handler, true),
            ),
            None => (LogLevel::All, true, true, true, true, true),
        };
        Config {
            port: decimal_string(port),
            heart_beat_period: heartbeat_period,
            ping_period,
            debug_level,
            debug_datagram_handler,
            debug_ping_sender,
            debug_data_handler,
            debug_heartbeat_checker,
            debug_topic_handler,
        }
    }
}

} // verus!
