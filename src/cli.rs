//! Startup configuration: the command-line values and their validation.
//!
//! Every value is checked before any component starts; a bad one gives a
//! typed error instead of a failure half-way through a run.
use vstd::prelude::*;

verus! {

/// How consumers reach the cache.
#[derive(PartialEq, Eq, Structural, Clone, Copy, Debug)]
pub enum ConnectionType {
    Websocket,
    REST,
    Unknown,
}

/// Why a configuration was rejected.
#[derive(PartialEq, Eq, Structural, Clone, Copy, Debug)]
pub enum ConfigError {
    MissingPort,
    InvalidPort,
    MissingTimeUnit,
    UnknownTimeUnit,
    InvalidMagnitude,
    IntervalOverflow,
    ZeroInterval,
    UnknownConnectionType,
}

/// The units an autosave interval may be given in.
#[derive(PartialEq, Eq, Structural, Clone, Copy, Debug)]
pub enum TimeUnit {
    Nanos,
    Micros,
    Millis,
    Secs,
    Mins,
    Hours,
    Days,
}

/// A length of time: whole seconds and the nanoseconds beyond them.
#[derive(PartialEq, Eq, Structural, Clone, Copy, Debug)]
pub struct Interval {
    pub secs: u64,
    pub nanos: u32,
}

/// The command-line values.
#[derive(Clone, Debug)]
pub struct CLI {
    /// The watched root.
    pub path: String,
    /// Whether each change is logged.
    pub logs: bool,
    /// The server address, `host:port`.
    pub host: String,
    /// Whether the cache is saved on a timer.
    pub autosave: bool,
    /// The autosave interval, `magnitude:unit`.
    pub autosave_delay: String,
    /// `w` for a streaming (push) surface, `r` for a pull surface.
    pub connection_type: char,
}

/// `i` is the position of the first `:` in `s`.
pub open spec fn first_colon(s: Seq<char>, i: int) -> bool {
    &&& 0 <= i < s.len()
    &&& s[i] == ':'
    &&& forall|j: int| 0 <= j < i ==> s[j] != ':'
}

pub open spec fn has_colon(s: Seq<char>) -> bool {
    exists|i: int| first_colon(s, i)
}

/// The text before the first `:` (all of `s` without one).
pub open spec fn head_field(s: Seq<char>) -> Seq<char> {
    if has_colon(s) {
        s.take(choose|i: int| first_colon(s, i))
    } else {
        s
    }
}

/// The text between the first `:` and the next one (or the end).
pub open spec fn second_field(s: Seq<char>) -> Option<Seq<char>> {
    if has_colon(s) {
        Some(head_field(s.skip((choose|i: int| first_colon(s, i)) + 1)))
    } else {
        None
    }
}

pub open spec fn is_digit(c: char) -> bool {
    48 <= (c as u32) && (c as u32) <= 57
}

pub open spec fn digit_value(c: char) -> int {
    (c as u32) as int - 48
}

/// The value of a string of decimal digits.
pub open spec fn decimal_value(s: Seq<char>) -> int
    decreases s.len(),
{
    if s.len() == 0 {
        0
    } else {
        decimal_value(s.drop_last()) * 10 + digit_value(s.last())
    }
}

/// The digits of an unsigned decimal number: an optional `+`, then one or
/// more digits.
pub open spec fn digits_of(s: Seq<char>) -> Seq<char> {
    if s.len() > 0 && s[0] == '+' {
        s.drop_first()
    } else {
        s
    }
}

pub open spec fn is_number(s: Seq<char>) -> bool {
    &&& digits_of(s).len() > 0
    &&& forall|j: int| 0 <= j < digits_of(s).len() ==> is_digit(#[trigger] digits_of(s)[j])
}

/// The unsigned decimal number `s` spells, if it fits below `bound`.
pub open spec fn number_below(s: Seq<char>, bound: int) -> Option<int> {
    if is_number(s) && decimal_value(digits_of(s)) < bound {
        Some(decimal_value(digits_of(s)))
    } else {
        None
    }
}

pub open spec fn unit_named(t: Seq<char>) -> Option<TimeUnit> {
    if t == seq!['n', 's', 'e', 'c'] {
        Some(TimeUnit::Nanos)
    } else if t == seq!['m', 'i', 'c', 's', 'e', 'c'] {
        Some(TimeUnit::Micros)
    } else if t == seq!['m', 's', 'e', 'c'] {
        Some(TimeUnit::Millis)
    } else if t == seq!['s', 'e', 'c'] {
        Some(TimeUnit::Secs)
    } else if t == seq!['m', 'i', 'n'] {
        Some(TimeUnit::Mins)
    } else if t == seq!['h', 'o', 'u', 'r'] {
        Some(TimeUnit::Hours)
    } else if t == seq!['d', 'a', 'y'] {
        Some(TimeUnit::Days)
    } else {
        None
    }
}

pub open spec fn unit_nanos(u: TimeUnit) -> int {
    match u {
        TimeUnit::Nanos => 1,
        TimeUnit::Micros => 1_000,
        TimeUnit::Millis => 1_000_000,
        TimeUnit::Secs => 1_000_000_000,
        TimeUnit::Mins => 60_000_000_000,
        TimeUnit::Hours => 3_600_000_000_000,
        TimeUnit::Days => 86_400_000_000_000,
    }
}

/// The nanoseconds an interval of whole `u64` seconds can reach.
pub open spec fn interval_nanos_bound() -> int {
    (u64::MAX as int + 1) * 1_000_000_000
}

pub open spec fn port_error(host: Seq<char>) -> Option<ConfigError> {
    match second_field(host) {
        None => Some(ConfigError::MissingPort),
        Some(p) => if number_below(p, 65536) is None {
            Some(ConfigError::InvalidPort)
        } else {
            None
        },
    }
}

/// The first check that `magnitude:unit` fails, if any.
pub open spec fn interval_error(s: Seq<char>) -> Option<ConfigError> {
    match second_field(s) {
        None => Some(ConfigError::MissingTimeUnit),
        Some(t) => match unit_named(t) {
            None => Some(ConfigError::UnknownTimeUnit),
            Some(u) => match number_below(head_field(s), u64::MAX as int + 1) {
                None => Some(ConfigError::InvalidMagnitude),
                Some(n) => if n * unit_nanos(u) >= interval_nanos_bound() {
                    Some(ConfigError::IntervalOverflow)
                } else if n == 0 {
                    Some(ConfigError::ZeroInterval)
                } else {
                    None
                },
            },
        },
    }
}

/// The nanoseconds that a valid `magnitude:unit` stands for.
pub open spec fn interval_total(s: Seq<char>) -> int {
    decimal_value(digits_of(head_field(s))) * unit_nanos(unit_named(second_field(s)->0)->0)
}

/// The length of time `iv` stands for, in nanoseconds.
pub open spec fn interval_as_nanos(iv: Interval) -> int {
    iv.secs * 1_000_000_000 + iv.nanos
}

proof fn lemma_first_colon_unique(s: Seq<char>, i: int)
    requires
        first_colon(s, i),
    ensures
        has_colon(s),
        (choose|k: int| first_colon(s, k)) == i,
{
    let c = choose|k: int| first_colon(s, k);
    if c < i {
        assert(s[c] != ':');
    }
    if c > i {
        assert(s[i] != ':');
    }
}

/// The position of the first `:` in `s`, if there is one.
fn find_colon(s: &str) -> (r: Option<usize>)
    ensures
        r matches Some(i) ==> first_colon(s@, i as int),
        r is None ==> !has_colon(s@),
{
    let n = s.unicode_len();
    let mut i: usize = 0;
    while i < n
        invariant
            n == s@.len(),
            i <= n,
            forall|j: int| 0 <= j < i ==> s@[j] != ':',
        decreases n - i,
    {
        if s.get_char(i) == ':' {
            return Some(i);
        }
        i = i + 1;
    }
    None
}

/// The first field of `s` and, when `s` holds a `:`, the second.
fn split_fields(s: &str) -> (r: (String, Option<String>))
    ensures
        r.0@ == head_field(s@),
        r.1 is Some == has_colon(s@),
        r.1 matches Some(t) ==> Some(t@) == second_field(s@),
{
    match find_colon(s) {
        None => (s.to_owned(), None),
        Some(i) => {
            proof {
                lemma_first_colon_unique(s@, i as int);
            }
            let n = s.unicode_len();
            let head = s.substring_char(0, i);
            let rest = s.substring_char(i + 1, n);
            assert(head@ =~= s@.take(i as int));
            assert(rest@ =~= s@.skip(i + 1));
            let second = match find_colon(rest) {
                None => rest.to_owned(),
                Some(j) => {
                    proof {
                        lemma_first_colon_unique(rest@, j as int);
                    }
                    let t = rest.substring_char(0, j);
                    assert(t@ =~= rest@.take(j as int));
                    t.to_owned()
                },
            };
            (head.to_owned(), Some(second))
        },
    }
}

/// Parses an unsigned decimal number, as `u64`'s `from_str` does: an
/// optional `+`, then one or more digits, of a value that fits.
pub fn parse_decimal(s: &str) -> (r: Option<u64>)
    ensures
        r matches Some(v) ==> number_below(s@, u64::MAX as int + 1) == Some(v as int),
        r is None ==> number_below(s@, u64::MAX as int + 1) is None,
{
    let n = s.unicode_len();
    let mut start: usize = 0;
    if n > 0 && s.get_char(0) == '+' {
        start = 1;
    }
    let ghost d = digits_of(s@);
    assert(d =~= s@.skip(start as int));
    if start == n {
        assert(d.len() == 0);
        return None;
    }
    let mut v: u64 = 0;
    let mut over = false;
    let mut k: usize = start;
    while k < n
        invariant
            n == s@.len(),
            d == s@.skip(start as int),
            d == digits_of(s@),
            start <= k <= n,
            forall|j: int| 0 <= j < k - start ==> is_digit(#[trigger] d[j]),
            !over ==> v == decimal_value(d.take(k - start)),
            over ==> decimal_value(d.take(k - start)) > u64::MAX,
        decreases n - k,
    {
        let c = s.get_char(k);
        let cu = c as u32;
        if cu < 48 || cu > 57 {
            assert(!is_digit(d[k - start]));
            return None;
        }
        let dig = (cu - 48) as u64;
        let ghost prev = decimal_value(d.take(k - start));
        assert(d.take(k + 1 - start).drop_last() =~= d.take(k - start));
        assert(decimal_value(d.take(k + 1 - start)) == prev * 10 + dig);
        if !over {
            if v > (u64::MAX - dig) / 10 {
                assert(v * 10 + dig > u64::MAX) by (nonlinear_arith)
                    requires
                        v > (u64::MAX - dig) / 10,
                        dig <= 9,
                ;
                over = true;
            } else {
                assert(v * 10 + dig <= u64::MAX) by (nonlinear_arith)
                    requires
                        v <= (u64::MAX - dig) / 10,
                        dig <= 9,
                ;
                v = v * 10 + dig;
            }
        }
        k = k + 1;
    }
    assert(d.take(n - start) =~= d);
    if over {
        None
    } else {
        Some(v)
    }
}

fn text_is(t: &str, lit: &str) -> (r: bool)
    ensures
        r == (t@ == lit@),
{
    t.to_owned() == lit.to_owned()
}

/// The unit a name stands for, if any.
pub fn unit_from_name(t: &str) -> (r: Option<TimeUnit>)
    ensures
        r == unit_named(t@),
{
    proof {
        reveal_strlit("nsec");
        reveal_strlit("micsec");
        reveal_strlit("msec");
        reveal_strlit("sec");
        reveal_strlit("min");
        reveal_strlit("hour");
        reveal_strlit("day");
        assert("nsec"@ =~= seq!['n', 's', 'e', 'c']);
        assert("micsec"@ =~= seq!['m', 'i', 'c', 's', 'e', 'c']);
        assert("msec"@ =~= seq!['m', 's', 'e', 'c']);
        assert("sec"@ =~= seq!['s', 'e', 'c']);
        assert("min"@ =~= seq!['m', 'i', 'n']);
        assert("hour"@ =~= seq!['h', 'o', 'u', 'r']);
        assert("day"@ =~= seq!['d', 'a', 'y']);
    }
    if text_is(t, "nsec") {
        Some(TimeUnit::Nanos)
    } else if text_is(t, "micsec") {
        Some(TimeUnit::Micros)
    } else if text_is(t, "msec") {
        Some(TimeUnit::Millis)
    } else if text_is(t, "sec") {
        Some(TimeUnit::Secs)
    } else if text_is(t, "min") {
        Some(TimeUnit::Mins)
    } else if text_is(t, "hour") {
        Some(TimeUnit::Hours)
    } else if text_is(t, "day") {
        Some(TimeUnit::Days)
    } else {
        None
    }
}

/// Parses an autosave interval, `magnitude:unit`, where the unit is one
/// of `nsec`, `micsec`, `msec`, `sec`, `min`, `hour` and `day`.
pub fn parse_interval(s: &str) -> (r: Result<Interval, ConfigError>)
    ensures
        r matches Err(e) ==> interval_error(s@) == Some(e),
        r matches Ok(iv) ==> {
            &&& interval_error(s@) is None
            &&& interval_as_nanos(iv) == interval_total(s@)
            &&& iv.nanos < 1_000_000_000
        },
{
    let (head, second) = split_fields(s);
    let t = match second {
        None => {
            return Err(ConfigError::MissingTimeUnit);
        },
        Some(t) => t,
    };
    let unit = match unit_from_name(t.as_str()) {
        None => {
            return Err(ConfigError::UnknownTimeUnit);
        },
        Some(u) => u,
    };
    let n = match parse_decimal(head.as_str()) {
        None => {
            return Err(ConfigError::InvalidMagnitude);
        },
        Some(n) => n,
    };
    let ghost k = unit_nanos(unit);
    assert(second_field(s@) == Some(t@));
    assert(unit_named(second_field(s@)->0) == Some(unit));
    assert(number_below(head_field(s@), u64::MAX as int + 1) == Some(n as int));
    assert(interval_total(s@) == n * k);
    let iv = match unit {
        TimeUnit::Nanos => Interval { secs: n / 1_000_000_000, nanos: (n % 1_000_000_000) as u32 },
        TimeUnit::Micros => {
            let iv = Interval { secs: n / 1_000_000, nanos: ((n % 1_000_000) * 1_000) as u32 };
            assert(interval_as_nanos(iv) == n * 1_000) by (nonlinear_arith)
                requires
                    iv.secs == n / 1_000_000,
                    iv.nanos == (n % 1_000_000) * 1_000,
            ;
            iv
        },
        TimeUnit::Millis => {
            let iv = Interval { secs: n / 1_000, nanos: ((n % 1_000) * 1_000_000) as u32 };
            assert(interval_as_nanos(iv) == n * 1_000_000) by (nonlinear_arith)
                requires
                    iv.secs == n / 1_000,
                    iv.nanos == (n % 1_000) * 1_000_000,
            ;
            iv
        },
        TimeUnit::Secs => Interval { secs: n, nanos: 0 },
        TimeUnit::Mins => {
            if n > u64::MAX / 60 {
                assert(n * k >= interval_nanos_bound()) by (nonlinear_arith)
                    requires
                        n > u64::MAX / 60,
                        k == 60_000_000_000,
                ;
                return Err(ConfigError::IntervalOverflow);
            }
            assert(n * 60 <= u64::MAX) by (nonlinear_arith)
                requires
                    n <= u64::MAX / 60,
            ;
            Interval { secs: n * 60, nanos: 0 }
        },
        TimeUnit::Hours => {
            if n > u64::MAX / 3600 {
                assert(n * k >= interval_nanos_bound()) by (nonlinear_arith)
                    requires
                        n > u64::MAX / 3600,
                        k == 3_600_000_000_000,
                ;
                return Err(ConfigError::IntervalOverflow);
            }
            assert(n * 3600 <= u64::MAX) by (nonlinear_arith)
                requires
                    n <= u64::MAX / 3600,
            ;
            Interval { secs: n * 3600, nanos: 0 }
        },
        TimeUnit::Days => {
            if n > u64::MAX / 86400 {
                assert(n * k >= interval_nanos_bound()) by (nonlinear_arith)
                    requires
                        n > u64::MAX / 86400,
                        k == 86_400_000_000_000,
                ;
                return Err(ConfigError::IntervalOverflow);
            }
            assert(n * 86400 <= u64::MAX) by (nonlinear_arith)
                requires
                    n <= u64::MAX / 86400,
            ;
            Interval { secs: n * 86400, nanos: 0 }
        },
    };
    assert(interval_as_nanos(iv) == n * k);
    assert(n * k < interval_nanos_bound()) by (nonlinear_arith)
        requires
            interval_as_nanos(iv) == n * k,
            iv.nanos < 1_000_000_000,
            iv.secs <= u64::MAX,
    ;
    if n == 0 {
        return Err(ConfigError::ZeroInterval);
    }
    Ok(iv)
}

/// The connection type a selector stands for.
pub open spec fn connection_type_of(c: char) -> ConnectionType {
    if c == 'w' {
        ConnectionType::Websocket
    } else if c == 'r' {
        ConnectionType::REST
    } else {
        ConnectionType::Unknown
    }
}

/// The first check that the command-line values fail, if any: the
/// server address, then the connection type, then (when autosave is on)
/// the interval.
pub open spec fn config_error(cli: CLI) -> Option<ConfigError> {
    if port_error(cli.host@) is Some {
        port_error(cli.host@)
    } else if connection_type_of(cli.connection_type) == ConnectionType::Unknown {
        Some(ConfigError::UnknownConnectionType)
    } else if cli.autosave && interval_error(cli.autosave_delay@) is Some {
        interval_error(cli.autosave_delay@)
    } else {
        None
    }
}

/// A checked configuration.
#[derive(Clone, Debug)]
pub struct Config {
    pub path: String,
    pub host: String,
    pub port: u16,
    pub logs: bool,
    /// The autosave interval, when autosave is on.
    pub autosave: Option<Interval>,
    pub connection: ConnectionType,
}

impl CLI {
    pub fn get_path(&self) -> (r: String)
        ensures
            r == self.path,
    {
        self.path.clone()
    }

    /// The server's host and port, from `host:port`.
    pub fn get_host(&self) -> (r: Result<(String, u16), ConfigError>)
        ensures
            r matches Err(e) ==> port_error(self.host@) == Some(e),
            r matches Ok(hp) ==> {
                &&& port_error(self.host@) is None
                &&& hp.0@ == head_field(self.host@)
                &&& Some(hp.1 as int) == number_below(second_field(self.host@)->0, 65536)
            },
    {
        let (host, second) = split_fields(self.host.as_str());
        match second {
            None => Err(ConfigError::MissingPort),
            Some(p) => match parse_decimal(p.as_str()) {
                Some(v) => {
                    if v <= 65535 {
                        Ok((host, v as u16))
                    } else {
                        Err(ConfigError::InvalidPort)
                    }
                },
                None => Err(ConfigError::InvalidPort),
            },
        }
    }

    pub fn with_logs(&self) -> (r: bool)
        ensures
            r == self.logs,
    {
        self.logs
    }

    pub fn with_autosave(&self) -> (r: bool)
        ensures
            r == self.autosave,
    {
        self.autosave
    }

    pub fn autosave_delay(&self) -> (r: String)
        ensures
            r == self.autosave_delay,
    {
        self.autosave_delay.clone()
    }

    pub fn get_connection_type(&self) -> (r: ConnectionType)
        ensures
            r == connection_type_of(self.connection_type),
    {
        match self.connection_type {
            'w' => ConnectionType::Websocket,
            'r' => ConnectionType::REST,
            _ => ConnectionType::Unknown,
        }
    }

    /// Checks every value; the first one that fails gives the error.
    pub fn check(&self) -> (r: Result<Config, ConfigError>)
        ensures
            r matches Err(e) ==> config_error(*self) == Some(e),
            r matches Ok(c) ==> {
                &&& config_error(*self) is None
                &&& c.path == self.path
                &&& c.host@ == head_field(self.host@)
                &&& Some(c.port as int) == number_below(second_field(self.host@)->0, 65536)
                &&& c.logs == self.logs
                &&& c.connection == connection_type_of(self.connection_type)
                &&& self.autosave ==> (c.autosave matches Some(iv) && interval_as_nanos(iv)
                    == interval_total(self.autosave_delay@) && iv.nanos < 1_000_000_000)
                &&& !self.autosave ==> c.autosave is None
            },
    {
        let (host, port) = match self.get_host() {
            Ok(hp) => hp,
            Err(e) => {
                return Err(e);
            },
        };
        let connection = self.get_connection_type();
        if connection == ConnectionType::Unknown {
            return Err(ConfigError::UnknownConnectionType);
        }
        let autosave = if self.autosave {
            match parse_interval(self.autosave_delay.as_str()) {
                Ok(iv) => Some(iv),
                Err(e) => {
                    return Err(e);
                },
            }
        } else {
            None
        };
        Ok(Config { path: self.get_path(), host, port, logs: self.logs, autosave, connection })
    }
}

} // verus!
