//! Configuration values read as text and checked here.
use vstd::prelude::*;
use vstd::string::*;

verus! {

/// Whether `c` is an ASCII decimal digit.
pub open spec fn is_digit(c: char) -> bool {
    '0' <= c && c <= '9'
}

/// Value of a digit character.
pub open spec fn digit_value(c: char) -> nat {
    (c as int - '0' as int) as nat
}

/// Value of a string of decimal digits.
pub open spec fn digits_value(d: Seq<char>) -> nat
    decreases d.len(),
{
    if d.len() == 0 {
        0
    } else {
        digits_value(d.drop_last()) * 10 + digit_value(d.last())
    }
}

/// The digits of an unsigned number: the text without one leading `+`.
pub open spec fn unsigned_digits(s: Seq<char>) -> Seq<char> {
    if s.len() > 0 && s[0] == '+' {
        s.skip(1)
    } else {
        s
    }
}

/// The unsigned number that `s` denotes if it is at most `max`: an optional
/// `+` followed by one or more decimal digits.
pub open spec fn parse_unsigned(s: Seq<char>, max: nat) -> Option<nat> {
    let d = unsigned_digits(s);
    if d.len() > 0 && (forall|i: int| 0 <= i < d.len() ==> is_digit(#[trigger] d[i]))
        && digits_value(d) <= max {
        Some(digits_value(d))
    } else {
        None
    }
}

proof fn lemma_digits_value_grows(d: Seq<char>, i: int)
    requires
        0 <= i <= d.len(),
    ensures
        digits_value(d.take(i)) <= digits_value(d),
    decreases d.len() - i,
{
    if i < d.len() {
        lemma_digits_value_grows(d, i + 1);
        assert(d.take(i + 1).drop_last() =~= d.take(i));
    } else {
        assert(d.take(i) =~= d);
    }
}

/// Parses an unsigned decimal number no larger than `max`, as std's integer
/// parsing does: an optional `+`, then at least one digit, nothing else.
pub fn parse_decimal(s: &str, max: u64) -> (r: Option<u64>)
    ensures
        r matches Some(v) ==> parse_unsigned(s@, max as nat) == Some(v as nat),
        r is None ==> parse_unsigned(s@, max as nat) is None,
{
    let n = s.unicode_len();
    let start: usize = if n > 0 && s.get_char(0) == '+' {
        1
    } else {
        0
    };
    let ghost d = unsigned_digits(s@);
    assert(d =~= s@.skip(start as int));
    if start == n {
        return None;
    }
    let mut value: u64 = 0;
    let mut i = start;
    while i < n
        invariant
            start <= i <= n == s@.len(),
            d == s@.skip(start as int),
            d == unsigned_digits(s@),
            forall|k: int| 0 <= k < i - start ==> is_digit(#[trigger] d[k]),
            value as nat == digits_value(d.take(i - start)),
            value <= max,
        decreases n - i,
    {
        let c = s.get_char(i);
        assert(d[i - start] == c);
        if !('0' <= c && c <= '9') {
            assert(!is_digit(d[i - start]));
            assert(!(forall|k: int| 0 <= k < d.len() ==> is_digit(#[trigger] d[k])));
            return None;
        }
        let dv = (c as u32 - '0' as u32) as u64;
        assert(d.take(i + 1 - start).drop_last() =~= d.take(i - start));
        assert(d.take(i + 1 - start).last() == c);
        assert(digit_value(c) == dv as nat);
        assert(digits_value(d.take(i + 1 - start)) == value * 10 + dv);
        if dv > max || value > (max - dv) / 10 {
            proof {
                lemma_digits_value_grows(d, i + 1 - start);
                if dv <= max {
                    assert(value * 10 + dv > max) by (nonlinear_arith)
                        requires
                            value > (max - dv) / 10,
                            dv <= max,
                    ;
                }
            }
            return None;
        }
        assert(value * 10 + dv <= max) by (nonlinear_arith)
            requires
                value <= (max - dv) / 10,
                dv <= max,
        ;
        value = value * 10 + dv;
        i += 1;
    }
    assert(d.take(n - start) =~= d);
    Some(value)
}

/// Database connection settings.
pub struct DbConfig {
    pub url: String,
    pub max_connections: u32,
}

/// Database connection settings read from the environment.
pub struct Config {
    pub url: String,
    pub maxconns: u32,
}

/// A configuration value that does not parse.
#[derive(Clone, Copy, Debug, PartialEq, Eq, Structural)]
pub enum ConfigError {
    /// The maximum number of connections is not a `u32`.
    InvalidMaxConnections,
    /// The listener port is not a `u16`.
    InvalidPort,
}

impl DbConfig {
    /// Settings from a database URL and the text of a connection limit.
    pub fn new(database_url: &str, max_conns: &str) -> (r: Result<DbConfig, ConfigError>)
        ensures
            parse_unsigned(max_conns@, u32::MAX as nat) matches Some(v) ==> (r matches Ok(c)
                && c.url@ == database_url@ && c.max_connections as nat == v),
            parse_unsigned(max_conns@, u32::MAX as nat) is None ==> r == Err::<DbConfig, _>(
                ConfigError::InvalidMaxConnections,
            ),
    {
        match parse_decimal(max_conns, u32::MAX as u64) {
            Some(v) => Ok(DbConfig { url: String::from_str(database_url), max_connections: v as u32 }),
            None => Err(ConfigError::InvalidMaxConnections),
        }
    }
}

/// The port a listener binds, parsed from text.
pub fn parse_port(listener_port: &str) -> (r: Result<u16, ConfigError>)
    ensures
        parse_unsigned(listener_port@, u16::MAX as nat) matches Some(v) ==> r == Ok::<u16, ConfigError>(
            v as u16,
        ),
        parse_unsigned(listener_port@, u16::MAX as nat) is None ==> r == Err::<u16, ConfigError>(
            ConfigError::InvalidPort,
        ),
{
    match parse_decimal(listener_port, u16::MAX as u64) {
        Some(v) => Ok(v as u16),
        None => Err(ConfigError::InvalidPort),
    }
}

/// The address a listener binds: every interface in production, the
/// loopback interface otherwise.
pub fn listener_ip(is_prod: bool) -> (r: [u8; 4])
    ensures
        is_prod ==> r@ == seq![0u8, 0, 0, 0],
        !is_prod ==> r@ == seq![127u8, 0, 0, 1],
{
    if is_prod {
        let r = [0u8, 0, 0, 0];
        assert(r@ =~= seq![0u8, 0, 0, 0]);
        r
    } else {
        let r = [127u8, 0, 0, 1];
        assert(r@ =~= seq![127u8, 0, 0, 1]);
        r
    }
}

} // verus!
