use vstd::prelude::*;

verus! {

pub open spec fn is_digits(s: Seq<char>) -> bool {
    forall|i: int| 0 <= i < s.len() ==> '0' <= #[trigger] s[i] <= '9'
}

/// The number that decimal digits stand for.
pub open spec fn decimal_value(s: Seq<char>) -> int
    decreases s.len(),
{
    if s.len() == 0 {
        0
    } else {
        decimal_value(s.drop_last()) * 10 + (s.last() as int - '0' as int)
    }
}

/// The digits of a number written with an optional leading `+`.
pub open spec fn unsigned_digits(s: Seq<char>) -> Seq<char> {
    if s.len() > 0 && s[0] == '+' {
        s.drop_first()
    } else {
        s
    }
}

/// Whether the text is a port number: optionally `+`, then at least one
/// decimal digit, for a value up to 65535.
pub open spec fn is_port_text(s: Seq<char>) -> bool {
    let d = unsigned_digits(s);
    d.len() > 0 && is_digits(d) && decimal_value(d) <= 65535
}

proof fn lemma_value_grows(s: Seq<char>, k: int)
    requires
        0 <= k <= s.len(),
        is_digits(s),
    ensures
        decimal_value(s.take(k)) <= decimal_value(s),
    decreases s.len() - k,
{
    if k < s.len() {
        lemma_value_grows(s, k + 1);
        assert(s.take(k + 1).drop_last() =~= s.take(k));
        assert('0' <= s.take(k + 1).last() <= '9');
        assert(decimal_value(s.take(k)) >= 0) by {
            lemma_value_nonneg(s.take(k));
        }
    } else {
        assert(s.take(k) =~= s);
    }
}

proof fn lemma_value_nonneg(s: Seq<char>)
    requires
        is_digits(s),
    ensures
        decimal_value(s) >= 0,
    decreases s.len(),
{
    if s.len() > 0 {
        assert(is_digits(s.drop_last())) by {
            assert forall|i: int| 0 <= i < s.drop_last().len() implies '0' <= #[trigger] s.drop_last()[i] <= '9' by {
                assert(s.drop_last()[i] == s[i]);
            }
        }
        lemma_value_nonneg(s.drop_last());
        assert('0' <= s[s.len() - 1] <= '9');
    }
}

/// Reads a port number: an optional `+`, then decimal digits for a value
/// up to 65535; anything else, whitespace included, is refused.
pub fn parse_port(s: &str) -> (r: Option<u16>)
    ensures
        r is Some <==> is_port_text(s@),
        r matches Some(v) ==> v as int == decimal_value(unsigned_digits(s@)),
{
    let n = s.unicode_len();
    let start: usize = if n > 0 && s.get_char(0) == '+' { 1 } else { 0 };
    let ghost d = unsigned_digits(s@);
    proof {
        assert(d =~= s@.subrange(start as int, n as int));
        assert(d.take(0) =~= Seq::<char>::empty());
    }
    if start == n {
        return None;
    }
    let mut acc: u32 = 0;
    let mut i: usize = start;
    while i < n
        invariant
            n == s@.len(),
            start <= i <= n,
            d == s@.subrange(start as int, n as int),
            d == unsigned_digits(s@),
            acc <= 65535,
            acc as int == decimal_value(d.take(i - start)),
            is_digits(d.take(i - start)),
        decreases n - i,
    {
        let c = s.get_char(i);
        let ghost k = i - start;
        proof {
            assert(d[k] == c);
            assert(d.take(k + 1).drop_last() =~= d.take(k));
            assert(d.take(k + 1).last() == c);
        }
        if c < '0' || c > '9' {
            proof {
                assert(!('0' <= d[k] <= '9'));
                assert(!is_digits(d));
            }
            return None;
        }
        acc = acc * 10 + (c as u32 - '0' as u32);
        proof {
            assert forall|j: int| 0 <= j < d.take(k + 1).len() implies '0' <= #[trigger] d.take(k + 1)[j] <= '9' by {
                if j < k {
                    assert(d.take(k + 1)[j] == d.take(k)[j]);
                }
            }
        }
        if acc > 65535 {
            proof {
                assert(acc as int == decimal_value(d.take(k + 1)));
                if is_digits(d) {
                    lemma_value_grows(d, k + 1);
                    assert(decimal_value(d) > 65535);
                }
                assert(!is_port_text(s@));
            }
            return None;
        }
        i += 1;
    }
    proof {
        assert(d.take(n - start) =~= d);
    }
    Some(acc as u16)
}

/// The settings that the service starts with.
#[derive(Clone, Debug, PartialEq, Eq)]
pub struct Config {
    pub port: String,
    pub rabbitmq_host: String,
    pub rabbitmq_port: u16,
    pub rabbitmq_user: String,
    pub rabbitmq_password: String,
}

/// Why the settings cannot be used.
#[derive(Clone, Copy, Debug, PartialEq, Eq, Structural)]
pub enum ConfigError {
    /// The broker port is not a number from 0 to 65535.
    InvalidBrokerPort,
}

/// Builds the settings from their values as text; the broker port must be a
/// port number.
pub fn get_config(
    port: String,
    rabbitmq_host: String,
    rabbitmq_port: &str,
    rabbitmq_user: String,
    rabbitmq_password: String,
) -> (r: Result<Config, ConfigError>)
    ensures
        !is_port_text(rabbitmq_port@) ==> r == Err::<Config, ConfigError>(ConfigError::InvalidBrokerPort),
        is_port_text(rabbitmq_port@) ==> (r matches Ok(c) && c.rabbitmq_port as int == decimal_value(
            unsigned_digits(rabbitmq_port@),
        ) && c.port == port && c.rabbitmq_host == rabbitmq_host && c.rabbitmq_user == rabbitmq_user
            && c.rabbitmq_password == rabbitmq_password),
{
    match parse_port(rabbitmq_port) {
        None => Err(ConfigError::InvalidBrokerPort),
        Some(p) => Ok(
            Config { port, rabbitmq_host, rabbitmq_port: p, rabbitmq_user, rabbitmq_password },
        ),
    }
}

} // verus!
