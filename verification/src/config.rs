//! Connection settings of the inference server.
//!
//! The settings come from three environment variables, `OLLAMA_HOST`,
//! `OLLAMA_PORT` and `OLLAMA_MODEL`. Reading the environment is the caller's
//! part; this module decides what their values amount to.

use vstd::prelude::*;
use vstd::string::*;

verus! {

/// Where the inference server listens and which model it is asked for.
#[derive(Debug)]
pub struct OllamaConfig {
    host: String,
    port: u16,
    model: String,
}

/// The settings of the program, fixed once it has started.
#[derive(Debug)]
pub struct Configuration {
    ollama: OllamaConfig,
}

/// A configuration as contracts see it.
pub struct ConfigurationView {
    pub host: Seq<char>,
    pub port: u16,
    pub model: Seq<char>,
}

impl View for Configuration {
    type V = ConfigurationView;

    closed spec fn view(&self) -> ConfigurationView {
        ConfigurationView {
            host: self.ollama.host@,
            port: self.ollama.port,
            model: self.ollama.model@,
        }
    }
}

/// Why the environment does not give a configuration.
#[derive(Clone, Copy, Debug, PartialEq, Eq, Structural)]
pub enum ConfigError {
    /// `OLLAMA_HOST` is not set.
    MissingHost,
    /// `OLLAMA_PORT` is not set.
    MissingPort,
    /// `OLLAMA_PORT` is set, but not to a number from 0 to 65535.
    InvalidPort,
    /// `OLLAMA_MODEL` is not set.
    MissingModel,
}

impl ConfigError {
    /// The environment variable at fault.
    pub open spec fn spec_variable(self) -> Seq<char> {
        match self {
            ConfigError::MissingHost => "OLLAMA_HOST"@,
            ConfigError::MissingPort => "OLLAMA_PORT"@,
            ConfigError::InvalidPort => "OLLAMA_PORT"@,
            ConfigError::MissingModel => "OLLAMA_MODEL"@,
        }
    }

    /// The diagnostic shown for this error.
    pub open spec fn spec_message(self) -> Seq<char> {
        match self {
            ConfigError::MissingHost => "OLLAMA_HOST environment variable should be set"@,
            ConfigError::MissingPort => "OLLAMA_PORT environment variable should be set"@,
            ConfigError::InvalidPort => "OLLAMA_PORT should be a valid port number"@,
            ConfigError::MissingModel => "OLLAMA_MODEL environment variable should be set"@,
        }
    }

    /// The name of the environment variable at fault.
    pub fn variable(&self) -> (name: &'static str)
        ensures
            name@ == self.spec_variable(),
    {
        match self {
            ConfigError::MissingHost => "OLLAMA_HOST",
            ConfigError::MissingPort => "OLLAMA_PORT",
            ConfigError::InvalidPort => "OLLAMA_PORT",
            ConfigError::MissingModel => "OLLAMA_MODEL",
        }
    }

    /// The diagnostic to show before giving up.
    pub fn message(&self) -> (text: &'static str)
        ensures
            text@ == self.spec_message(),
    {
        match self {
            ConfigError::MissingHost => "OLLAMA_HOST environment variable should be set",
            ConfigError::MissingPort => "OLLAMA_PORT environment variable should be set",
            ConfigError::InvalidPort => "OLLAMA_PORT should be a valid port number",
            ConfigError::MissingModel => "OLLAMA_MODEL environment variable should be set",
        }
    }
}

/// Whether `c` is one of the digits `0` to `9`.
pub open spec fn is_digit(c: char) -> bool {
    '0' <= c <= '9'
}

/// Whether `s` holds digits only.
pub open spec fn all_digits(s: Seq<char>) -> bool {
    forall|i: int| 0 <= i < s.len() ==> is_digit(#[trigger] s[i])
}

/// The number that the digits `s` write in base ten.
pub open spec fn decimal_value(s: Seq<char>) -> nat
    decreases s.len(),
{
    if s.len() == 0 {
        0
    } else {
        decimal_value(s.drop_last()) * 10 + (s.last() as nat - '0' as nat) as nat
    }
}

/// `s` without a leading `+`.
pub open spec fn unsigned_part(s: Seq<char>) -> Seq<char> {
    if s.len() > 0 && s[0] == '+' {
        s.drop_first()
    } else {
        s
    }
}

/// The port that `s` writes: an optional `+`, then one or more digits whose
/// value is at most 65535. Anything else is no port.
pub open spec fn parsed_port(s: Seq<char>) -> Option<u16> {
    let digits = unsigned_part(s);
    if digits.len() > 0 && all_digits(digits) && decimal_value(digits) <= u16::MAX {
        Some(decimal_value(digits) as u16)
    } else {
        None
    }
}

/// The value of a run of digits is at least the value of each of its prefixes.
pub proof fn lemma_decimal_value_grows(s: Seq<char>, k: int)
    requires
        0 <= k <= s.len(),
        all_digits(s),
    ensures
        decimal_value(s.subrange(0, k)) <= decimal_value(s),
    decreases s.len(),
{
    if k == s.len() {
        assert(s.subrange(0, k) =~= s);
    } else {
        let shorter = s.drop_last();
        assert forall|i: int| 0 <= i < shorter.len() implies is_digit(#[trigger] shorter[i]) by {
            assert(shorter[i] == s[i]);
        }
        lemma_decimal_value_grows(shorter, k);
        assert(shorter.subrange(0, k) =~= s.subrange(0, k));
        assert(is_digit(s[s.len() - 1]));
    }
}

/// Reads a port number. Signs other than one leading `+`, spaces, an empty
/// text and values over 65535 are refused.
pub fn parse_port(text: &str) -> (port: Option<u16>)
    ensures
        port == parsed_port(text@),
{
    let n: usize = text.unicode_len();
    if n == 0 {
        return None;
    }
    let first: usize = if text.get_char(0) == '+' {
        1
    } else {
        0
    };
    if first == n {
        return None;
    }
    let ghost digits = unsigned_part(text@);
    assert(digits =~= text@.subrange(first as int, n as int));
    let mut value: u32 = 0;
    let mut i: usize = first;
    assert(digits.subrange(0, 0) =~= Seq::<char>::empty());
    while i < n
        invariant
            first <= i <= n,
            first < n,
            n == text@.len(),
            digits == unsigned_part(text@),
            digits == text@.subrange(first as int, n as int),
            all_digits(digits.subrange(0, i - first)),
            value == decimal_value(digits.subrange(0, i - first)),
            value <= u16::MAX,
        decreases n - i,
    {
        let c: char = text.get_char(i);
        let code: u32 = c as u32;
        assert(c == digits[i - first]);
        if code < 48 || code > 57 {
            assert(!is_digit(digits[i - first]));
            return None;
        }
        let ghost longer = digits.subrange(0, i - first + 1);
        proof {
            assert(longer.drop_last() =~= digits.subrange(0, i - first));
            assert(longer.last() == c);
            assert forall|j: int| 0 <= j < longer.len() implies is_digit(#[trigger] longer[j]) by {
                if j < i - first {
                    assert(longer[j] == digits.subrange(0, i - first)[j]);
                }
            }
        }
        value = value * 10 + (code - 48);
        if value > 65535 {
            proof {
                if all_digits(digits) {
                    lemma_decimal_value_grows(digits, i - first + 1);
                }
            }
            return None;
        }
        i = i + 1;
    }
    assert(digits.subrange(0, n - first) =~= digits);
    Some(value as u16)
}

/// The view of an environment variable's value, if it is set.
pub open spec fn value_view(value: Option<String>) -> Option<Seq<char>> {
    match value {
        Some(text) => Some(text@),
        None => None,
    }
}

/// What the values of `OLLAMA_HOST`, `OLLAMA_PORT` and `OLLAMA_MODEL` amount
/// to. The first fault found, in this order, is the one reported: no host, no
/// port, a port that is no port number, no model.
pub open spec fn loaded(
    host: Option<Seq<char>>,
    port: Option<Seq<char>>,
    model: Option<Seq<char>>,
) -> Result<ConfigurationView, ConfigError> {
    if host is None {
        Err(ConfigError::MissingHost)
    } else if port is None {
        Err(ConfigError::MissingPort)
    } else if parsed_port(port->0) is None {
        Err(ConfigError::InvalidPort)
    } else if model is None {
        Err(ConfigError::MissingModel)
    } else {
        Ok(ConfigurationView { host: host->0, port: parsed_port(port->0)->0, model: model->0 })
    }
}

/// The view of what [`load_configuration`] returns.
pub open spec fn loaded_view(result: Result<Configuration, ConfigError>) -> Result<
    ConfigurationView,
    ConfigError,
> {
    match result {
        Ok(configuration) => Ok(configuration@),
        Err(error) => Err(error),
    }
}

/// Builds the configuration from the values of the three environment
/// variables, `None` standing for a variable that is not set.
pub fn load_configuration(
    host: Option<String>,
    port: Option<String>,
    model: Option<String>,
) -> (result: Result<Configuration, ConfigError>)
    ensures
        loaded_view(result) == loaded(value_view(host), value_view(port), value_view(model)),
{
    let ollama_host = match host {
        Some(text) => text,
        None => { return Err(ConfigError::MissingHost); },
    };
    let ollama_port = match port {
        Some(text) => match parse_port(text.as_str()) {
            Some(number) => number,
            None => { return Err(ConfigError::InvalidPort); },
        },
        None => { return Err(ConfigError::MissingPort); },
    };
    let ollama_model = match model {
        Some(text) => text,
        None => { return Err(ConfigError::MissingModel); },
    };
    Ok(config(ollama_host, ollama_port, ollama_model))
}

/// The configuration with the given settings.
pub fn config(host: String, port: u16, model: String) -> (configuration: Configuration)
    ensures
        configuration@ == (ConfigurationView { host: host@, port, model: model@ }),
{
    Configuration { ollama: OllamaConfig { host, port, model } }
}

impl Configuration {
    /// The host name or address of the inference server.
    pub fn ollama_host(&self) -> (host: &str)
        ensures
            host@ == self@.host,
    {
        self.ollama.host.as_str()
    }

    /// The port the inference server listens on.
    pub fn ollama_port(&self) -> (port: u16)
        ensures
            port == self@.port,
    {
        self.ollama.port
    }

    /// The name of the model to generate with.
    pub fn ollama_model(&self) -> (model: &str)
        ensures
            model@ == self@.model,
    {
        self.ollama.model.as_str()
    }
}

} // verus!
