//! What the agent is told at startup: where the control plane is, how to
//! authenticate, how long to wait between iterations and for one request.

use vstd::prelude::*;
use vstd::string::*;
use crate::text::same_text;

verus! {

/// The seconds between two iterations where the configuration names none.
pub const DEFAULT_POLL_INTERVAL_SECONDS: u64 = 15;

/// The seconds that one request may take where the configuration names none.
pub const DEFAULT_REQUEST_TIMEOUT_SECONDS: u64 = 30;

/// The agent's configuration, resolved once and handed on explicitly.
#[derive(Debug)]
pub struct Config {
    pub control_plane_url: String,
    pub auth_username: String,
    pub auth_password: String,
    pub poll_interval_seconds: u64,
    pub request_timeout_seconds: u64,
}

/// A configuration as plain values.
pub ghost struct ConfigView {
    pub control_plane_url: Seq<char>,
    pub auth_username: Seq<char>,
    pub auth_password: Seq<char>,
    pub poll_interval_seconds: u64,
    pub request_timeout_seconds: u64,
}

impl View for Config {
    type V = ConfigView;

    open spec fn view(&self) -> ConfigView {
        ConfigView {
            control_plane_url: self.control_plane_url@,
            auth_username: self.auth_username@,
            auth_password: self.auth_password@,
            poll_interval_seconds: self.poll_interval_seconds,
            request_timeout_seconds: self.request_timeout_seconds,
        }
    }
}

/// Why an option was not taken.
#[derive(Clone, Copy, PartialEq, Eq, Structural, Debug)]
pub enum ConfigError {
    /// The option's name is none of those the agent knows.
    UnknownOption,
    /// The option counts seconds, and its value is no decimal number that
    /// fits in 64 bits.
    InvalidNumber,
}

/// Whether a character is one of the ten decimal digits.
pub open spec fn is_digit(c: char) -> bool {
    '0' <= c && c <= '9'
}

/// Whether a text is a decimal numeral: one digit or more, nothing else.
pub open spec fn is_numeral(text: Seq<char>) -> bool {
    text.len() > 0 && forall|i: int| 0 <= i < text.len() ==> is_digit(#[trigger] text[i])
}

/// The number that a decimal numeral stands for.
pub open spec fn numeral_value(text: Seq<char>) -> nat
    decreases text.len(),
{
    if text.len() == 0 {
        0
    } else {
        (numeral_value(text.drop_last()) * 10 + (text.last() as nat - '0' as nat)) as nat
    }
}

/// The count of seconds that a text gives: the number it stands for, where it
/// is a decimal numeral for a number that fits in 64 bits.
pub open spec fn seconds_of(text: Seq<char>) -> Option<u64> {
    if is_numeral(text) && numeral_value(text) <= u64::MAX {
        Some(numeral_value(text) as u64)
    } else {
        None
    }
}

/// A longer numeral stands for no smaller number than its beginning.
pub proof fn lemma_numeral_grows(text: Seq<char>, n: int)
    requires
        is_numeral(text),
        0 <= n <= text.len(),
    ensures
        numeral_value(text.take(n)) <= numeral_value(text),
    decreases text.len() - n,
{
    if n == text.len() {
        assert(text.take(n) =~= text);
    } else {
        lemma_numeral_grows(text, n + 1);
        let longer = text.take(n + 1);
        assert(longer.drop_last() =~= text.take(n));
        assert(longer.last() == text[n]);
        assert(is_digit(text[n]));
    }
}

/// Reads a count of seconds: a decimal numeral for a number that fits in 64 bits.
pub fn parse_seconds(text: &str) -> (r: Option<u64>)
    ensures
        r == seconds_of(text@),
{
    let n = text.unicode_len();
    if n == 0 {
        return None;
    }
    let mut value: u64 = 0;
    let mut i: usize = 0;
    assert(text@.take(0) =~= Seq::<char>::empty());
    while i < n
        invariant
            i <= n,
            n == text@.len(),
            forall|j: int| 0 <= j < i ==> is_digit(#[trigger] text@[j]),
            value == numeral_value(text@.take(i as int)),
        decreases n - i,
    {
        let c = text.get_char(i);
        if !('0' <= c && c <= '9') {
            return None;
        }
        let digit: u64 = (c as u32 - '0' as u32) as u64;
        proof {
            let longer = text@.take(i + 1);
            assert(longer.drop_last() =~= text@.take(i as int));
            assert(longer.last() == c);
            assert(numeral_value(longer) == value * 10 + digit);
        }
        if value > (u64::MAX - digit) / 10 {
            proof {
                assert(numeral_value(text@.take(i + 1)) > u64::MAX);
                if is_numeral(text@) {
                    lemma_numeral_grows(text@, i + 1);
                }
            }
            return None;
        }
        value = value * 10 + digit;
        i += 1;
    }
    assert(text@.take(i as int) =~= text@);
    Some(value)
}

impl Config {
    /// A configuration from its five values.
    pub fn new(
        control_plane_url: String,
        auth_username: String,
        auth_password: String,
        poll_interval_seconds: u64,
        request_timeout_seconds: u64,
    ) -> (r: Config)
        ensures
            r@ == (ConfigView {
                control_plane_url: control_plane_url@,
                auth_username: auth_username@,
                auth_password: auth_password@,
                poll_interval_seconds,
                request_timeout_seconds,
            }),
    {
        Config {
            control_plane_url,
            auth_username,
            auth_password,
            poll_interval_seconds,
            request_timeout_seconds,
        }
    }

    /// The configuration for a control plane at `control_plane_url`, with the
    /// user `admin`, an empty password and the default waits.
    pub fn with_defaults(control_plane_url: String) -> (r: Config)
        ensures
            r@ == (ConfigView {
                control_plane_url: control_plane_url@,
                auth_username: "admin"@,
                auth_password: Seq::<char>::empty(),
                poll_interval_seconds: DEFAULT_POLL_INTERVAL_SECONDS,
                request_timeout_seconds: DEFAULT_REQUEST_TIMEOUT_SECONDS,
            }),
    {
        Config {
            control_plane_url,
            auth_username: String::from_str("admin"),
            auth_password: String::new(),
            poll_interval_seconds: DEFAULT_POLL_INTERVAL_SECONDS,
            request_timeout_seconds: DEFAULT_REQUEST_TIMEOUT_SECONDS,
        }
    }

    /// The configuration after the option `name` was given `value`.
    pub open spec fn with_option(
        before: ConfigView,
        name: Seq<char>,
        value: Seq<char>,
    ) -> Result<ConfigView, ConfigError> {
        if name == "controlPlaneURL"@ {
            Ok(ConfigView { control_plane_url: value, ..before })
        } else if name == "authUsername"@ {
            Ok(ConfigView { auth_username: value, ..before })
        } else if name == "authPassword"@ {
            Ok(ConfigView { auth_password: value, ..before })
        } else if name == "pollIntervalSeconds"@ {
            match seconds_of(value) {
                Some(seconds) => Ok(ConfigView { poll_interval_seconds: seconds, ..before }),
                None => Err(ConfigError::InvalidNumber),
            }
        } else if name == "requestTimeoutSeconds"@ {
            match seconds_of(value) {
                Some(seconds) => Ok(ConfigView { request_timeout_seconds: seconds, ..before }),
                None => Err(ConfigError::InvalidNumber),
            }
        } else {
            Err(ConfigError::UnknownOption)
        }
    }

    /// Gives the option `name` the value `value`. The names are
    /// `controlPlaneURL`, `authUsername`, `authPassword`,
    /// `pollIntervalSeconds` and `requestTimeoutSeconds`. Where the option is
    /// not taken, the configuration stays as it was.
    pub fn set_option(&mut self, name: &str, value: &str) -> (r: Result<(), ConfigError>)
        ensures
            match Config::with_option(old(self)@, name@, value@) {
                Ok(after) => r is Ok && final(self)@ == after,
                Err(e) => r == Err::<(), ConfigError>(e) && final(self)@ == old(self)@,
            },
    {
        if same_text(name, "controlPlaneURL") {
            self.control_plane_url = String::from_str(value);
            Ok(())
        } else if same_text(name, "authUsername") {
            self.auth_username = String::from_str(value);
            Ok(())
        } else if same_text(name, "authPassword") {
            self.auth_password = String::from_str(value);
            Ok(())
        } else if same_text(name, "pollIntervalSeconds") {
            match parse_seconds(value) {
                Some(seconds) => {
                    self.poll_interval_seconds = seconds;
                    Ok(())
                },
                None => Err(ConfigError::InvalidNumber),
            }
        } else if same_text(name, "requestTimeoutSeconds") {
            match parse_seconds(value) {
                Some(seconds) => {
                    self.request_timeout_seconds = seconds;
                    Ok(())
                },
                None => Err(ConfigError::InvalidNumber),
            }
        } else {
            Err(ConfigError::UnknownOption)
        }
    }
}

} // verus!
