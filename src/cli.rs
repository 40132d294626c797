//! The server's command line, as plain values; parsing the argument list is
//! left to the binary.
use vstd::prelude::*;

verus! {

/// The duration that humantime reads in `s`, as whole seconds and the
/// nanoseconds beyond them; `None` where it reads none.
pub uninterp spec fn humantime_duration(s: Seq<char>) -> Option<(u64, u32)>;

/// How many decimal digits `s` holds.
pub open spec fn digit_count(s: Seq<char>) -> nat
    decreases s.len(),
{
    if s.len() == 0 {
        0
    } else {
        digit_count(s.drop_last()) + if '0' <= s.last() <= '9' {
            1nat
        } else {
            0nat
        }
    }
}

/// The most digits a timeout may hold. With no more, every sum that humantime
/// forms stays far below `u64::MAX` seconds, where its final `Duration::new`
/// could overflow and panic.
pub const MAX_TIMEOUT_DIGITS: usize = 11;

/// Relies on `humantime::parse_duration`: it reads durations such as `1s` or
/// `2h 37m`, depends on the text alone, and refuses an empty string. The
/// `Duration` it gives is taken apart as `as_secs` and `subsec_nanos`, the
/// latter below one billion.
#[verifier::external_body]
fn parse_duration(s: &str) -> (r: Option<(u64, u32)>)
    requires
        digit_count(s@) <= MAX_TIMEOUT_DIGITS,
    ensures
        r == humantime_duration(s@),
        s@.len() == 0 ==> r is None,
        r matches Some((_, n)) ==> n < 1_000_000_000,
{
    humantime::parse_duration(s).ok().map(|d| (d.as_secs(), d.subsec_nanos()))
}

/// A delay after which the server stops.
#[derive(Debug, Clone, Copy, PartialEq, Eq)]
pub struct Timeout {
    pub secs: u64,
    /// Below one billion.
    pub nanos: u32,
}

/// A timeout that is not a human readable duration.
#[derive(Debug, Clone, Copy, PartialEq, Eq)]
pub enum TimeoutError {
    /// Not a duration.
    Invalid,
    /// More digits than a timeout may hold.
    TooLong,
}

fn count_digits(s: &str) -> (r: usize)
    ensures
        r == digit_count(s@),
{
    let n = s.unicode_len();
    let mut c: usize = 0;
    let mut i: usize = 0;
    while i < n
        invariant
            n == s@.len(),
            i <= n,
            c <= i,
            c == digit_count(s@.subrange(0, i as int)),
        decreases n - i,
    {
        assert(s@.subrange(0, i + 1).drop_last() =~= s@.subrange(0, i as int));
        let ch = s.get_char(i);
        if '0' <= ch && ch <= '9' {
            c += 1;
        }
        i += 1;
    }
    assert(s@.subrange(0, i as int) =~= s@);
    c
}

impl Timeout {
    /// Reads a human readable duration (`1s`, `5min`, `2h 37m`) of at most
    /// `MAX_TIMEOUT_DIGITS` digits.
    pub fn parse(s: &str) -> (r: Result<Timeout, TimeoutError>)
        ensures
            digit_count(s@) > MAX_TIMEOUT_DIGITS ==> r == Err::<Timeout, TimeoutError>(
                TimeoutError::TooLong,
            ),
            digit_count(s@) <= MAX_TIMEOUT_DIGITS ==> match humantime_duration(s@) {
                Some((secs, nanos)) => r == Ok::<Timeout, TimeoutError>(Timeout { secs, nanos }),
                None => r == Err::<Timeout, TimeoutError>(TimeoutError::Invalid),
            },
            s@.len() == 0 ==> r is Err,
            r matches Ok(t) ==> t.nanos < 1_000_000_000,
    {
        if count_digits(s) > MAX_TIMEOUT_DIGITS {
            return Err(TimeoutError::TooLong);
        }
        match parse_duration(s) {
            Some((secs, nanos)) => Ok(Timeout { secs, nanos }),
            None => Err(TimeoutError::Invalid),
        }
    }
}

impl std::str::FromStr for Timeout {
    type Err = TimeoutError;

    fn from_str(s: &str) -> Result<Timeout, TimeoutError> {
        Timeout::parse(s)
    }
}

/// What the server is asked to do instead of serving.
#[derive(Debug, Clone, Copy, PartialEq, Eq)]
pub enum Commands {
    /// Show the loaded configuration.
    ConfigShow,
    /// Show how the loaded configuration differs from the default one.
    ConfigDiff,
}

/// The command line of the server.
#[derive(Debug, PartialEq, Eq)]
pub struct Args {
    /// Print the version and exit.
    pub version: bool,
    /// Path of the configuration file.
    pub config: String,
    /// Absolute path of a dotenv file.
    pub env: Option<String>,
    pub command: Option<Commands>,
    /// Do not run the program as a daemon.
    pub no_daemon: bool,
    /// Output to stdout.
    pub stdout: bool,
    /// Make the server stop after a delay.
    pub timeout: Option<Timeout>,
}

impl Args {
    /// Where the configuration file is looked for by default.
    pub fn default_config_location() -> (r: String)
        ensures
            r@ == "/etc/vsmtp/vsmtp.vsl"@,
    {
        String::from_str("/etc/vsmtp/vsmtp.vsl")
    }
}

} // verus!
