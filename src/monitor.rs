use vstd::prelude::*;

use crate::cli::{
    after_program,
    config_of,
    first_timeout_flag,
    positional_args,
    Config,
    ProbeError,
    DEFAULT_TIMEOUT_SECS,
};
use crate::decimal::{decimal_digits, lemma_parse_decimal_digits, parse_unsigned};
use crate::report::{
    connected_line,
    connected_segments,
    failed_line,
    failed_segments,
    segments_view,
    title_of,
    title_text,
    Segment,
};

verus! {

/// Picks the probe target from the addresses that a host name resolved to,
/// in the order the resolver gave them: the first one. A lookup that failed
/// (`None`) or found nothing leaves no target.
pub fn choose_target(lookup: Option<Vec<String>>) -> (r: Result<String, ProbeError>)
    ensures
        match lookup {
            None => r == Err::<String, ProbeError>(ProbeError::Unresolved),
            Some(addrs) => if addrs@.len() == 0 {
                r == Err::<String, ProbeError>(ProbeError::Unresolved)
            } else {
                r matches Ok(t) && t@ == addrs@[0]@
            },
        },
{
    match lookup {
        None => Err(ProbeError::Unresolved),
        Some(addrs) => {
            if addrs.len() == 0 {
                Err(ProbeError::Unresolved)
            } else {
                Ok(addrs[0].clone())
            }
        },
    }
}

/// What one connection attempt came to.
#[derive(Clone, Copy, Debug, PartialEq, Eq, Structural)]
pub enum Outcome {
    /// Connected after this many milliseconds.
    Connected(u128),
    /// Refused, unreachable, or not done within the timeout.
    Failed,
    /// The target could not be read as an IP address.
    BadAddress,
}

/// What to do after an attempt.
#[derive(Clone, Debug)]
pub enum Step {
    /// Show `line`, then wait `pause_secs` seconds before the next attempt.
    Report { line: Vec<Segment>, pause_secs: u64 },
    /// Give up with this error.
    Stop(ProbeError),
}

/// The fixed parameters of a probing run: one target, one port, one timeout.
#[derive(Clone, Debug)]
pub struct Monitor {
    /// An IP address, as text.
    pub target: String,
    pub port: u16,
    /// Seconds allowed per attempt, and waited after each one.
    pub timeout: u64,
}

impl Monitor {
    /// Probing of the resolved `target` with the port and timeout of `config`.
    pub fn new(config: &Config, target: String) -> (m: Monitor)
        ensures
            m.target == target,
            m.port == config.port,
            m.timeout == config.timeout,
    {
        Monitor { target, port: config.port, timeout: config.timeout }
    }

    /// The terminal title for the whole run.
    pub fn title(&self) -> (t: String)
        ensures
            t@ == title_of(self.target@, self.port as nat),
    {
        title_text(self.target.as_str(), self.port)
    }

    /// Seconds that one connection attempt may take.
    pub fn connect_timeout(&self) -> (secs: u64)
        ensures
            secs == self.timeout,
    {
        self.timeout
    }

    /// Decides what follows an attempt: a report and a pause of the full
    /// timeout, whatever the attempt took, or the end of the run when the
    /// target is no address.
    pub fn after_probe(&self, outcome: Outcome) -> (s: Step)
        ensures
            match outcome {
                Outcome::Connected(millis) => s matches Step::Report { line, pause_secs }
                    && segments_view(line@) == connected_segments(
                    self.target@,
                    self.port as nat,
                    millis as nat,
                ) && pause_secs == self.timeout,
                Outcome::Failed => s matches Step::Report { line, pause_secs } && segments_view(
                    line@,
                ) == failed_segments(self.target@, self.port as nat) && pause_secs
                    == self.timeout,
                Outcome::BadAddress => s matches Step::Stop(e) && e == ProbeError::BadAddress,
            },
    {
        match outcome {
            Outcome::Connected(millis) => Step::Report {
                line: connected_line(self.target.as_str(), self.port, millis),
                pause_secs: self.timeout,
            },
            Outcome::Failed => Step::Report {
                line: failed_line(self.target.as_str(), self.port),
                pause_secs: self.timeout,
            },
            Outcome::BadAddress => Step::Stop(ProbeError::BadAddress),
        }
    }
}

/// A command line whose first timeout flag is followed by the decimal
/// writing of a positive `secs` asks for a timeout of exactly `secs`
/// seconds, in place of the default, with host and port the first two
/// positional arguments.
pub proof fn lemma_timeout_flag_sets_timeout(args: Seq<Seq<char>>, flag: int, secs: nat)
    requires
        positional_args(args).len() >= 2,
        parse_unsigned(positional_args(args)[1], u16::MAX as nat) is Ok,
        first_timeout_flag(after_program(args)) == Some(flag),
        flag + 1 < after_program(args).len(),
        after_program(args)[flag + 1] == decimal_digits(secs),
        0 < secs <= u64::MAX,
    ensures
        config_of(args) == Ok::<(Seq<char>, nat, nat), ProbeError>(
            (
                positional_args(args)[0],
                parse_unsigned(positional_args(args)[1], u16::MAX as nat)->Ok_0,
                secs,
            ),
        ),
{
    lemma_parse_decimal_digits(secs, u64::MAX as nat);
}

/// A command line with no timeout flag after the program name asks for the
/// default timeout.
pub proof fn lemma_default_timeout(args: Seq<Seq<char>>)
    requires
        positional_args(args).len() >= 2,
        parse_unsigned(positional_args(args)[1], u16::MAX as nat) is Ok,
        first_timeout_flag(after_program(args)) is None,
    ensures
        config_of(args) == Ok::<(Seq<char>, nat, nat), ProbeError>(
            (
                positional_args(args)[0],
                parse_unsigned(positional_args(args)[1], u16::MAX as nat)->Ok_0,
                DEFAULT_TIMEOUT_SECS as nat,
            ),
        ),
{
}

} // verus!
