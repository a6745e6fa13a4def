use vstd::prelude::*;

use crate::decimal::{is_digit, parse_bounded, parse_port, parse_unsigned, NumberError};

verus! {

/// Seconds allowed for a connection, and waited between two attempts, when
/// no timeout is given.
pub const DEFAULT_TIMEOUT_SECS: u64 = 2;

/// Why probing cannot start or go on.
#[derive(Clone, Copy, Debug, PartialEq, Eq, Structural)]
pub enum ProbeError {
    /// Fewer than two positional arguments: only the usage is shown.
    Usage,
    /// The port is no number from 0 to 65535.
    BadPort(NumberError),
    /// The value after `-t` / `--timeout` is missing, no number, or zero.
    BadTimeout,
    /// The host name could not be resolved to an address.
    Unresolved,
    /// The resolved target is no IP address.
    BadAddress,
}

pub open spec fn exit_code_of(e: ProbeError) -> int {
    match e {
        ProbeError::Usage => 0,
        _ => 1,
    }
}

impl ProbeError {
    /// The status the process ends with: 0 after showing the usage, 1 for
    /// every real error.
    pub fn exit_code(&self) -> (code: i32)
        ensures
            code == exit_code_of(*self),
    {
        match self {
            ProbeError::Usage => 0,
            _ => 1,
        }
    }
}

/// What the command line asks for.
#[derive(Clone, Debug)]
pub struct Config {
    /// Host name or IP address, as given.
    pub host: String,
    pub port: u16,
    /// In seconds; never zero.
    pub timeout: u64,
}

pub open spec fn arg_texts(args: Seq<String>) -> Seq<Seq<char>> {
    args.map_values(|a: String| a@)
}

/// The arguments after the program name.
pub open spec fn after_program(args: Seq<Seq<char>>) -> Seq<Seq<char>> {
    if args.len() == 0 {
        Seq::empty()
    } else {
        args.drop_first()
    }
}

/// An argument that names a flag: a `-` followed by something other than a
/// digit. A lone `-` and a negative number such as `-1` are no flags.
pub open spec fn is_flag(a: Seq<char>) -> bool {
    a.len() >= 2 && a[0] == '-' && !is_digit(a[1])
}

pub open spec fn is_timeout_flag(a: Seq<char>) -> bool {
    a == "-t"@ || a == "--timeout"@
}

/// The position of the first `-t` or `--timeout` among `rest`.
pub open spec fn first_timeout_flag(rest: Seq<Seq<char>>) -> Option<int>
    decreases rest.len(),
{
    if rest.len() == 0 {
        None
    } else {
        match first_timeout_flag(rest.drop_last()) {
            Some(i) => Some(i),
            None => if is_timeout_flag(rest.last()) {
                Some(rest.len() - 1)
            } else {
                None
            },
        }
    }
}

/// Whether the argument `a` at position `k` is positional: no flag, and not
/// the value of the timeout flag at position `flag`.
pub open spec fn is_positional(a: Seq<char>, k: int, flag: Option<int>) -> bool {
    !is_flag(a) && flag != Some(k - 1)
}

/// The positional arguments among `rest`, in order, when the timeout flag
/// stands at `flag`.
pub open spec fn positionals(rest: Seq<Seq<char>>, flag: Option<int>) -> Seq<Seq<char>>
    decreases rest.len(),
{
    if rest.len() == 0 {
        Seq::empty()
    } else if is_positional(rest.last(), rest.len() - 1, flag) {
        positionals(rest.drop_last(), flag).push(rest.last())
    } else {
        positionals(rest.drop_last(), flag)
    }
}

/// The positional arguments of a command line `args`, program name first.
pub open spec fn positional_args(args: Seq<Seq<char>>) -> Seq<Seq<char>> {
    positionals(after_program(args), first_timeout_flag(after_program(args)))
}

/// The timeout that `rest` asks for: the value after the first timeout flag,
/// else the default.
pub open spec fn timeout_of(rest: Seq<Seq<char>>) -> Result<nat, ProbeError> {
    match first_timeout_flag(rest) {
        None => Ok(DEFAULT_TIMEOUT_SECS as nat),
        Some(i) => if i + 1 >= rest.len() {
            Err(ProbeError::BadTimeout)
        } else {
            match parse_unsigned(rest[i + 1], u64::MAX as nat) {
                Ok(t) => if t == 0 {
                    Err(ProbeError::BadTimeout)
                } else {
                    Ok(t)
                },
                Err(_) => Err(ProbeError::BadTimeout),
            }
        },
    }
}

/// The host, port and timeout that a command line `args` (program name
/// first) asks for, or the error it gives. Host and port are the first two
/// positional arguments; with fewer than two only the usage is due.
pub open spec fn config_of(args: Seq<Seq<char>>) -> Result<(Seq<char>, nat, nat), ProbeError> {
    let rest = after_program(args);
    let pos = positional_args(args);
    if pos.len() < 2 {
        Err(ProbeError::Usage)
    } else {
        match parse_unsigned(pos[1], u16::MAX as nat) {
            Err(e) => Err(ProbeError::BadPort(e)),
            Ok(p) => match timeout_of(rest) {
                Err(e) => Err(e),
                Ok(t) => Ok((pos[0], p, t)),
            },
        }
    }
}

/// Reads the command line `args`, program name first: the host and the port
/// as the first two positional arguments, and an optional `-t` / `--timeout`
/// followed by a number of seconds. Other flags are ignored.
pub fn parse_args(args: &Vec<String>) -> (r: Result<Config, ProbeError>)
    ensures
        match config_of(arg_texts(args@)) {
            Ok((host, port, timeout)) => r matches Ok(c) && c.host@ == host && c.port == port
                && c.timeout == timeout,
            Err(e) => r == Err::<Config, ProbeError>(e),
        },
        (r == Err::<Config, ProbeError>(ProbeError::Usage)) <==> positional_args(
            arg_texts(args@),
        ).len() < 2,
{
    let ghost rest = after_program(arg_texts(args@));
    let flag = find_timeout_flag(args);
    let pos = positional_indices(args, flag);
    let ghost f = first_timeout_flag(rest);
    assert(pos@.len() == positionals(rest, f).len());
    if pos.len() < 2 {
        return Err(ProbeError::Usage);
    }
    let port = match parse_port(args[pos[1]].as_str()) {
        Ok(p) => p,
        Err(e) => return Err(ProbeError::BadPort(e)),
    };
    let timeout = match parse_timeout(args, flag) {
        Ok(t) => t,
        Err(e) => return Err(e),
    };
    Ok(Config { host: args[pos[0]].clone(), port, timeout })
}

/// `flag`, an index into the `n` arguments, stands for position `k` of the
/// arguments after the program name.
pub open spec fn flag_at(flag: Option<usize>, k: Option<int>, n: nat) -> bool {
    match k {
        None => flag is None,
        Some(k) => flag matches Some(fi) && fi == k + 1 && fi < n,
    }
}

/// The index in `args` of the first timeout flag after the program name.
fn find_timeout_flag(args: &Vec<String>) -> (r: Option<usize>)
    ensures
        flag_at(r, first_timeout_flag(after_program(arg_texts(args@))), args@.len()),
{
    let ghost rest = after_program(arg_texts(args@));
    if args.len() == 0 {
        return None;
    }
    let short = String::from_str("-t");
    let long = String::from_str("--timeout");
    let mut i: usize = 1;
    assert(rest.take(0) =~= Seq::<Seq<char>>::empty());
    while i < args.len()
        invariant
            rest == after_program(arg_texts(args@)),
            rest.len() + 1 == args@.len(),
            1 <= i <= args@.len(),
            short@ == "-t"@,
            long@ == "--timeout"@,
            first_timeout_flag(rest.take(i - 1)) is None,
        decreases args@.len() - i,
    {
        assert(rest.take(i as int).drop_last() =~= rest.take(i - 1));
        assert(rest[i - 1] == args@[i as int]@);
        if args[i] == short || args[i] == long {
            assert(first_timeout_flag(rest) == Some(i - 1)) by {
                lemma_first_flag_extends(rest, (i - 1) as nat);
            }
            return Some(i);
        }
        i = i + 1;
    }
    assert(rest.take(i - 1) =~= rest);
    None
}

/// Whether `a` names a flag.
fn names_flag(a: &String) -> (r: bool)
    ensures
        r == is_flag(a@),
{
    let s = a.as_str();
    if s.unicode_len() < 2 || s.get_char(0) != '-' {
        return false;
    }
    let c = s.get_char(1);
    c < '0' || c > '9'
}

/// The indices in `args` of the positional arguments, in order.
fn positional_indices(args: &Vec<String>, flag: Option<usize>) -> (r: Vec<usize>)
    requires
        flag_at(flag, first_timeout_flag(after_program(arg_texts(args@))), args@.len()),
    ensures
        forall|m: int| 0 <= m < r@.len() ==> 1 <= #[trigger] r@[m] < args@.len(),
        r@.map_values(|k: usize| args@[k as int]@) == positionals(
            after_program(arg_texts(args@)),
            first_timeout_flag(after_program(arg_texts(args@))),
        ),
{
    let ghost rest = after_program(arg_texts(args@));
    let ghost f = first_timeout_flag(rest);
    let mut r: Vec<usize> = Vec::new();
    if args.len() == 0 {
        assert(r@.map_values(|k: usize| args@[k as int]@) =~= positionals(rest, f));
        return r;
    }
    let mut i: usize = 1;
    assert(rest.take(0) =~= Seq::<Seq<char>>::empty());
    assert(r@.map_values(|k: usize| args@[k as int]@) =~= positionals(rest.take(0), f));
    while i < args.len()
        invariant
            rest == after_program(arg_texts(args@)),
            rest.len() + 1 == args@.len(),
            f == first_timeout_flag(rest),
            flag_at(flag, f, args@.len()),
            1 <= i <= args@.len(),
            forall|m: int| 0 <= m < r@.len() ==> 1 <= #[trigger] r@[m] < args@.len(),
            r@.map_values(|k: usize| args@[k as int]@) == positionals(rest.take(i - 1), f),
        decreases args@.len() - i,
    {
        let ghost prefix = rest.take(i as int);
        assert(prefix.drop_last() =~= rest.take(i - 1));
        assert(prefix.last() == args@[i as int]@);
        let is_value = match flag {
            Some(fi) => i == fi + 1,
            None => false,
        };
        assert(is_value == (f == Some(i - 2)));
        let ghost before = r@;
        if !names_flag(&args[i]) && !is_value {
            r.push(i);
            assert(r@.map_values(|k: usize| args@[k as int]@) =~= before.map_values(
                |k: usize| args@[k as int]@,
            ).push(args@[i as int]@));
        }
        i = i + 1;
    }
    assert(rest.take(i - 1) =~= rest);
    r
}

/// The timeout that `args` ask for, given where their timeout flag stands.
fn parse_timeout(args: &Vec<String>, flag: Option<usize>) -> (r: Result<u64, ProbeError>)
    requires
        flag_at(flag, first_timeout_flag(after_program(arg_texts(args@))), args@.len()),
    ensures
        match timeout_of(after_program(arg_texts(args@))) {
            Ok(t) => r == Ok::<u64, ProbeError>(t as u64),
            Err(e) => r == Err::<u64, ProbeError>(e),
        },
{
    let ghost rest = after_program(arg_texts(args@));
    match flag {
        None => Ok(DEFAULT_TIMEOUT_SECS),
        Some(fi) => {
            if fi >= args.len() - 1 {
                return Err(ProbeError::BadTimeout);
            }
            assert(rest[fi as int] == args@[fi + 1]@);
            match parse_bounded(args[fi + 1].as_str(), u64::MAX) {
                Ok(t) => if t == 0 {
                    Err(ProbeError::BadTimeout)
                } else {
                    Ok(t)
                },
                Err(_) => Err(ProbeError::BadTimeout),
            }
        },
    }
}

/// A flag found first in a prefix of `rest` is the first in `rest`.
proof fn lemma_first_flag_extends(rest: Seq<Seq<char>>, i: nat)
    requires
        i < rest.len(),
        first_timeout_flag(rest.take(i as int + 1)) == Some(i as int),
    ensures
        first_timeout_flag(rest) == Some(i as int),
    decreases rest.len(),
{
    if i + 1 < rest.len() {
        assert(rest.drop_last().take(i as int + 1) =~= rest.take(i as int + 1));
        lemma_first_flag_extends(rest.drop_last(), i);
    } else {
        assert(rest.take(i as int + 1) =~= rest);
    }
}

} // verus!
