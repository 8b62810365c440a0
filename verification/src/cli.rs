//! Command-line arguments of the server: `--port <port>`.

use crate::text::{decimal_u16, parse_u16, text_eq};
use vstd::prelude::*;

verus! {

/// What the command line asks for.
#[derive(Clone, Copy, Debug, PartialEq, Eq, Structural)]
pub struct Args {
    /// The TCP port to listen on.
    pub port: u16,
}

/// Why a command line was turned down. An `index` counts the arguments from
/// zero, the program's own name not among them.
#[derive(Clone, Copy, Debug, PartialEq, Eq, Structural)]
pub enum ArgsError {
    /// The argument at `index` stands where an option is expected and is not `--port`.
    UnknownOption { index: usize },
    /// `--port` is the last argument: its value is missing.
    MissingValue,
    /// The argument at `index` follows `--port` and is not a port number.
    InvalidPort { index: usize },
    /// No `--port` was given at all.
    MissingPort,
}

/// The one option the server knows.
pub open spec fn port_option() -> Seq<char> {
    "--port"@
}

/// Reading of the arguments from position `at` on, with `port` the port that
/// the arguments before `at` gave. Options are read left to right; the first
/// argument that does not fit decides the error, and a later `--port`
/// replaces an earlier one.
pub open spec fn read_from(args: Seq<String>, at: int, port: Option<u16>) -> Result<
    Args,
    ArgsError,
>
    decreases args.len() - at,
{
    if at < 0 || at >= args.len() {
        match port {
            Some(p) => Ok(Args { port: p }),
            None => Err(ArgsError::MissingPort),
        }
    } else if args[at]@ != port_option() {
        Err(ArgsError::UnknownOption { index: at as usize })
    } else if at + 1 >= args.len() {
        Err(ArgsError::MissingValue)
    } else {
        match decimal_u16(args[at + 1]@) {
            Some(p) => read_from(args, at + 2, Some(p)),
            None => Err(ArgsError::InvalidPort { index: (at + 1) as usize }),
        }
    }
}

/// Whether the arguments from `at` on are `--port` and port number in turn.
pub open spec fn option_pairs_from(args: Seq<String>, at: int) -> bool {
    &&& (args.len() - at) % 2 == 0
    &&& forall|j: int|
        at <= j < args.len() ==> if (j - at) % 2 == 0 {
            (#[trigger] args[j])@ == port_option()
        } else {
            decimal_u16(args[j]@) is Some
        }
}

impl Args {
    /// What a command line means: see [`read_from`].
    pub open spec fn read(args: Seq<String>) -> Result<Args, ArgsError> {
        read_from(args, 0, None)
    }

    /// Reads the arguments that follow the program's name.
    pub fn parse(args: &Vec<String>) -> (r: Result<Args, ArgsError>)
        ensures
            r == Args::read(args@),
    {
        let mut port: Option<u16> = None;
        let mut i: usize = 0;
        while i < args.len()
            invariant
                i <= args.len(),
                Args::read(args@) == read_from(args@, i as int, port),
            decreases args.len() - i,
        {
            if !text_eq(args[i].as_str(), "--port") {
                return Err(ArgsError::UnknownOption { index: i });
            }
            if i + 1 >= args.len() {
                return Err(ArgsError::MissingValue);
            }
            match parse_u16(args[i + 1].as_str()) {
                Some(p) => {
                    port = Some(p);
                },
                None => {
                    return Err(ArgsError::InvalidPort { index: i + 1 });
                },
            }
            i += 2;
        }
        match port {
            Some(p) => Ok(Args { port: p }),
            None => Err(ArgsError::MissingPort),
        }
    }

    /// The one-line help text.
    pub fn usage() -> (text: &'static str)
        ensures
            text@ == "Usage: myip --port <port>"@,
    {
        "Usage: myip --port <port>"
    }
}

/// A reading that starts at `at` succeeds exactly when what follows is a row
/// of `--port` and port number pairs and some port is known in the end; the
/// port is then the last one given.
pub proof fn lemma_read_from_accepts(args: Seq<String>, at: int, port: Option<u16>)
    requires
        0 <= at <= args.len(),
        args.len() <= usize::MAX,
    ensures
        read_from(args, at, port) is Ok <==> option_pairs_from(args, at) && (port is Some || at
            < args.len()),
        read_from(args, at, port) matches Ok(found) ==> Some(found.port) == (if at < args.len() {
            decimal_u16(args.last()@)
        } else {
            port
        }),
    decreases args.len() - at,
{
    if at >= args.len() {
    } else if args[at]@ != port_option() {
    } else if at + 1 >= args.len() {
    } else {
        match decimal_u16(args[at + 1]@) {
            Some(p) => {
                lemma_read_from_accepts(args, at + 2, Some(p));
                if option_pairs_from(args, at + 2) {
                    assert forall|j: int| at <= j < args.len() implies if (j - at) % 2 == 0 {
                        (#[trigger] args[j])@ == port_option()
                    } else {
                        decimal_u16(args[j]@) is Some
                    } by {
                        if j >= at + 2 {
                            assert((j - (at + 2)) % 2 == (j - at) % 2);
                        }
                    }
                }
                if option_pairs_from(args, at) {
                    assert forall|j: int| at + 2 <= j < args.len() implies if (j - (at + 2)) % 2
                        == 0 {
                        (#[trigger] args[j])@ == port_option()
                    } else {
                        decimal_u16(args[j]@) is Some
                    } by {
                        assert((j - (at + 2)) % 2 == (j - at) % 2);
                    }
                }
            },
            None => {
                let j = at + 1;
                assert((j - at) % 2 == 1);
                assert(decimal_u16(args[j]@) is None);
            },
        }
    }
}

/// A command line is accepted exactly when it is a non-empty row of `--port`
/// and port number pairs, and the port it yields is the last one given.
pub proof fn lemma_read_accepts(args: Seq<String>)
    requires
        args.len() <= usize::MAX,
    ensures
        Args::read(args) is Ok <==> args.len() > 0 && option_pairs_from(args, 0),
        Args::read(args) matches Ok(found) ==> Some(found.port) == decimal_u16(args.last()@),
{
    lemma_read_from_accepts(args, 0, None);
}

} // verus!
