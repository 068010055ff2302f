//! The command line: which command the arguments name, and the values of
//! its arguments, each read in turn so that the first bad one decides.
use vstd::prelude::*;
use crate::abi::StressOp;
use crate::address::{address_bytes_error, address_from_text, address_value, is_address_text, EthAddress};
use vstd::utf8::encode_utf8;
use crate::hexcode::HexError;
use crate::numtext::{chars_of, parse_u64_text, parse_unsigned_text, result_as_nat, IntErrorKind};

verus! {

/// Why the command line was refused.
#[derive(Clone, Debug, PartialEq, Eq)]
pub enum CliError {
    /// No command was given.
    MissingCommand,
    /// The command is none of the known ones.
    UnknownCommand(String),
    /// The named argument is missing.
    MissingArgument(String),
    /// An address argument is no address text.
    InvalidAddress(HexError),
    /// An integer argument is no decimal `u64`.
    InvalidInteger(IntErrorKind),
}

/// A command with its arguments read.
#[derive(Clone, Debug, PartialEq, Eq)]
pub enum Command {
    /// Deploy the token contract.
    Deploy,
    /// Send token transfers to random recipients; `tps` is the rate as given.
    Spam { token: EthAddress, tps: String },
    /// Deploy the stress contract.
    DeployZkgasStress,
    /// Call a stress operation with `iters` iterations; `tps` is the rate as given.
    Stress { op: StressOp, stress: EthAddress, iters: u64, tps: String },
    /// Read a token balance.
    Balance { token: EthAddress, owner: EthAddress },
    /// Show a block.
    Block { number: u64 },
}

/// The `i`-th argument, if there is one.
pub open spec fn arg_at(args: Seq<String>, i: int) -> Option<String> {
    if 0 <= i < args.len() { Some(args[i]) } else { None }
}

/// `e` reports the argument `name` as missing.
pub open spec fn is_missing(e: CliError, name: Seq<char>) -> bool {
    e matches CliError::MissingArgument(n) && n@ == name
}

/// An address argument that can be read.
pub open spec fn address_arg_valid(v: Option<String>) -> bool {
    v matches Some(s) && is_address_text(s@)
}

/// The error of an address argument that cannot be read.
pub open spec fn address_arg_error(v: Option<String>, name: Seq<char>, e: CliError) -> bool {
    match v {
        None => is_missing(e, name),
        Some(s) => e matches CliError::InvalidAddress(h) && address_bytes_error(encode_utf8(s@)) == Some(h),
    }
}

/// A decimal `u64` argument that can be read.
pub open spec fn u64_arg_valid(v: Option<String>) -> bool {
    v matches Some(s) && parse_u64_text(s@) is Ok
}

/// The value of a readable decimal `u64` argument.
pub open spec fn u64_arg_value(v: Option<String>) -> nat {
    match v {
        Some(s) => match parse_u64_text(s@) {
            Ok(n) => n,
            Err(_) => 0,
        },
        None => 0,
    }
}

/// The error of a decimal `u64` argument that cannot be read.
pub open spec fn u64_arg_error(v: Option<String>, name: Seq<char>, e: CliError) -> bool {
    match v {
        None => is_missing(e, name),
        Some(s) => match parse_u64_text(s@) {
            Err(k) => e == CliError::InvalidInteger(k),
            Ok(_) => false,
        },
    }
}

/// The stress operation that a command name stands for.
pub open spec fn stress_command(c: Seq<char>) -> Option<StressOp> {
    if c == "spam-add"@ {
        Some(StressOp::Add)
    } else if c == "spam-mulmod"@ {
        Some(StressOp::Mulmod)
    } else if c == "spam-keccak"@ {
        Some(StressOp::Keccak)
    } else if c == "spam-ecrecover"@ {
        Some(StressOp::Ecrecover)
    } else if c == "spam-blake2f"@ {
        Some(StressOp::Blake2f)
    } else if c == "spam-modexp"@ {
        Some(StressOp::Modexp)
    } else {
        None
    }
}

/// What the command line `args` (the program's name left out) asks for.
pub open spec fn command_outcome(args: Seq<String>, r: Result<Command, CliError>) -> bool {
    if args.len() == 0 {
        r == Err::<Command, CliError>(CliError::MissingCommand)
    } else {
        let c = args[0]@;
        let a1 = arg_at(args, 1);
        let a2 = arg_at(args, 2);
        let a3 = arg_at(args, 3);
        if c == "deploy"@ {
            r == Ok::<Command, CliError>(Command::Deploy)
        } else if c == "deploy-zkgas-stress"@ {
            r == Ok::<Command, CliError>(Command::DeployZkgasStress)
        } else if c == "spam"@ {
            if !address_arg_valid(a1) {
                r matches Err(e) && address_arg_error(a1, "token_address"@, e)
            } else if a2 is None {
                r matches Err(e) && is_missing(e, "tps"@)
            } else {
                r matches Ok(Command::Spam { token, tps }) && token.bytes@ == address_value(a1->0@)
                    && tps == a2->0
            }
        } else if stress_command(c) is Some {
            if !address_arg_valid(a1) {
                r matches Err(e) && address_arg_error(a1, "stress_address"@, e)
            } else if !u64_arg_valid(a2) {
                r matches Err(e) && u64_arg_error(a2, "iters"@, e)
            } else if a3 is None {
                r matches Err(e) && is_missing(e, "tps"@)
            } else {
                r matches Ok(Command::Stress { op, stress, iters, tps }) && op == stress_command(c)->0
                    && stress.bytes@ == address_value(a1->0@) && iters == u64_arg_value(a2)
                    && tps == a3->0
            }
        } else if c == "balance"@ {
            if !address_arg_valid(a1) {
                r matches Err(e) && address_arg_error(a1, "token_address"@, e)
            } else if !address_arg_valid(a2) {
                r matches Err(e) && address_arg_error(a2, "owner_address"@, e)
            } else {
                r matches Ok(Command::Balance { token, owner }) && token.bytes@ == address_value(a1->0@)
                    && owner.bytes@ == address_value(a2->0@)
            }
        } else if c == "block"@ {
            if !u64_arg_valid(a1) {
                r matches Err(e) && u64_arg_error(a1, "block_number"@, e)
            } else {
                r matches Ok(Command::Block { number }) && number == u64_arg_value(a1)
            }
        } else {
            r matches Err(CliError::UnknownCommand(u)) && u@ == c
        }
    }
}

/// The numbers of a parsed command are its arguments read as decimal
/// `u64`s, unchanged: a stress command's iterations are its third argument
/// and a block command's number its second, for every value.
pub proof fn command_numbers_are_the_arguments(args: Seq<String>, r: Result<Command, CliError>)
    requires
        command_outcome(args, r),
    ensures
        r matches Ok(Command::Stress { iters, .. }) ==> args.len() >= 3
            && parse_u64_text(args[2]@) == Ok::<nat, IntErrorKind>(iters as nat),
        r matches Ok(Command::Block { number }) ==> args.len() >= 2
            && parse_u64_text(args[1]@) == Ok::<nat, IntErrorKind>(number as nat),
{
}

/// Whether two texts are the same characters.
pub fn text_equals(a: &str, b: &str) -> (eq: bool)
    ensures
        eq == (a@ == b@),
{
    let x = chars_of(a);
    let y = chars_of(b);
    if x.len() != y.len() {
        return false;
    }
    for i in 0..x.len()
        invariant
            x@ == a@,
            y@ == b@,
            x@.len() == y@.len(),
            forall|j: int| 0 <= j < i ==> x@[j] == y@[j],
    {
        if x[i] != y[i] {
            return false;
        }
    }
    assert(a@ =~= b@);
    true
}

/// A decimal `u64` argument.
pub fn parse_u64_arg(value: Option<String>, name: &str) -> (res: Result<u64, CliError>)
    ensures
        match value {
            None => res matches Err(e) && is_missing(e, name@),
            Some(s) => match parse_u64_text(s@) {
                Ok(n) => res == Ok::<u64, CliError>(n as u64),
                Err(k) => res == Err::<u64, CliError>(CliError::InvalidInteger(k)),
            },
        },
{
    match value {
        None => Err(CliError::MissingArgument(name.to_owned())),
        Some(s) => {
            let r = parse_unsigned_text(s.as_str(), 10, u64::MAX as u128);
            assert(result_as_nat(r) == parse_u64_text(s@));
            match r {
                Ok(n) => Ok(n as u64),
                Err(k) => Err(CliError::InvalidInteger(k)),
            }
        },
    }
}

/// An address argument.
pub fn parse_address_arg(value: Option<String>, name: &str) -> (res: Result<EthAddress, CliError>)
    ensures
        match value {
            None => res matches Err(e) && is_missing(e, name@),
            Some(s) => if is_address_text(s@) {
                res matches Ok(a) && a.bytes@ == address_value(s@)
            } else {
                res matches Err(CliError::InvalidAddress(h)) && address_bytes_error(encode_utf8(s@)) == Some(h)
            },
        },
{
    match value {
        None => Err(CliError::MissingArgument(name.to_owned())),
        Some(s) => match address_from_text(s.as_str()) {
            Ok(a) => Ok(a),
            Err(e) => Err(CliError::InvalidAddress(e)),
        },
    }
}

/// The `i`-th argument, cloned, if there is one.
fn arg(args: &Vec<String>, i: usize) -> (v: Option<String>)
    ensures
        v == arg_at(args@, i as int),
{
    if i < args.len() {
        Some(args[i].clone())
    } else {
        None
    }
}

/// The stress operation that a command name stands for.
fn stress_op_named(c: &str) -> (op: Option<StressOp>)
    ensures
        op == stress_command(c@),
{
    if text_equals(c, "spam-add") {
        Some(StressOp::Add)
    } else if text_equals(c, "spam-mulmod") {
        Some(StressOp::Mulmod)
    } else if text_equals(c, "spam-keccak") {
        Some(StressOp::Keccak)
    } else if text_equals(c, "spam-ecrecover") {
        Some(StressOp::Ecrecover)
    } else if text_equals(c, "spam-blake2f") {
        Some(StressOp::Blake2f)
    } else if text_equals(c, "spam-modexp") {
        Some(StressOp::Modexp)
    } else {
        None
    }
}

/// The text argument `name` at position `i`, which must be there.
fn required_text(args: &Vec<String>, i: usize, name: &str) -> (res: Result<String, CliError>)
    ensures
        match arg_at(args@, i as int) {
            Some(s) => res == Ok::<String, CliError>(s),
            None => res matches Err(e) && is_missing(e, name@),
        },
{
    match arg(args, i) {
        Some(s) => Ok(s),
        None => Err(CliError::MissingArgument(name.to_owned())),
    }
}

/// Reads the command line (the program's name left out).
pub fn parse_command(args: &Vec<String>) -> (res: Result<Command, CliError>)
    ensures
        command_outcome(args@, res),
{
    if args.len() == 0 {
        return Err(CliError::MissingCommand);
    }
    let c = args[0].as_str();
    if text_equals(c, "deploy") {
        Ok(Command::Deploy)
    } else if text_equals(c, "deploy-zkgas-stress") {
        Ok(Command::DeployZkgasStress)
    } else if text_equals(c, "spam") {
        let token = match parse_address_arg(arg(args, 1), "token_address") {
            Ok(a) => a,
            Err(e) => return Err(e),
        };
        let tps = match required_text(args, 2, "tps") {
            Ok(t) => t,
            Err(e) => return Err(e),
        };
        Ok(Command::Spam { token, tps })
    } else if let Some(op) = stress_op_named(c) {
        let stress = match parse_address_arg(arg(args, 1), "stress_address") {
            Ok(a) => a,
            Err(e) => return Err(e),
        };
        let iters: u64 = match parse_u64_arg(arg(args, 2), "iters") {
            Ok(n) => n,
            Err(e) => return Err(e),
        };
        let tps = match required_text(args, 3, "tps") {
            Ok(t) => t,
            Err(e) => return Err(e),
        };
        Ok(Command::Stress { op, stress, iters, tps })
    } else if text_equals(c, "balance") {
        let token = match parse_address_arg(arg(args, 1), "token_address") {
            Ok(a) => a,
            Err(e) => return Err(e),
        };
        let owner = match parse_address_arg(arg(args, 2), "owner_address") {
            Ok(a) => a,
            Err(e) => return Err(e),
        };
        Ok(Command::Balance { token, owner })
    } else if text_equals(c, "block") {
        let number: u64 = match parse_u64_arg(arg(args, 1), "block_number") {
            Ok(n) => n,
            Err(e) => return Err(e),
        };
        Ok(Command::Block { number })
    } else {
        Err(CliError::UnknownCommand(c.to_owned()))
    }
}

} // verus!
