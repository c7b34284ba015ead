//! Sub-role selection from the command line.
//!
//! One executable serves three roles: with no sub-command it supervises;
//! `mount-fuse` runs the filesystem server; `pipe-back <PID>` runs the
//! publisher against the server with that pid.  Reading the process's
//! arguments is the surrounding program's job; the decoding of the raw
//! argument bytes is here.

use vstd::prelude::*;

use crate::bytes::bytes_eq;

verus! {

/// The parsed invocation: which sub-role, if any.
#[derive(Debug)]
pub struct Args {
    pub op: Option<Operation>,
}

/// A sub-role with its arguments.
#[derive(Debug)]
pub enum Operation {
    MountFuse,
    PipeBack(PipeBackArgs),
}

/// A sub-role by itself, for re-invoking the executable.
#[derive(Debug, Clone, Copy, PartialEq, Eq, Structural)]
pub enum OperationType {
    MountFuse,
    PipeBack,
}

/// The publisher's argument: the filesystem server's pid.
#[derive(Debug, Clone, Copy, PartialEq, Eq, Structural)]
pub struct PipeBackArgs {
    pub pid: i32,
}

/// Why an invocation was refused.
#[derive(Debug, Clone, Copy, PartialEq, Eq, Structural)]
pub enum CliError {
    /// The first positional argument names no sub-role.
    UnknownCommand,
    /// Too many arguments, or a missing pid.
    BadArity,
    /// The pid argument is not a number an `i32` holds.
    BadPid,
}

/// The bytes of the `mount-fuse` sub-command.
pub open spec fn mount_fuse_cmd() -> Seq<u8> {
    seq![109u8, 111u8, 117u8, 110u8, 116u8, 45u8, 102u8, 117u8, 115u8, 101u8]
}

/// The bytes of the `pipe-back` sub-command.
pub open spec fn pipe_back_cmd() -> Seq<u8> {
    seq![112u8, 105u8, 112u8, 101u8, 45u8, 98u8, 97u8, 99u8, 107u8]
}

/// The value of a run of decimal digits.
pub open spec fn dec_value(s: Seq<u8>) -> int
    decreases s.len(),
{
    if s.len() == 0 {
        0
    } else {
        dec_value(s.drop_last()) * 10 + (s.last() - 48)
    }
}

/// A non-empty run of decimal digits.
pub open spec fn is_digits(s: Seq<u8>) -> bool {
    s.len() > 0 && forall|k: int| 0 <= k < s.len() ==> 48 <= #[trigger] s[k] <= 57
}

/// What a pid argument decodes to: an optional `-`, then digits, valued in
/// the range of `i32`.
pub open spec fn parse_i32_spec(s: Seq<u8>) -> Option<i32> {
    if s.len() > 0 && s[0] == 45 {
        if is_digits(s.skip(1)) && dec_value(s.skip(1)) <= 0x8000_0000 {
            Some((-dec_value(s.skip(1))) as i32)
        } else {
            None
        }
    } else {
        if is_digits(s) && dec_value(s) <= 0x7FFF_FFFF {
            Some(dec_value(s) as i32)
        } else {
            None
        }
    }
}

/// A digit run's value is never negative.
proof fn lemma_dec_value_nonneg(s: Seq<u8>)
    requires
        forall|k: int| 0 <= k < s.len() ==> 48 <= #[trigger] s[k] <= 57,
    ensures
        dec_value(s) >= 0,
    decreases s.len(),
{
    if s.len() > 0 {
        lemma_dec_value_nonneg(s.drop_last());
    }
}

/// Decodes a run of decimal digits starting at `from`, reporting the exact
/// value when it fits alongside a 32-bit range, or that it overflows.
fn scan_digits(s: &Vec<u8>, from: usize) -> (r: Option<i64>)
    requires
        from <= s.len(),
    ensures
        match r {
            Some(v) => is_digits(s@.skip(from as int)) && (dec_value(s@.skip(from as int))
                <= 0xFFFF_FFFF ==> v == dec_value(s@.skip(from as int))) && (dec_value(
                s@.skip(from as int),
            ) > 0xFFFF_FFFF ==> v > 0xFFFF_FFFF),
            None => !is_digits(s@.skip(from as int)),
        },
{
    let n = s.len();
    if from == n {
        return None;
    }
    let mut acc: i64 = 0;
    let mut i: usize = from;
    while i < n
        invariant
            from <= i <= n,
            n == s.len(),
            forall|k: int| from <= k < i ==> 48 <= #[trigger] s@[k] <= 57,
            0 <= acc <= 0xFFFF_FFFF * 10 + 9,
            dec_value(s@.subrange(from as int, i as int)) <= 0xFFFF_FFFF ==> acc == dec_value(
                s@.subrange(from as int, i as int),
            ),
            dec_value(s@.subrange(from as int, i as int)) > 0xFFFF_FFFF ==> acc > 0xFFFF_FFFF,
        decreases n - i,
    {
        let b = s[i];
        if b < 48 || b > 57 {
            proof {
                assert(s@.skip(from as int)[i - from] == s@[i as int]);
                assert(!is_digits(s@.skip(from as int)));
            }
            return None;
        }
        proof {
            lemma_dec_value_nonneg(s@.subrange(from as int, i as int));
            assert(s@.subrange(from as int, i + 1).drop_last() =~= s@.subrange(
                from as int,
                i as int,
            ));
        }
        if acc <= 0xFFFF_FFFF {
            acc = acc * 10 + (b - 48) as i64;
        }
        i = i + 1;
    }
    proof {
        assert(s@.subrange(from as int, n as int) =~= s@.skip(from as int));
    }
    Some(acc)
}

/// Decodes a pid argument: an optional `-`, then decimal digits, valued in
/// the range of `i32`.
pub fn parse_i32(s: &Vec<u8>) -> (r: Option<i32>)
    ensures
        r == parse_i32_spec(s@),
{
    let neg = s.len() > 0 && s[0] == 45;
    let start: usize = if neg {
        1
    } else {
        0
    };
    proof {
        if !neg {
            assert(s@.skip(0) =~= s@);
        }
    }
    match scan_digits(s, start) {
        Some(v) => {
            proof {
                lemma_dec_value_nonneg(s@.skip(start as int));
            }
            if neg {
                if v <= 0x8000_0000 {
                    Some((-v) as i32)
                } else {
                    None
                }
            } else {
                if v <= 0x7FFF_FFFF {
                    Some(v as i32)
                } else {
                    None
                }
            }
        },
        None => None,
    }
}

/// Builds the `mount-fuse` sub-command bytes.
fn mount_fuse_bytes() -> (r: Vec<u8>)
    ensures
        r@ == mount_fuse_cmd(),
{
    let mut v: Vec<u8> = Vec::new();
    v.push(109);
    v.push(111);
    v.push(117);
    v.push(110);
    v.push(116);
    v.push(45);
    v.push(102);
    v.push(117);
    v.push(115);
    v.push(101);
    proof {
        assert(v@ =~= mount_fuse_cmd());
    }
    v
}

/// Builds the `pipe-back` sub-command bytes.
fn pipe_back_bytes() -> (r: Vec<u8>)
    ensures
        r@ == pipe_back_cmd(),
{
    let mut v: Vec<u8> = Vec::new();
    v.push(112);
    v.push(105);
    v.push(112);
    v.push(101);
    v.push(45);
    v.push(98);
    v.push(97);
    v.push(99);
    v.push(107);
    proof {
        assert(v@ =~= pipe_back_cmd());
    }
    v
}

/// Decodes the process arguments (the executable name first) into the
/// sub-role to run.  No sub-command selects the supervisor; `mount-fuse`
/// the server; `pipe-back <PID>` the publisher.  Anything else, a wrong
/// argument count, or an out-of-range pid is refused.
pub fn parse_args(args: &Vec<Vec<u8>>) -> (r: Result<Args, CliError>)
    ensures
        args@.len() <= 1 ==> (r matches Ok(a) && a.op is None),
        args@.len() >= 2 && args@[1]@ == mount_fuse_cmd() ==> if args@.len() == 2 {
            r matches Ok(a) && (a.op matches Some(op) && op is MountFuse)
        } else {
            r == Err::<Args, CliError>(CliError::BadArity)
        },
        args@.len() >= 2 && args@[1]@ == pipe_back_cmd() ==> if args@.len() == 3 {
            match parse_i32_spec(args@[2]@) {
                Some(pid) => r matches Ok(a) && (a.op matches Some(op) && (op matches
                Operation::PipeBack(pb) && pb.pid == pid)),
                None => r == Err::<Args, CliError>(CliError::BadPid),
            }
        } else {
            r == Err::<Args, CliError>(CliError::BadArity)
        },
        args@.len() >= 2 && args@[1]@ != mount_fuse_cmd() && args@[1]@ != pipe_back_cmd() ==> r
            == Err::<Args, CliError>(CliError::UnknownCommand),
{
    if args.len() <= 1 {
        return Ok(Args { op: None });
    }
    let mf = mount_fuse_bytes();
    let pb = pipe_back_bytes();
    if bytes_eq(&args[1], &mf) {
        if args.len() == 2 {
            Ok(Args { op: Some(Operation::MountFuse) })
        } else {
            Err(CliError::BadArity)
        }
    } else if bytes_eq(&args[1], &pb) {
        if args.len() == 3 {
            match parse_i32(&args[2]) {
                Some(pid) => Ok(Args { op: Some(Operation::PipeBack(PipeBackArgs { pid })) }),
                None => Err(CliError::BadPid),
            }
        } else {
            Err(CliError::BadArity)
        }
    } else {
        Err(CliError::UnknownCommand)
    }
}

} // verus!
