//! Validation of the command line: the scan range is either implicit (the
//! whole port space) or given as two decimal port numbers.

use vstd::prelude::*;

verus! {

/// Why a command line was rejected.
#[derive(Clone, Copy, Debug, PartialEq, Eq, Structural)]
pub enum ArgError {
    /// The first port argument is not a decimal number in `0..=65535`.
    InvalidStart,
    /// The second port argument is not a decimal number in `0..=65535`.
    InvalidEnd,
    /// Both ports parsed, but the start exceeds the end.
    InvertedRange,
    /// The argument count is neither one (program name alone) nor three.
    WrongCount,
}

impl ArgError {
    /// The error text shown to the user, one fixed line per variant.
    pub fn message(&self) -> (r: &'static str)
        ensures
            *self == ArgError::InvalidStart ==> r@ == "Invalid starting port"@,
            *self == ArgError::InvalidEnd ==> r@ == "Invalid ending port"@,
            *self == ArgError::InvertedRange ==> r@
                == "Starting port must be less than or equal to ending port"@,
            *self == ArgError::WrongCount ==> r@
                == "Usage: simple-port-scanner [start_port end_port]"@,
    {
        match self {
            ArgError::InvalidStart => "Invalid starting port",
            ArgError::InvalidEnd => "Invalid ending port",
            ArgError::InvertedRange => "Starting port must be less than or equal to ending port",
            ArgError::WrongCount => "Usage: simple-port-scanner [start_port end_port]",
        }
    }
}

/// The byte is an ASCII decimal digit.
pub open spec fn is_dec_digit(b: u8) -> bool {
    48 <= b && b <= 57
}

/// Every byte of the sequence is an ASCII decimal digit.
pub open spec fn all_dec_digits(s: Seq<u8>) -> bool {
    forall|i: int| 0 <= i < s.len() ==> is_dec_digit(s[i])
}

/// The number that a sequence of ASCII digits denotes in base ten.
pub open spec fn dec_value(s: Seq<u8>) -> int
    decreases s.len(),
{
    if s.len() == 0 {
        0
    } else {
        dec_value(s.drop_last()) * 10 + (s.last() - 48)
    }
}

/// What parsing one port argument yields: the denoted number, if the bytes
/// are a non-empty run of decimal digits whose value fits in a port number.
pub open spec fn parse_port_spec(s: Seq<u8>) -> Option<u16> {
    if s.len() > 0 && all_dec_digits(s) && dec_value(s) <= 65535 {
        Some(dec_value(s) as u16)
    } else {
        None
    }
}

proof fn lemma_dec_value_nonneg(s: Seq<u8>)
    requires
        all_dec_digits(s),
    ensures
        dec_value(s) >= 0,
    decreases s.len(),
{
    if s.len() > 0 {
        assert(all_dec_digits(s.drop_last()));
        lemma_dec_value_nonneg(s.drop_last());
    }
}

/// Appending digits never decreases the denoted value.
proof fn lemma_dec_value_prefix_le(s: Seq<u8>, i: int)
    requires
        all_dec_digits(s),
        0 <= i <= s.len(),
    ensures
        dec_value(s.take(i)) <= dec_value(s),
    decreases s.len() - i,
{
    if i == s.len() {
        assert(s.take(i) =~= s);
    } else {
        assert(all_dec_digits(s.take(i)));
        lemma_dec_value_nonneg(s.take(i));
        assert(s.take(i + 1).drop_last() =~= s.take(i));
        assert(dec_value(s.take(i)) <= dec_value(s.take(i + 1)));
        lemma_dec_value_prefix_le(s, i + 1);
    }
}

/// Parses one port argument: a non-empty run of ASCII decimal digits whose
/// value is at most 65535. Anything else is rejected.
pub fn parse_port(s: &[u8]) -> (r: Option<u16>)
    ensures
        r == parse_port_spec(s@),
{
    if s.len() == 0 {
        return None;
    }
    let mut acc: u32 = 0;
    let mut i: usize = 0;
    while i < s.len()
        invariant
            0 <= i <= s@.len(),
            all_dec_digits(s@.take(i as int)),
            acc == dec_value(s@.take(i as int)),
            acc <= 65535,
        decreases s@.len() - i,
    {
        let b = s[i];
        if b < 48 || b > 57 {
            assert(!is_dec_digit(s@[i as int]));
            return None;
        }
        let next: u32 = acc * 10 + (b - 48) as u32;
        proof {
            assert(s@.take(i + 1).drop_last() =~= s@.take(i as int));
            assert(s@.take(i + 1).last() == s@[i as int]);
        }
        if next > 65535 {
            proof {
                if all_dec_digits(s@) {
                    lemma_dec_value_prefix_le(s@, i + 1);
                }
            }
            return None;
        }
        acc = next;
        i = i + 1;
    }
    proof {
        assert(s@.take(s@.len() as int) =~= s@);
    }
    Some(acc as u16)
}

/// What validating the whole command line yields. The first entry is the
/// program name; one entry means the full port space, three mean an explicit
/// inclusive range, any other count is a usage error.
pub open spec fn parse_args_spec(args: Seq<Seq<u8>>) -> Result<(u16, u16), ArgError> {
    if args.len() == 1 {
        Ok((1u16, 65535u16))
    } else if args.len() == 3 {
        match parse_port_spec(args[1]) {
            Option::None => Err(ArgError::InvalidStart),
            Option::Some(start) => match parse_port_spec(args[2]) {
                Option::None => Err(ArgError::InvalidEnd),
                Option::Some(end) => if start <= end {
                    Ok((start, end))
                } else {
                    Err(ArgError::InvertedRange)
                },
            },
        }
    } else {
        Err(ArgError::WrongCount)
    }
}

/// Validates the command line, program name included, and returns the
/// inclusive port range to scan or the reason the input is rejected.
pub fn parse_args(args: &Vec<Vec<u8>>) -> (r: Result<(u16, u16), ArgError>)
    ensures
        r == parse_args_spec(args.deep_view()),
{
    if args.len() == 1 {
        Ok((1, 65535))
    } else if args.len() == 3 {
        proof {
            assert(args.deep_view()[1] == args@[1]@);
            assert(args.deep_view()[2] == args@[2]@);
        }
        let start = match parse_port(args[1].as_slice()) {
            Option::Some(p) => p,
            Option::None => {
                return Err(ArgError::InvalidStart);
            },
        };
        let end = match parse_port(args[2].as_slice()) {
            Option::Some(p) => p,
            Option::None => {
                return Err(ArgError::InvalidEnd);
            },
        };
        if start <= end {
            Ok((start, end))
        } else {
            Err(ArgError::InvertedRange)
        }
    } else {
        Err(ArgError::WrongCount)
    }
}

} // verus!
