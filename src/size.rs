//! Sizes tagged with a decimal unit, read from an argument list and
//! converted to bytes.
//!
//! Conversion is checked: an amount whose byte count does not fit in 64 bits
//! gives `SizeError::AmountOverflow` instead of a wrapped value.
use vstd::prelude::*;
use crate::decimal::{decimal_text, digits_value, is_u64_text, lemma_decimal_text_is_u64_text, parse_u64, unsigned_digits};

verus! {

/// An amount together with the unit it is counted in (1 KB = 1000 bytes).
#[derive(Clone, Copy, Debug, PartialEq, Eq, Structural)]
pub enum Filesize {
    Bytes(u64),
    Kilobytes(u64),
    Megabytes(u64),
    Gigabytes(u64),
    Terabytes(u64),
}

/// Why an argument list gives no size, or a size no byte count.
#[derive(Clone, Copy, Debug, PartialEq, Eq, Structural)]
pub enum SizeError {
    /// Fewer than two arguments: no amount was given.
    InsufficientArguments,
    /// The amount is not a non-negative base-10 integer that fits in 64 bits.
    InvalidAmount,
    /// The byte count of the size does not fit in 64 bits.
    AmountOverflow,
}

impl Filesize {
    /// The amount, in the size's own unit.
    pub open spec fn amount(self) -> u64 {
        match self {
            Filesize::Bytes(a) => a,
            Filesize::Kilobytes(a) => a,
            Filesize::Megabytes(a) => a,
            Filesize::Gigabytes(a) => a,
            Filesize::Terabytes(a) => a,
        }
    }

    /// How many bytes one of the size's unit holds.
    pub open spec fn multiplier(self) -> nat {
        match self {
            Filesize::Bytes(_) => 1,
            Filesize::Kilobytes(_) => 1_000,
            Filesize::Megabytes(_) => 1_000_000,
            Filesize::Gigabytes(_) => 1_000_000_000,
            Filesize::Terabytes(_) => 1_000_000_000_000,
        }
    }

    /// The size in bytes, unbounded.
    pub open spec fn byte_total(self) -> nat {
        (self.amount() as nat) * self.multiplier()
    }
}

/// The unit suffix `<letter>b`.
pub open spec fn suffix(letter: char) -> Seq<char> {
    seq![letter, 'b']
}

/// One of the suffixes `kb`, `mb`, `gb`, `tb`.
pub open spec fn is_known_unit(unit: Seq<char>) -> bool {
    unit == suffix('k') || unit == suffix('m') || unit == suffix('g') || unit == suffix('t')
}

/// The size of `amount` in the unit that `unit` names; no unit, or one that
/// is not recognised, means bytes.
pub open spec fn size_in_unit(amount: u64, unit: Option<Seq<char>>) -> Filesize {
    match unit {
        Some(u) => if u == suffix('k') {
            Filesize::Kilobytes(amount)
        } else if u == suffix('m') {
            Filesize::Megabytes(amount)
        } else if u == suffix('g') {
            Filesize::Gigabytes(amount)
        } else if u == suffix('t') {
            Filesize::Terabytes(amount)
        } else {
            Filesize::Bytes(amount)
        },
        None => Filesize::Bytes(amount),
    }
}

/// Bytes per unit for an optional unit suffix.
pub open spec fn unit_multiplier(unit: Option<Seq<char>>) -> nat {
    match unit {
        Some(u) => if u == suffix('k') {
            1_000
        } else if u == suffix('m') {
            1_000_000
        } else if u == suffix('g') {
            1_000_000_000
        } else if u == suffix('t') {
            1_000_000_000_000
        } else {
            1
        },
        None => 1,
    }
}

/// What an argument list means: index 0 is the program name, index 1 the
/// amount, index 2 (if present) the unit; anything further is ignored.
pub open spec fn parse_spec(args: Seq<Seq<char>>) -> Result<Filesize, SizeError> {
    if args.len() < 2 {
        Err(SizeError::InsufficientArguments)
    } else if !is_u64_text(args[1]) {
        Err(SizeError::InvalidAmount)
    } else {
        let amount = digits_value(unsigned_digits(args[1])) as u64;
        let unit = if args.len() > 2 {
            Some(args[2])
        } else {
            None
        };
        Ok(size_in_unit(amount, unit))
    }
}

/// The texts of an argument list.
pub open spec fn arg_texts(args: Seq<String>) -> Seq<Seq<char>> {
    args.map_values(|a: String| a@)
}

/// `s` is the two-character suffix `<letter>b`.
fn is_suffix(s: &str, letter: char) -> (r: bool)
    ensures
        r == (s@ == suffix(letter)),
{
    let n = s.unicode_len();
    if n != 2 {
        return false;
    }
    let r = s.get_char(0) == letter && s.get_char(1) == 'b';
    assert(r ==> s@ =~= suffix(letter));
    r
}

/// The size of `amount` in the unit that `unit` names, bytes if none.
fn size_in(amount: u64, unit: &str) -> (r: Filesize)
    ensures
        r == size_in_unit(amount, Some(unit@)),
{
    if is_suffix(unit, 'k') {
        Filesize::Kilobytes(amount)
    } else if is_suffix(unit, 'm') {
        Filesize::Megabytes(amount)
    } else if is_suffix(unit, 'g') {
        Filesize::Gigabytes(amount)
    } else if is_suffix(unit, 't') {
        Filesize::Terabytes(amount)
    } else {
        Filesize::Bytes(amount)
    }
}

impl Filesize {
    /// Reads a size from an argument list: `args[0]` is the program name,
    /// `args[1]` the amount, `args[2]` an optional unit (`kb`, `mb`, `gb`,
    /// `tb`, case-sensitive; anything else means bytes).
    pub fn parse_input(args: &Vec<String>) -> (r: Result<Filesize, SizeError>)
        ensures
            r == parse_spec(arg_texts(args@)),
    {
        if args.len() < 2 {
            return Err(SizeError::InsufficientArguments);
        }
        let amount = match parse_u64(args[1].as_str()) {
            Some(a) => a,
            None => {
                return Err(SizeError::InvalidAmount);
            },
        };
        if args.len() > 2 {
            Ok(size_in(amount, args[2].as_str()))
        } else {
            Ok(Filesize::Bytes(amount))
        }
    }

    /// The size in bytes, or `AmountOverflow` when that does not fit in 64
    /// bits.
    pub fn to_bytes(&self) -> (r: Result<u64, SizeError>)
        ensures
            self.byte_total() <= u64::MAX ==> r == Ok::<u64, SizeError>(self.byte_total() as u64),
            self.byte_total() > u64::MAX ==> r == Err::<u64, SizeError>(SizeError::AmountOverflow),
    {
        let product = match *self {
            Filesize::Bytes(b) => Some(b),
            Filesize::Kilobytes(kb) => kb.checked_mul(1_000),
            Filesize::Megabytes(mb) => mb.checked_mul(1_000_000),
            Filesize::Gigabytes(gb) => gb.checked_mul(1_000_000_000),
            Filesize::Terabytes(tb) => tb.checked_mul(1_000_000_000_000),
        };
        match product {
            Some(b) => Ok(b),
            None => Err(SizeError::AmountOverflow),
        }
    }
}

/// An amount written in decimal after the program name, followed by one of
/// the units `kb`, `mb`, `gb`, `tb` or by nothing, parses to a size whose byte
/// count is the amount times that unit's multiplier (1 with no unit).
pub proof fn lemma_parsed_byte_total(program: Seq<char>, amount: u64, unit: Option<Seq<char>>)
    requires
        unit matches Some(u) ==> is_known_unit(u),
    ensures
        ({
            let args = match unit {
                Some(u) => seq![program, decimal_text(amount as nat), u],
                None => seq![program, decimal_text(amount as nat)],
            };
            &&& parse_spec(args) is Ok
            &&& parse_spec(args)->Ok_0.byte_total() == amount * unit_multiplier(unit)
        }),
{
    lemma_decimal_text_is_u64_text(amount);
}

} // verus!
