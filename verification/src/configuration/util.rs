//! Helpers for walking the command-line arguments.

use crate::text::{begins_with, parse_decimal, starts_with, unsigned_value};
use vstd::prelude::*;
use vstd::string::*;

verus! {

/// The arguments as sequences of characters.
pub open spec fn args_view(args: Seq<String>) -> Seq<Seq<char>> {
    args.map_values(|arg: String| arg@)
}

/// Whether the option at `index` lacks its value: it is the last argument, or
/// the next argument is an option itself.
pub open spec fn missing_next_value(args: Seq<Seq<char>>, index: int) -> bool {
    args.len() <= index + 1 || begins_with(args[index + 1], "--"@)
}

/// Whether the option at `index` lacks its value.
pub fn check_for_missing_next_value(args: &[String], index: usize) -> (missing: bool)
    ensures
        missing == missing_next_value(args_view(args@), index as int),
{
    if index >= args.len() || args.len() - index <= 1 {
        return true;
    }
    starts_with(args[index + 1].as_str(), "--")
}

/// A value that an argument of the command line can denote.
pub trait ArgValue: Sized {
    /// The value that `text` denotes, if it denotes one.
    spec fn denoted(text: Seq<char>) -> Option<Self>;

    /// Reads the value that `text` denotes.
    fn read(text: &str) -> (value: Option<Self>)
        ensures
            value == Self::denoted(text@),
    ;
}

impl ArgValue for u64 {
    /// An optional `+` and decimal digits, of a number that fits into 64 bits.
    open spec fn denoted(text: Seq<char>) -> Option<u64> {
        match unsigned_value(text) {
            Some(n) => if n <= u64::MAX {
                Some(n as u64)
            } else {
                None
            },
            None => None,
        }
    }

    fn read(text: &str) -> (value: Option<u64>) {
        parse_decimal(text)
    }
}

impl ArgValue for u16 {
    /// An optional `+` and decimal digits, of a number that fits into 16 bits.
    open spec fn denoted(text: Seq<char>) -> Option<u16> {
        match unsigned_value(text) {
            Some(n) => if n <= u16::MAX {
                Some(n as u16)
            } else {
                None
            },
            None => None,
        }
    }

    fn read(text: &str) -> (value: Option<u16>) {
        match parse_decimal(text) {
            Some(n) => if n <= 0xffff {
                Some(n as u16)
            } else {
                None
            },
            None => None,
        }
    }
}

/// The value of the option at `index`, read from the argument after it.
pub open spec fn next_arg<T: ArgValue>(args: Seq<Seq<char>>, index: int) -> Result<T, Seq<char>> {
    match T::denoted(args[index + 1]) {
        Some(value) => Ok(value),
        None => Err("Invalid port number"@),
    }
}

/// The result of reading an argument, its message as a sequence of
/// characters.
pub open spec fn arg_result_view<T>(result: Result<T, String>) -> Result<T, Seq<char>> {
    match result {
        Ok(value) => Ok(value),
        Err(message) => Err(message@),
    }
}

/// Reads the value of the option at `index` from the argument after it. The
/// message for a value that cannot be read speaks of a port number, whatever
/// the option.
pub fn parse_next_arg<T: ArgValue>(args: &[String], index: usize) -> (result: Result<T, String>)
    requires
        index + 1 < args.len(),
    ensures
        arg_result_view(result) == next_arg::<T>(args_view(args@), index as int),
{
    match T::read(args[index + 1].as_str()) {
        Some(value) => Ok(value),
        None => Err(String::from_str("Invalid port number")),
    }
}

} // verus!
