//! How a size reported by Drive (a decimal string, when present) is shown.

use vstd::prelude::*;
use crate::decimal::{decimal, parse_u64, parse_u64_spec, push_decimal};

verus! {

/// Shown when the size is missing or is not a number.
pub const SIZE_UNKNOWN: &'static str = "—";

/// How a size is shown.
#[derive(Debug, Clone, PartialEq, Eq)]
pub enum SizeText {
    /// Shown as it stands.
    Plain(String),
    /// This many bytes, shown in kilobytes (bytes / 1024) with one decimal
    /// and the unit `KB`.
    Kilobytes(u64),
}

/// The number of bytes a reported size denotes, if it denotes one.
pub open spec fn parsed_size(size: Option<String>) -> Option<u64> {
    match size {
        Some(s) => parse_u64_spec(s@),
        None => None,
    }
}

/// Chooses how to show a size: `—` when there is no readable number,
/// `<n> B` below 1024 bytes, kilobytes from 1024 on.
pub fn fmt_size(size: &Option<String>) -> (res: SizeText)
    ensures
        match parsed_size(*size) {
            None => res matches SizeText::Plain(t) && t@ == SIZE_UNKNOWN@,
            Some(n) => if n < 1024 {
                res matches SizeText::Plain(t) && t@ == decimal(n as nat) + " B"@
            } else {
                res == SizeText::Kilobytes(n)
            },
        },
{
    let parsed = match size {
        Some(s) => parse_u64(s.as_str()),
        None => None,
    };
    match parsed {
        Some(n) => {
            if n < 1024 {
                let mut t = String::new();
                push_decimal(&mut t, n);
                t.append(" B");
                SizeText::Plain(t)
            } else {
                SizeText::Kilobytes(n)
            }
        },
        None => SizeText::Plain(String::from_str(SIZE_UNKNOWN)),
    }
}

} // verus!
