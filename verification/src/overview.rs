//! The configuration overview page.

use vstd::prelude::*;
use crate::numbers::{decimal_digits, format_decimal};
use crate::text::owned;

verus! {

/// The document count shown on the overview: `--` until the index reports
/// it, then the count.
pub fn documents_label(total: Option<usize>) -> (r: String)
    ensures
        r@ == match total {
            Some(n) => decimal_digits(n as nat),
            None => "--"@,
        },
{
    match total {
        Some(n) => format_decimal(n as u64),
        None => owned("--"),
    }
}

} // verus!
