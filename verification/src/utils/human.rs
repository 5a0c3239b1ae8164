//! Human-readable rendering of byte counts.

use vstd::prelude::*;

verus! {
/// The text that stands for `size` bytes in decimal (SI) units, such as
/// `1.50 MB`.
pub uninterp spec fn decimal_size_text(size: u64) -> Seq<char>;

/// Renders a byte count with `humansize::format_size` and its `DECIMAL`
/// options. The rendering divides by 1000 until the value is below 1000 and
/// prints it with the matching unit; the text depends on `size` alone.
#[verifier::external_body]
pub(crate) fn format_size(size: u64) -> (r: String)
    ensures
        r@ == decimal_size_text(size),
{
    humansize::format_size(size, humansize::DECIMAL)
}

} // verus!
