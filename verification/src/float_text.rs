//! Floats as decimal text.
//!
//! The library holds a float as its bit pattern and never computes with it.
//! Where the form shows a float or reads one, the platform turns the bit
//! pattern into decimal text and back. What it gives depends on what it is
//! given alone; the library knows no more of it than that.

use vstd::pervasive::arbitrary;
use vstd::prelude::*;

verus! {

/// The platform's way of writing and reading floats in decimal.
pub trait FloatText {
    /// The decimal text that the platform writes for the float with the bit
    /// pattern `bits`. Nothing is known of it but that it depends on the
    /// platform and on the bit pattern alone.
    open spec fn printed(&self, bits: u32) -> Seq<char> {
        arbitrary::<spec_fn(&Self, u32) -> Seq<char>>()(self, bits)
    }

    /// The bit pattern of the float that the platform reads from `text`, if
    /// it reads one. Nothing is known of it but that it depends on the
    /// platform and on the text alone.
    open spec fn scanned(&self, text: Seq<char>) -> Option<u32> {
        arbitrary::<spec_fn(&Self, Seq<char>) -> Option<u32>>()(self, text)
    }

    /// The decimal text of the float with the bit pattern `bits`.
    fn print(&self, bits: u32) -> (text: String)
        ensures
            text@ == self.printed(bits),
    ;

    /// The bit pattern of the float that `text` writes in decimal, if it
    /// writes one.
    fn scan(&self, text: &str) -> (bits: Option<u32>)
        ensures
            bits == self.scanned(text@),
    ;
}

} // verus!
