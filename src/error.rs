//! The ways in which one clip, one listing window or one transfer can fail.

use vstd::prelude::*;

verus! {

/// A failure that ends the work on one item (one clip, one listing window, one
/// transfer) and nothing else.
#[derive(Clone, Copy, Debug, PartialEq, Eq, Structural)]
pub enum FetchError {
    /// The metadata was read, but it offered no rendition.
    NoSourceFound,
    /// A rendition's quality label was not a number, or its URL did not parse.
    MalformedMetadata,
    /// A page of the listing could not be fetched or decoded.
    ListingFetchFailed,
    /// The request for a file, or writing it, failed.
    TransferFailed,
}

} // verus!
