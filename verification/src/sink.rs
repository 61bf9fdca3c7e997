//! The sink: where the finished text goes, and in what form.
//!
//! Writing is left to the caller; what is decided here is what to write.

use vstd::prelude::*;
use vstd::string::*;

verus! {

/// What is to be done with the finished text.
#[derive(Debug)]
pub enum Delivery {
    /// Print this text to standard output, as it stands.
    Print(String),
    /// Create or truncate the file at `path` and write `content` to it.
    Store { path: String, content: String },
}

/// Decides how `content` is delivered to `destination`.
///
/// An empty destination means standard output, and the text printed there
/// is the content followed by one line break. Any other destination is the
/// path of a file, which receives the content unchanged.
pub fn deliver(destination: &str, content: String) -> (d: Delivery)
    ensures
        destination@.len() == 0 ==> (d matches Delivery::Print(text) && text@ == content@
            + seq!['\n']),
        destination@.len() != 0 ==> (d matches Delivery::Store { path, content: stored } && path@
            == destination@ && stored@ == content@),
{
    if destination.is_empty() {
        let mut text = content;
        proof {
            reveal_strlit("\n");
        }
        text.append("\n");
        Delivery::Print(text)
    } else {
        Delivery::Store { path: destination.to_owned(), content }
    }
}

} // verus!
