//! Choices that a caller makes on the command line.

use vstd::prelude::*;

verus! {

/// How results are written.
#[derive(Debug, Clone, Copy, PartialEq, Eq, Structural)]
pub enum OutputFormat {
    Json,
    Text,
}

} // verus!
