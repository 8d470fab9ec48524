//! Data of the text-processing gateway.

use vstd::prelude::*;

verus! {

/// A piece of text to process, with its language pair.
pub struct TextToProcess {
    pub text: String,
    pub target_language: String,
    pub source_language: String,
}

} // verus!
