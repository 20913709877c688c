//! What the engine's entry points fail with.
use vstd::prelude::*;

use crate::text::lit;

verus! {

/// Everything an entry point can fail with, and why.
#[derive(Debug)]
pub enum AsrError {
    ModelLoad(String),
    AudioDecode(String),
    Inference(String),
    InvalidOptions(String),
}

impl AsrError {
    /// The error in words.
    pub open spec fn text(self) -> Seq<char> {
        match self {
            AsrError::ModelLoad(e) => "Model load failed: "@ + e@,
            AsrError::AudioDecode(e) => "Audio decode failed: "@ + e@,
            AsrError::Inference(e) => "Inference failed: "@ + e@,
            AsrError::InvalidOptions(e) => "Invalid options: "@ + e@,
        }
    }

    /// The error in words.
    pub fn message(&self) -> (r: String)
        ensures
            r@ == self.text(),
    {
        match self {
            AsrError::ModelLoad(e) => {
                let mut s = lit("Model load failed: ");
                s.append(e.as_str());
                s
            },
            AsrError::AudioDecode(e) => {
                let mut s = lit("Audio decode failed: ");
                s.append(e.as_str());
                s
            },
            AsrError::Inference(e) => {
                let mut s = lit("Inference failed: ");
                s.append(e.as_str());
                s
            },
            AsrError::InvalidOptions(e) => {
                let mut s = lit("Invalid options: ");
                s.append(e.as_str());
                s
            },
        }
    }
}

} // verus!
