//! Text and control frames passed along the pipeline.

use vstd::prelude::*;

verus! {

pub struct TextFrame {
    pub text: String,
    pub is_final: bool,
    pub timestamp: u64,
}

pub enum ControlFrame {
    Start,
    Stop,
    Cancel,
    Metadata { key: String, value: String },
}

} // verus!
