//! A segment of speech on its way through the pipeline.
use vstd::prelude::*;

use crate::ieee::F64;

verus! {

/// A segment of speech.
#[derive(Debug, Clone)]
pub struct Segment {
    /// The identifier.
    pub id: String,
    /// Its start in seconds.
    pub start: F64,
    /// Its end in seconds.
    pub end: F64,
    /// What is said.
    pub source_text: String,
    /// The translation.
    pub target_text: Option<String>,
    /// The file with the synthesised translation.
    pub tts_audio_path: Option<String>,
    /// Who speaks.
    pub speaker: Option<String>,
}

impl Segment {
    /// A segment that has only been recognised.
    pub fn new(id: String, start: F64, end: F64, source_text: String) -> (r: Self)
        ensures
            r == (Segment {
                id,
                start,
                end,
                source_text,
                target_text: None,
                tts_audio_path: None,
                speaker: None,
            }),
    {
        Segment {
            id,
            start,
            end,
            source_text,
            target_text: None,
            tts_audio_path: None,
            speaker: None,
        }
    }
}

} // verus!
