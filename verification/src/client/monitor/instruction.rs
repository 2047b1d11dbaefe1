//! The records of the voice assistant's instruction log.
use vstd::prelude::*;

verus! {

/// The instruction log of the voice assistant.
pub const INSTRUCTION_FILE_PATH: &'static str = "/tmp/mico_aivs_lab/instruction.log";

/// Watches the instruction log of the voice assistant.
pub struct InstructionMonitor {
    file_path: &'static str,
}

impl InstructionMonitor {
    /// The log that the monitor watches.
    pub closed spec fn file_path(&self) -> Seq<char> {
        self.file_path@
    }

    /// A monitor of the instruction log.
    pub fn new() -> (r: Self)
        ensures
            r.file_path() == INSTRUCTION_FILE_PATH@,
    {
        InstructionMonitor { file_path: INSTRUCTION_FILE_PATH }
    }

    /// The log that the monitor watches.
    pub fn path(&self) -> (r: &'static str)
        ensures
            r@ == self.file_path(),
    {
        self.file_path
    }
}

/// The header of an instruction.
#[derive(Debug)]
pub struct Header {
    pub dialog_id: String,
    pub id: String,
    pub name: String,
    pub namespace: String,
}

/// The emotion of spoken text.
#[derive(Debug)]
pub struct Emotion {
    pub category: String,
    pub level: String,
}

/// One item to play.
#[derive(Debug)]
pub struct AudioItem {
    pub item_id: ItemId,
    pub log: Log,
    pub stream: Stream,
}

/// The identity of an audio item.
#[derive(Debug)]
pub struct ItemId {
    pub audio_id: String,
    pub cp: Cp,
}

/// The content provider of an audio item.
#[derive(Debug)]
pub struct Cp {
    pub id: String,
    pub name: String,
}

/// Logging data of an audio item.
#[derive(Debug)]
pub struct Log {
    pub eid: String,
    pub refer: String,
}

/// Where an audio item streams from.
#[derive(Debug)]
pub struct Stream {
    pub authentication: bool,
    pub duration_in_ms: u64,
    pub offset_in_ms: u64,
    pub url: String,
}

} // verus!
