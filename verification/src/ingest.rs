//! The ingestion envelope around a snapshot, and the watcher's one
//! decision: which file names belong to the pipeline.

use vstd::prelude::*;
use crate::codec::str_equal;
use crate::models::EyeCoreData;
use vstd::string::StrSliceExecFns;

verus! {

/// Which modalities a snapshot file claims to carry.
#[derive(Debug, Clone, PartialEq)]
pub struct DataTypesAvailable {
    pub system_metrics: bool,
    pub process_data: bool,
    pub input_metrics: bool,
    pub network_metrics: bool,
    pub focus_metrics: bool,
    pub voice_data: bool,
    pub camera_data: bool,
    pub keystroke_dynamics: bool,
    pub screen_interactions: bool,
    pub file_metadata: bool,
    pub system_events: bool,
    pub mouse_dynamics: bool,
    pub network_activity_metadata: bool,
}

/// The envelope metadata written beside each snapshot.
#[derive(Debug, Clone, PartialEq)]
pub struct Metadata {
    pub session_id: String,
    pub timestamp: String,
    pub data_types_available: DataTypesAvailable,
    pub saved_at: String,
}

/// One snapshot file: its envelope metadata and the snapshot itself.
/// Only `data` is read by detection.
#[derive(Debug, Clone, PartialEq)]
pub struct EyeCoreDataFile {
    pub metadata: Metadata,
    pub data: EyeCoreData,
}

/// The file names the watcher hands on: a non-empty stem followed by
/// the `.json` extension.
pub open spec fn spec_is_snapshot_name(s: Seq<char>) -> bool {
    s.len() >= 6 && s.subrange(s.len() - 5, s.len() as int) == ".json"@
}

/// Decides whether a file name belongs to the pipeline.
pub fn has_json_extension(name: &str) -> (r: bool)
    ensures
        r == spec_is_snapshot_name(name@),
{
    let n = name.unicode_len();
    if n < 6 {
        return false;
    }
    let ext = name.substring_char(n - 5, n);
    str_equal(ext, ".json")
}

} // verus!
