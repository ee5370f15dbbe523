//! Output-path generation for finished sessions.
//!
//! A finished session's buffer is persisted by the caller at a freshly
//! generated unique path under a configured directory: the directory, a
//! slash, a random 36-character identifier, and the audio file suffix.

use vstd::prelude::*;

verus! {

/// Relies on `uuid::Uuid::new_v4` and the `Display` form of `Uuid`: a random
/// identifier formatted as the hyphenated lowercase string of exactly 36
/// characters.  The value is random, so nothing beyond its length is stated.
#[verifier::external_body]
fn fresh_recording_id() -> (r: String)
    ensures
        r@.len() == 36,
{
    uuid::Uuid::new_v4().to_string()
}

/// Joins a directory, a recording identifier and the audio suffix into the
/// output file path `dir/id.wav`.
pub fn output_file_path(dir: &str, id: &str) -> (p: String)
    ensures
        p@ == dir@ + "/"@ + id@ + ".wav"@,
{
    let mut p = dir.to_owned();
    p.append("/");
    p.append(id);
    p.append(".wav");
    proof {
        assert(p@ =~= dir@ + "/"@ + id@ + ".wav"@);
    }
    p
}

/// Generates a fresh output path under the configured directory: the
/// directory, a slash, a 36-character unique identifier, and `.wav`.
pub fn recording_path(dir: &str) -> (p: String)
    ensures
        exists|id: Seq<char>| id.len() == 36 && p@ == dir@ + "/"@ + id + ".wav"@,
{
    let id = fresh_recording_id();
    let p = output_file_path(dir, id.as_str());
    proof {
        assert(id@.len() == 36 && p@ == dir@ + "/"@ + id@ + ".wav"@);
    }
    p
}

} // verus!
