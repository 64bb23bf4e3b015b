//! The single-utterance transcription contract around the speech engine:
//! the fixed inference settings the engine must be given, and the assembly
//! of the engine's text segments into one trimmed utterance. Running the
//! model itself is native code driven by the caller; what comes back is a
//! list of segments in engine-emitted order.

use vstd::prelude::*;

use crate::text::trim_spec;
use crate::text::trim_str;

verus! {

/// The settings a transcription run is made with: deterministic greedy
/// decoding over a single candidate, a fixed target language, and all
/// diagnostic output suppressed, so identical input yields identical text.
pub struct InferenceSettings {
    pub greedy_best_of: u32,
    pub language: String,
    pub print_special: bool,
    pub print_progress: bool,
}

/// The one configuration the engine is ever run with.
pub fn inference_settings() -> (r: InferenceSettings)
    ensures
        r.greedy_best_of == 1,
        r.language@ == "en"@,
        !r.print_special,
        !r.print_progress,
{
    InferenceSettings {
        greedy_best_of: 1,
        language: String::from_str("en"),
        print_special: false,
        print_progress: false,
    }
}

/// The failures of one transcription request: the model could not be
/// loaded, or the engine could not produce segments. Either is fatal for
/// that request alone.
#[derive(Clone, Copy, PartialEq, Eq, Structural, Debug)]
pub enum TranscriptionError {
    ModelLoad,
    Inference,
}

/// The human-readable message of a transcription failure.
pub fn transcription_error_message(e: TranscriptionError) -> (r: String)
    ensures
        e is ModelLoad ==> r@ == "Failed to load model"@,
        e is Inference ==> r@ == "failed to run model"@,
{
    match e {
        TranscriptionError::ModelLoad => String::from_str("Failed to load model"),
        TranscriptionError::Inference => String::from_str("failed to run model"),
    }
}

/// The segments joined in order, each followed by one space.
pub open spec fn spec_join(segs: Seq<String>) -> Seq<char>
    decreases segs.len(),
{
    if segs.len() == 0 {
        Seq::<char>::empty()
    } else {
        spec_join(segs.drop_last()) + segs.last()@ + seq![' ']
    }
}

/// Concatenate the engine's text segments, in emitted order, separated by
/// single spaces, and trim the ends. An engine that emitted no segments
/// yields the empty string.
pub fn join_segments(segs: &Vec<String>) -> (r: String)
    ensures
        r@ == trim_spec(spec_join(segs@)),
{
    let mut acc = String::new();
    let n = segs.len();
    let mut i: usize = 0;
    proof {
        assert(segs@.take(0) =~= Seq::<String>::empty());
        assert(acc@ =~= spec_join(segs@.take(0)));
    }
    while i < n
        invariant
            n == segs@.len(),
            i <= n,
            acc@ == spec_join(segs@.take(i as int)),
        decreases n - i,
    {
        proof {
            assert(segs@.take(i + 1).drop_last() =~= segs@.take(i as int));
            assert(segs@.take(i + 1).last() == segs@[i as int]);
        }
        acc.append(segs[i].as_str());
        acc.append(" ");
        proof {
            reveal_strlit(" ");
            assert(" "@ =~= seq![' ']);
            assert(acc@ =~= spec_join(segs@.take(i + 1)));
        }
        i += 1;
    }
    proof {
        assert(segs@.take(n as int) =~= segs@);
    }
    trim_str(acc.as_str())
}

} // verus!
