//! Lifecycle decisions of the speech model cache: one fixed model under
//! one fixed remote source, stored under a `models` directory inside the
//! application's data directory. The caller performs the probe, the
//! download and the write; the decisions between them are made here, so
//! that a present file is always reused and never fetched again.

use vstd::prelude::*;

verus! {

/// The file name of the one cached model.
pub fn model_filename() -> (r: &'static str)
    ensures
        r@ == "ggml-base.en.bin"@,
{
    "ggml-base.en.bin"
}

/// The fixed remote source of the model.
pub fn model_url() -> (r: &'static str)
    ensures
        r@ == "https://huggingface.co/ggerganov/whisper.cpp/resolve/main/ggml-base.en.bin"@,
{
    "https://huggingface.co/ggerganov/whisper.cpp/resolve/main/ggml-base.en.bin"
}

/// The user agent the download identifies itself with.
pub fn download_user_agent() -> (r: &'static str)
    ensures
        r@ == "ConstructionOS/1.0"@,
{
    "ConstructionOS/1.0"
}

/// What to do about the cached model after probing the file system.
#[derive(Clone, Copy, PartialEq, Eq, Structural, Debug)]
pub enum CacheStep {
    /// The file is present: return its path, touch the network not at all.
    UseCached,
    /// The file is absent: fetch it once from the fixed source.
    Download,
}

/// The step a probe outcome calls for.
pub open spec fn spec_cache_step(file_present: bool) -> CacheStep {
    if file_present {
        CacheStep::UseCached
    } else {
        CacheStep::Download
    }
}

/// Decide the cache step from a probe of the model file.
pub fn plan_cache_step(file_present: bool) -> (r: CacheStep)
    ensures
        r == spec_cache_step(file_present),
{
    if file_present {
        CacheStep::UseCached
    } else {
        CacheStep::Download
    }
}

/// A failed model fetch: the response reported the carried status, which
/// is not a success.
#[derive(Clone, Copy, PartialEq, Eq, Structural, Debug)]
pub struct DownloadError {
    pub status: u16,
}

/// Judge the response status of a model fetch: exactly the statuses from
/// 200 up to but not including 300 succeed; any other status is a
/// download failure carrying that status.
pub fn check_download_status(code: u16) -> (r: Result<(), DownloadError>)
    ensures
        r is Ok <==> 200 <= code < 300,
        r is Err ==> r->Err_0.status == code,
{
    if 200 <= code && code < 300 {
        Ok(())
    } else {
        Err(DownloadError { status: code })
    }
}

/// The model path under a data directory: `models/` and the fixed file
/// name, joined with the given separator.
pub open spec fn spec_model_path(dir: Seq<char>, sep: Seq<char>) -> Seq<char> {
    dir + sep + "models"@ + sep + "ggml-base.en.bin"@
}

/// Resolve the model path under a data directory.
pub fn model_path_in(dir: &str, sep: &str) -> (r: String)
    ensures
        r@ == spec_model_path(dir@, sep@),
{
    let mut out = dir.to_owned();
    out.append(sep);
    out.append("models");
    out.append(sep);
    out.append(model_filename());
    proof {
        assert(out@ =~= spec_model_path(dir@, sep@));
    }
    out
}

/// Law: once the model file is present, every later run reuses the cache:
/// the planned step is never a download. The path such a run returns is
/// `spec_model_path` of the data directory, a function of the directory
/// alone, so two runs over the same directory return one and the same
/// path.
pub proof fn lemma_cached_model_reused()
    ensures
        spec_cache_step(true) is UseCached,
        !(spec_cache_step(true) is Download),
{
}

} // verus!
