use vstd::prelude::*;

verus! {

/// The outcome of building an agent's image: whether it succeeded, and the
/// log worth keeping (the build's output on success, its errors otherwise).
pub struct BuildInfo {
    pub successful: bool,
    pub log: String,
}

/// The language an agent at `url` is written in; every agent is built as
/// Dart.
pub fn get_lang(url: &str) -> (r: &'static str)
    ensures
        r@ == "dart"@,
{
    "dart"
}

/// A step of the build pipeline succeeded when it wrote nothing to its
/// error stream.
pub fn succeeded(stderr: &str) -> (r: bool)
    ensures
        r == (stderr@.len() == 0),
{
    stderr.is_empty()
}

/// Reads a finished image build from what it wrote to its two streams.
pub fn build_info(stdout: String, stderr: String) -> (r: BuildInfo)
    ensures
        r.successful == (stderr@.len() == 0),
        r.log@ == if stderr@.len() == 0 { stdout@ } else { stderr@ },
{
    let successful = succeeded(stderr.as_str());
    if successful {
        BuildInfo { successful: true, log: stdout }
    } else {
        BuildInfo { successful: false, log: stderr }
    }
}

/// The status a build job is closed with in the queue.
pub fn job_status(successful: bool) -> (r: &'static str)
    ensures
        r@ == (if successful { "completed"@ } else { "failed"@ }),
{
    if successful {
        "completed"
    } else {
        "failed"
    }
}

} // verus!
