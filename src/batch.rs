//! The plan of an OCR batch: one run of the OCR tool per selected file, in
//! the order the files were selected.
use vstd::prelude::*;
use vstd::string::*;
use crate::path_rule::{output_path, output_path_of};

verus! {

/// One run of the OCR tool: read `input`, write `output`, pass `args`.
pub struct OcrJob {
    pub input: String,
    pub output: String,
    pub args: Vec<String>,
}

/// The flags of every run: OCR even pages that already carry text, and treat
/// images as 300 DPI.
pub open spec fn ocr_flags() -> Seq<Seq<char>> {
    seq!["--force-ocr"@, "--image-dpi"@, "300"@]
}

/// Whether `job` is the run for input `p`.
pub open spec fn is_job_for(job: OcrJob, p: Seq<char>) -> bool {
    &&& job.input@ == p
    &&& job.output@ == output_path_of(p)
    &&& job.args@.map_values(|s: String| s@) == ocr_flags()
}

/// The fixed flags, as arguments for the tool.
pub fn ocr_args() -> (r: Vec<String>)
    ensures
        r@.map_values(|s: String| s@) == ocr_flags(),
{
    let mut args: Vec<String> = Vec::new();
    args.push(String::from_str("--force-ocr"));
    args.push(String::from_str("--image-dpi"));
    args.push(String::from_str("300"));
    assert(args@.map_values(|s: String| s@) =~= ocr_flags());
    args
}

/// The run for one input file.
pub fn job_for(path: &String) -> (r: OcrJob)
    ensures
        is_job_for(r, path@),
{
    OcrJob { input: path.clone(), output: output_path(path.as_str()), args: ocr_args() }
}

/// One run per path, in the order of `paths`. No paths, no runs.
pub fn plan_ocr_jobs(paths: &Vec<String>) -> (r: Vec<OcrJob>)
    ensures
        r.len() == paths.len(),
        forall|i: int| 0 <= i < paths.len() ==> is_job_for(#[trigger] r[i], paths[i]@),
{
    let mut jobs: Vec<OcrJob> = Vec::new();
    let mut i: usize = 0;
    while i < paths.len()
        invariant
            i <= paths.len(),
            jobs.len() == i,
            forall|j: int| 0 <= j < i ==> is_job_for(#[trigger] jobs[j], paths[j]@),
        decreases paths.len() - i,
    {
        jobs.push(job_for(&paths[i]));
        i = i + 1;
    }
    jobs
}

} // verus!
