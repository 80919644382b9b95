//! The state of the OCR window and what each user action does to it. The
//! window itself shows this state, and runs the jobs that `start_ocr` hands
//! out before calling `finish_ocr`.
use vstd::prelude::*;
use vstd::string::*;
use crate::batch::{is_job_for, plan_ocr_jobs, OcrJob};
use crate::path_rule::{display_name, display_name_of};
use crate::selection::{added, entries_of, removed, SelectionList};

verus! {

/// What std's `Debug` formatting of `Some(paths)` prints for a list of paths.
pub uninterp spec fn debug_listing_of(paths: Seq<Seq<char>>) -> Seq<char>;

/// Relies on std's `Debug` for `Option<&Vec<String>>`: the text depends on the
/// paths alone.
#[verifier::external_body]
fn debug_listing(paths: &Vec<String>) -> (r: String)
    ensures
        r@ == debug_listing_of(paths@.map_values(|s: String| s@)),
{
    format!("{:?}", Some(paths))
}

/// The status shown before anything is selected.
pub open spec fn initial_status() -> Seq<char> {
    "Select a PDF to OCR"@
}

/// The status after a selection: the whole list.
pub open spec fn selected_status(entries: Seq<Seq<char>>) -> Seq<char> {
    "Selected: "@ + debug_listing_of(entries)
}

/// The label of the button that deletes the entry `path`.
pub open spec fn delete_label_of(path: Seq<char>) -> Seq<char> {
    "Delete '"@ + display_name_of(path) + "'"@
}

/// The window's state: the selection, a status line, and whether a batch is
/// running.
pub struct OcrApp {
    pub input_paths: SelectionList,
    pub status: String,
    pub processing: bool,
}

impl Default for OcrApp {
    fn default() -> (r: OcrApp)
        ensures
            r.input_paths@ is None,
            r.status@ == initial_status(),
            !r.processing,
    {
        OcrApp {
            input_paths: SelectionList::new(),
            status: String::from_str("Select a PDF to OCR"),
            processing: false,
        }
    }
}

impl OcrApp {
    /// Adds a file picked by the user and lists the selection in the status.
    pub fn select_file(&mut self, path: String)
        ensures
            final(self).input_paths@ == added(old(self).input_paths@, path@),
            final(self).status@ == selected_status(entries_of(final(self).input_paths@)),
            final(self).processing == old(self).processing,
    {
        self.input_paths.add(path);
        let listing = debug_listing(&self.input_paths.paths());
        let mut status = String::from_str("Selected: ");
        status.append(listing.as_str());
        self.status = status;
    }

    /// Deletes every entry equal to `path`.
    pub fn delete_file(&mut self, path: &String)
        ensures
            final(self).input_paths@ == removed(old(self).input_paths@, path@),
            final(self).status == old(self).status,
            final(self).processing == old(self).processing,
    {
        self.input_paths.remove(path);
    }

    /// Drops the whole selection.
    pub fn clear(&mut self)
        ensures
            final(self).input_paths@ is None,
            final(self).status == old(self).status,
            final(self).processing == old(self).processing,
    {
        self.input_paths.clear();
    }

    /// Starts a batch: hands out one job per selected file, in order, and
    /// marks the batch as running. With nothing selected there is nothing to
    /// run and the state is left as it was.
    pub fn start_ocr(&mut self) -> (r: Vec<OcrJob>)
        ensures
            r.len() == entries_of(old(self).input_paths@).len(),
            forall|i: int|
                0 <= i < r.len() ==> is_job_for(
                    #[trigger] r[i],
                    entries_of(old(self).input_paths@)[i],
                ),
            final(self).input_paths@ == old(self).input_paths@,
            final(self).status == old(self).status,
            final(self).processing == (old(self).processing || r.len() > 0),
    {
        let paths = self.input_paths.paths();
        let jobs = plan_ocr_jobs(&paths);
        if jobs.len() > 0 {
            self.processing = true;
        }
        jobs
    }

    /// Ends a batch, whatever became of its jobs.
    pub fn finish_ocr(&mut self)
        ensures
            !final(self).processing,
            final(self).input_paths@ == old(self).input_paths@,
            final(self).status == old(self).status,
    {
        self.processing = false;
    }
}

/// The label of the button that deletes the entry `path`.
pub fn delete_label(path: &str) -> (r: String)
    ensures
        r@ == delete_label_of(path@),
{
    let mut label = String::from_str("Delete '");
    label.append(display_name(path).as_str());
    label.append("'");
    label
}

} // verus!
