use pdf_ocr::batch::{ocr_args, plan_ocr_jobs};
use pdf_ocr::path_rule::{display_name, output_path};
use pdf_ocr::session::{delete_label, OcrApp};
use std::path::Path;

fn flags() -> Vec<String> {
    vec!["--force-ocr".to_string(), "--image-dpi".to_string(), "300".to_string()]
}

#[test]
fn output_path_of_pdf() {
    assert_eq!(output_path("scan.pdf"), "scan_ocr.pdf");
    assert_eq!(output_path("/home/u/docs/scan.pdf"), "/home/u/docs/scan_ocr.pdf");
}

#[test]
fn output_path_replaces_image_extension() {
    assert_eq!(output_path("photo.jpeg"), "photo_ocr.pdf");
    assert_eq!(output_path("imgs/photo.jpeg"), "imgs/photo_ocr.pdf");
}

#[test]
fn output_path_edge_names() {
    assert_eq!(output_path("archive.tar.gz"), "archive.tar_ocr.pdf");
    assert_eq!(output_path("noext"), "noext_ocr.pdf");
    assert_eq!(output_path("dir/.hidden"), "dir/.hidden_ocr.pdf");
    assert_eq!(output_path("a.b/c"), "a.b/c_ocr.pdf");
    assert_eq!(output_path(""), "_ocr.pdf");
}

#[test]
fn output_path_of_directory_style_inputs() {
    assert_eq!(output_path("a/."), "a_ocr.pdf");
    assert_eq!(output_path("dir/"), "dir_ocr.pdf");
    assert_eq!(output_path("x/.."), "x/../_ocr.pdf");
    assert_eq!(output_path("/"), "/_ocr.pdf");
    assert_eq!(output_path("."), "./_ocr.pdf");
    assert_eq!(output_path("./a.pdf"), "./a_ocr.pdf");
    assert_eq!(output_path("/scan.pdf"), "/scan_ocr.pdf");
    assert_eq!(output_path("a//b.pdf"), "a/b_ocr.pdf");
    assert_eq!(output_path("a/./b.png"), "a/b_ocr.pdf");
}

fn std_output_path(p: &str) -> String {
    let path = Path::new(p);
    path.with_file_name(format!(
        "{}_ocr.pdf",
        path.file_stem().unwrap_or_default().to_string_lossy()
    ))
    .to_string_lossy()
    .to_string()
}

const PATH_SAMPLES: [&str; 40] = [
    "", "/", "//", ".", "..", "./", "../", "a", "a/", "a/.", "a/..", "a/../", "x/..", "dir/",
    "dir//", "dir/./", "/a", "/a/", "/a/.", "//a", "./a", "./a/", "./.", "././a", "a//b.pdf",
    "a/./b.png", "a/b/./.", ".hidden", "dir/.hidden", "dir/.hidden.pdf", "a.b/c", "a.b/c.d.e",
    "name.", "dir/name.", "..x", "x..", "/tmp/x/scan.pdf", "photo.jpeg", "é/ü.tiff", ".a/./",
];

#[test]
fn output_path_agrees_with_std_path() {
    for p in PATH_SAMPLES {
        assert_eq!(output_path(p), std_output_path(p), "input {:?}", p);
    }
}

#[test]
fn display_name_agrees_with_std_path() {
    for p in PATH_SAMPLES {
        let expected = Path::new(p).file_name().unwrap_or_default().to_string_lossy().to_string();
        assert_eq!(display_name(p), expected, "input {:?}", p);
    }
}

#[test]
fn display_name_is_last_component() {
    assert_eq!(display_name("/tmp/x/scan.pdf"), "scan.pdf");
    assert_eq!(display_name("scan.pdf"), "scan.pdf");
    assert_eq!(display_name("dir/"), "dir");
    assert_eq!(display_name("a/."), "a");
    assert_eq!(display_name("x/.."), "");
    assert_eq!(display_name("/"), "");
    assert_eq!(delete_label("/tmp/x/scan.pdf"), "Delete 'scan.pdf'");
}

#[test]
fn fixed_flags() {
    assert_eq!(ocr_args(), flags());
}

#[test]
fn empty_plan_has_no_runs() {
    assert!(plan_ocr_jobs(&Vec::new()).is_empty());
}

#[test]
fn two_inputs_give_two_runs_in_order() {
    let jobs = plan_ocr_jobs(&vec!["a.pdf".to_string(), "b.pdf".to_string()]);
    assert_eq!(jobs.len(), 2);
    assert_eq!(jobs[0].input, "a.pdf");
    assert_eq!(jobs[0].output, "a_ocr.pdf");
    assert_eq!(jobs[0].args, flags());
    assert_eq!(jobs[1].input, "b.pdf");
    assert_eq!(jobs[1].output, "b_ocr.pdf");
    assert_eq!(jobs[1].args, flags());
}

#[test]
fn app_starts_idle_with_prompt() {
    let app = OcrApp::default();
    assert!(app.input_paths.is_absent());
    assert_eq!(app.status, "Select a PDF to OCR");
    assert!(!app.processing);
}

#[test]
fn start_with_nothing_selected_runs_nothing() {
    let mut app = OcrApp::default();
    assert!(app.start_ocr().is_empty());
    assert!(!app.processing);

    app.select_file("a.pdf".to_string());
    app.delete_file(&"a.pdf".to_string());
    assert!(app.start_ocr().is_empty());
    assert!(!app.processing);
}

#[test]
fn start_hands_out_jobs_and_finish_ends_batch() {
    let mut app = OcrApp::default();
    app.select_file("a.pdf".to_string());
    app.select_file("b.png".to_string());
    assert_eq!(app.status, "Selected: Some([\"a.pdf\", \"b.png\"])");
    let jobs = app.start_ocr();
    assert!(app.processing);
    assert_eq!(jobs.len(), 2);
    assert_eq!(jobs[0].output, "a_ocr.pdf");
    assert_eq!(jobs[1].output, "b_ocr.pdf");
    app.finish_ocr();
    assert!(!app.processing);
    assert_eq!(app.input_paths.len(), 2);
}

#[test]
fn clear_drops_selection() {
    let mut app = OcrApp::default();
    app.select_file("a.pdf".to_string());
    app.clear();
    assert!(app.input_paths.is_absent());
}
