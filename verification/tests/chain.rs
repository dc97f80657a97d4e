use pdf_ocr::cli::Args;
use pdf_ocr::database::Method;
use pdf_ocr::extractor::{Attempt, FileTask, PdfExtractor};
use pdf_ocr::ocr::OcrProcessor;
use pdf_ocr::pdf::PdfProcessor;
use pdf_ocr::scheduler::SchedulerState;

fn args_with(text_only: bool, ocr_only: bool) -> Args {
    Args {
        threads: 4,
        database: String::from("results.db"),
        input_dir: String::from("."),
        export_txt: None,
        full_hash: false,
        text_only,
        ocr_only,
        force: false,
        verbose: false,
    }
}

fn long_text() -> String {
    let mut s = String::new();
    for _ in 0..10 {
        s.push_str("substantial ");
    }
    s
}

#[test]
fn direct_text_accepted_as_direct() {
    let engine = PdfExtractor::new(args_with(false, false));
    let text = long_text();
    assert!(text.trim().len() > 50);
    let r = engine.resolve_with(
        Attempt::Success { text: text.clone(), pages: 3 },
        Attempt::Failure { message: String::from("ocr never consulted") },
    );
    assert_eq!(r.method, Method::Direct);
    assert_eq!(r.text, text);
    assert_eq!(r.page_count, 3);
    assert!(r.error_detail.is_none());
}

#[test]
fn thin_direct_with_ocr_success_is_ocr() {
    let engine = PdfExtractor::new(args_with(false, false));
    let r = engine.resolve_with(
        Attempt::Success { text: String::from("thin"), pages: 2 },
        Attempt::Success { text: String::from("recognized page text"), pages: 2 },
    );
    assert_eq!(r.method, Method::Ocr);
    assert_eq!(r.text, "recognized page text");
    assert!(r.error_detail.is_none());
}

#[test]
fn thin_direct_with_ocr_failure_is_direct_partial() {
    let engine = PdfExtractor::new(args_with(false, false));
    let r = engine.resolve_with(
        Attempt::Success { text: String::from("thin"), pages: 2 },
        Attempt::Failure { message: String::from("tesseract missing") },
    );
    assert_eq!(r.method, Method::DirectPartial);
    assert_eq!(r.text, "thin");
    assert_eq!(r.page_count, 2);
    assert!(r.error_detail.is_none());
}

#[test]
fn both_strategies_failing_is_error_with_both_reasons() {
    let engine = PdfExtractor::new(args_with(false, false));
    let r = engine.resolve_with(
        Attempt::Failure { message: String::from("corrupt xref") },
        Attempt::Failure { message: String::from("no images") },
    );
    assert_eq!(r.method, Method::Error);
    assert_eq!(r.text, "");
    assert_eq!(r.page_count, 0);
    assert_eq!(r.error_detail.as_deref(), Some("Direct: corrupt xref, OCR: no images"));
}

#[test]
fn ocr_only_ignores_direct_entirely() {
    let engine = PdfExtractor::new(args_with(false, true));
    let good = long_text();
    let r = engine.resolve_with(
        Attempt::Success { text: good, pages: 9 },
        Attempt::Failure { message: String::from("backend down") },
    );
    assert_eq!(r.method, Method::Error);
    assert_eq!(r.text, "");
    assert_eq!(r.error_detail.as_deref(), Some("OCR failed: backend down"));

    let engine = PdfExtractor::new(args_with(false, true));
    let r = engine.resolve_with(
        Attempt::Failure { message: String::from("direct never consulted") },
        Attempt::Success { text: String::from("from ocr"), pages: 1 },
    );
    assert_eq!(r.method, Method::Ocr);
    assert_eq!(r.text, "from ocr");
}

#[test]
fn text_only_never_invokes_ocr() {
    let engine = PdfExtractor::new(args_with(true, false));
    let r = engine.resolve_with(
        Attempt::Success { text: String::from("thin"), pages: 1 },
        Attempt::Success { text: String::from("would have been ocr"), pages: 1 },
    );
    assert_eq!(r.method, Method::DirectPartial);
    assert_eq!(r.text, "thin");

    let engine = PdfExtractor::new(args_with(true, false));
    let r = engine.resolve_with(
        Attempt::Failure { message: String::from("corrupt") },
        Attempt::Success { text: String::from("would have been ocr"), pages: 1 },
    );
    assert_eq!(r.method, Method::Error);
    assert_eq!(r.error_detail.as_deref(), Some("Direct: corrupt"));
}

#[test]
fn empty_successful_extraction_is_not_an_error() {
    let engine = PdfExtractor::new(args_with(false, true));
    let r = engine.resolve_with(
        Attempt::Failure { message: String::from("unused") },
        Attempt::Success { text: String::new(), pages: 0 },
    );
    assert_eq!(r.method, Method::Ocr);
    assert_eq!(r.text, "");
    assert_eq!(r.page_count, 0);
    assert!(r.error_detail.is_none());
}

fn task(path: &str, fp: Option<&str>, direct: Attempt, ocr: Attempt) -> FileTask {
    FileTask {
        path: String::from(path),
        size: 100,
        fingerprint: fp.map(String::from),
        direct,
        ocr,
        elapsed_ms: 5,
        timestamp: 1000,
    }
}

#[test]
fn one_outcome_per_fingerprinted_file() {
    let engine = PdfExtractor::new(args_with(false, false));
    let tasks = vec![
        task(
            "a.pdf",
            Some("h1"),
            Attempt::Success { text: long_text(), pages: 1 },
            Attempt::Failure { message: String::from("x") },
        ),
        task(
            "b.pdf",
            None,
            Attempt::Success { text: long_text(), pages: 1 },
            Attempt::Failure { message: String::from("x") },
        ),
        task(
            "c.pdf",
            Some("h3"),
            Attempt::Failure { message: String::from("bad") },
            Attempt::Failure { message: String::from("worse") },
        ),
    ];
    let outcomes = engine.process_files(&tasks);
    assert_eq!(outcomes.len(), 2);
    assert_eq!(outcomes[0].file_path, "a.pdf");
    assert!(outcomes[0].success);
    assert_eq!(outcomes[0].extraction_method, Method::Direct);
    assert_eq!(outcomes[1].file_path, "c.pdf");
    assert!(!outcomes[1].success);
    assert_eq!(outcomes[1].extraction_method, Method::Error);
    for o in &outcomes {
        assert_eq!(o.success, o.extraction_method != Method::Error);
        if o.extraction_method == Method::Error {
            assert_eq!(o.extracted_text, "");
            assert!(o.error_message.is_some());
        } else {
            assert!(o.error_message.is_none());
        }
    }
}

#[test]
fn has_extractable_text_threshold() {
    let p = PdfProcessor::new();
    let exactly_50 = "x".repeat(50);
    let just_over = "x".repeat(51);
    assert!(!p.has_extractable_text(&exactly_50));
    assert!(p.has_extractable_text(&just_over));
    let padded = format!("   {}   \n", exactly_50);
    assert!(!p.has_extractable_text(&padded));
}

#[test]
fn choose_direct_text_prefers_longer_fallback_only_when_thin() {
    let p = PdfProcessor::new();
    let primary = String::from("short");
    let better = String::from("a noticeably longer fallback");
    let chosen = p.choose_direct_text(primary.clone(), Some(better.clone()));
    assert_eq!(chosen, better);

    let worse = String::from("s");
    let chosen = p.choose_direct_text(primary.clone(), Some(worse));
    assert_eq!(chosen, "short");

    let substantial = "y".repeat(80);
    let chosen = p.choose_direct_text(substantial.clone(), Some(String::from("ignored")));
    assert_eq!(chosen, substantial);
}

#[test]
fn assemble_page_texts_labels_non_blank_pages() {
    let p = PdfProcessor::new();
    let pages = vec![String::from("hello"), String::from("   "), String::from("world")];
    let direct = pdf_ocr::pdf::assemble_page_texts(&pages, false);
    assert_eq!(direct, "--- Page 1 ---\nhello\n\n--- Page 3 ---\nworld\n\n");
    let ocr = OcrProcessor::new(false);
    let recognized = ocr.assemble_ocr_text(&pages);
    assert_eq!(recognized, "--- Page 1 (OCR) ---\nhello\n\n--- Page 3 (OCR) ---\nworld\n\n");
    assert!(p.has_extractable_text(&"z".repeat(60)));
}

#[test]
fn ocr_disabled_in_text_only_mode() {
    assert!(!OcrProcessor::new(true).ocr_enabled());
    assert!(OcrProcessor::new(false).ocr_enabled());
}

#[test]
fn degraded_warning_issued_once_per_run_conditions() {
    let engine = PdfExtractor::new(args_with(false, false));
    assert!(engine.should_warn_degraded(false));
    assert!(!engine.should_warn_degraded(true));
    let engine = PdfExtractor::new(args_with(true, false));
    assert!(!engine.should_warn_degraded(false));
}

#[test]
fn scheduler_bounds_in_flight_files() {
    let mut s = SchedulerState::new(2, 5);
    assert!(s.can_dispatch());
    s.dispatch();
    s.dispatch();
    assert_eq!(s.in_flight, 2);
    assert!(!s.can_dispatch());
    s.complete();
    assert!(s.can_dispatch());
    s.dispatch();
    s.complete();
    s.complete();
    s.dispatch();
    s.dispatch();
    s.complete();
    s.complete();
    assert!(s.is_done());
    assert_eq!(s.completed, 5);
}

#[test]
fn concurrency_limit_has_floor_of_one() {
    let mut a = args_with(false, false);
    a.threads = 0;
    assert_eq!(a.concurrency_limit(), 1);
    a.threads = 8;
    assert_eq!(a.concurrency_limit(), 8);
}

#[test]
fn clone_for_task_keeps_configuration() {
    let engine = PdfExtractor::new(args_with(true, false));
    let copy = engine.clone_for_task();
    assert_eq!(copy.args.text_only, true);
    assert_eq!(copy.args.threads, 4);
    assert!(!copy.ocr_processor.ocr_enabled());
}
