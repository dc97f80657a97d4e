use pdf_ocr::database::{Batch, ExtractionResult, Method, ResultStore};
use pdf_ocr::query::{run_query, QueryCommand, QueryResponse};

fn row(path: &str, hash: &str, text: &str, success: bool, ms: u64, ts: u64) -> ExtractionResult {
    ExtractionResult {
        id: None,
        file_path: String::from(path),
        file_hash: Some(String::from(hash)),
        file_size: 123,
        extraction_method: if success { Method::Direct } else { Method::Error },
        extracted_text: if success { String::from(text) } else { String::new() },
        page_count: 1,
        processing_time_ms: ms,
        timestamp: ts,
        success,
        error_message: if success { None } else { Some(String::from("Direct: a, OCR: b")) },
    }
}

#[test]
fn upsert_replaces_same_key_instead_of_appending() {
    let mut store = ResultStore::new();
    store.insert_result(row("a.pdf", "h", "first text", true, 10, 1));
    store.insert_result(row("a.pdf", "h", "second text", true, 12, 2));
    assert_eq!(store.len(), 1);
    let hits = store.search_text("second", 10);
    assert_eq!(hits.len(), 1);
    let hits = store.search_text("first", 10);
    assert_eq!(hits.len(), 0);
}

#[test]
fn distinct_keys_are_kept_apart() {
    let mut store = ResultStore::new();
    store.insert_result(row("a.pdf", "h1", "one", true, 10, 1));
    store.insert_result(row("a.pdf", "h2", "two", true, 10, 2));
    store.insert_result(row("b.pdf", "h1", "three", true, 10, 3));
    assert_eq!(store.len(), 3);
    assert!(store.file_exists("a.pdf", "h1"));
    assert!(store.file_exists("a.pdf", "h2"));
    assert!(store.file_exists("b.pdf", "h1"));
    assert!(!store.file_exists("b.pdf", "h2"));
    assert!(!store.file_exists("c.pdf", "h1"));
}

#[test]
fn rerun_of_same_batch_leaves_total_unchanged() {
    let mut store = ResultStore::new();
    let batch = vec![
        row("a.pdf", "h1", "alpha", true, 10, 1),
        row("b.pdf", "h2", "beta", true, 20, 2),
        row("c.pdf", "h3", "", false, 30, 3),
    ];
    store.batch_insert(&batch);
    assert_eq!(store.get_stats().total, 3);
    store.batch_insert(&batch);
    let stats = store.get_stats();
    assert_eq!(stats.total, 3);
    assert_eq!(stats.successful, 2);
    assert_eq!(stats.failed, 1);
}

#[test]
fn uncommitted_batch_is_never_visible() {
    let mut store = ResultStore::new();
    store.insert_result(row("kept.pdf", "h0", "existing", true, 5, 1));
    let mut staged = Batch::new();
    staged.stage(row("x.pdf", "h1", "one", true, 10, 2));
    staged.stage(row("y.pdf", "h2", "two", true, 10, 3));
    assert_eq!(staged.len(), 2);
    drop(staged);
    assert_eq!(store.len(), 1);
    assert!(!store.file_exists("x.pdf", "h1"));
    assert!(!store.file_exists("y.pdf", "h2"));
    assert!(store.file_exists("kept.pdf", "h0"));
}

#[test]
fn committed_batch_is_visible_as_a_whole() {
    let mut store = ResultStore::new();
    let mut staged = Batch::new();
    staged.stage(row("x.pdf", "h1", "one", true, 10, 2));
    staged.stage(row("y.pdf", "h2", "two", true, 10, 3));
    store.commit(staged);
    assert_eq!(store.len(), 2);
    assert!(store.file_exists("x.pdf", "h1"));
    assert!(store.file_exists("y.pdf", "h2"));
}

#[test]
fn stats_average_covers_successful_rows_only() {
    let mut store = ResultStore::new();
    store.insert_result(row("a.pdf", "h1", "alpha", true, 100, 1));
    store.insert_result(row("b.pdf", "h2", "beta", true, 200, 2));
    store.insert_result(row("c.pdf", "h3", "", false, 9999, 3));
    let stats = store.get_stats();
    assert_eq!(stats.total, 3);
    assert_eq!(stats.successful, 2);
    assert_eq!(stats.failed, 1);
    assert_eq!(stats.avg_processing_time_ms, 150);
}

#[test]
fn stats_of_empty_store_are_zero() {
    let store = ResultStore::new();
    let stats = store.get_stats();
    assert_eq!(stats.total, 0);
    assert_eq!(stats.successful, 0);
    assert_eq!(stats.failed, 0);
    assert_eq!(stats.avg_processing_time_ms, 0);
}

#[test]
fn search_is_most_recent_first_and_truncated() {
    let mut store = ResultStore::new();
    store.insert_result(row("a.pdf", "h1", "needle in old text", true, 10, 100));
    store.insert_result(row("b.pdf", "h2", "nothing relevant", true, 10, 200));
    store.insert_result(row("c.pdf", "h3", "needle in newer text", true, 10, 300));
    store.insert_result(row("d.pdf", "h4", "needle in newest text", true, 10, 400));
    let hits = store.search_text("needle", 10);
    assert_eq!(hits.len(), 3);
    assert_eq!(hits[0].file_path, "d.pdf");
    assert_eq!(hits[1].file_path, "c.pdf");
    assert_eq!(hits[2].file_path, "a.pdf");
    assert_eq!(hits[0].timestamp, 400);
    let limited = store.search_text("needle", 2);
    assert_eq!(limited.len(), 2);
    assert_eq!(limited[0].file_path, "d.pdf");
    assert_eq!(limited[1].file_path, "c.pdf");
}

#[test]
fn search_is_case_sensitive_and_skips_failed_rows() {
    let mut store = ResultStore::new();
    store.insert_result(row("a.pdf", "h1", "Needle", true, 10, 1));
    let mut failed = row("b.pdf", "h2", "", false, 10, 2);
    failed.error_message = Some(String::from("needle in the reason"));
    store.insert_result(failed);
    assert_eq!(store.search_text("needle", 10).len(), 0);
    assert_eq!(store.search_text("Needle", 10).len(), 1);
}

#[test]
fn search_preview_is_truncated_to_200_chars() {
    let mut store = ResultStore::new();
    let text = format!("needle{}", "x".repeat(500));
    store.insert_result(row("a.pdf", "h1", &text, true, 10, 1));
    let hits = store.search_text("needle", 10);
    assert_eq!(hits.len(), 1);
    assert_eq!(hits[0].preview.chars().count(), 200);
    assert!(hits[0].preview.starts_with("needle"));
}

#[test]
fn export_report_format_and_path_order() {
    let mut store = ResultStore::new();
    store.insert_result(row("b.pdf", "h2", "beta body", true, 10, 20));
    store.insert_result(row("a.pdf", "h1", "", false, 10, 10));
    let report = store.export_report();
    let rule = "=".repeat(80);
    let expected = format!(
        "PDF Text Extraction Results (Rust Edition)\n{rule}\n\n\
         FILE: a.pdf\nMETHOD: error\nSUCCESS: false\nTIMESTAMP: 10\n{rule}\n\
         ERROR: Direct: a, OCR: b\n\n{rule}\n\n\
         FILE: b.pdf\nMETHOD: direct\nSUCCESS: true\nTIMESTAMP: 20\n{rule}\n\
         beta body\n{rule}\n\n"
    );
    assert_eq!(report, expected);
}

#[test]
fn run_query_dispatches_to_the_store() {
    let mut store = ResultStore::new();
    store.insert_result(row("a.pdf", "h1", "alpha", true, 100, 1));
    match run_query(&store, &QueryCommand::Stats) {
        QueryResponse::Stats { stats } => {
            assert_eq!(stats.total, 1);
            assert_eq!(stats.successful, 1);
        }
        _ => panic!("stats query must answer stats"),
    }
    match run_query(&store, &QueryCommand::Search { query: String::from("alpha"), limit: 5 }) {
        QueryResponse::Hits { hits } => assert_eq!(hits.len(), 1),
        _ => panic!("search query must answer hits"),
    }
    match run_query(&store, &QueryCommand::List { method: None, include_failed: false }) {
        QueryResponse::Unsupported => {}
        _ => panic!("list is unimplemented"),
    }
}

#[test]
fn method_names_match_storage_values() {
    assert_eq!(Method::Direct.as_str(), "direct");
    assert_eq!(Method::Ocr.as_str(), "ocr");
    assert_eq!(Method::DirectPartial.as_str(), "direct_partial");
    assert_eq!(Method::Error.as_str(), "error");
}
