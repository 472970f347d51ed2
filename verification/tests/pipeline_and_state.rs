use snacc::cells::CellFilter;
use snacc::latest::{FileEntry, get_latest_ipynb};
use snacc::ledger::DedupLedger;
use snacc::pipeline::{DeleteOutcome, HandlerError, finish_handling, process_notebook_text, success_message};
use snacc::text::usize_to_string;
use snacc::watcher::{FsEventKind, consider_event};
use snacc::app_state::SnaccApp;

#[test]
fn processing_real_notebook_text() {
    let json = "{\"cells\":[{\"cell_type\":\"code\",\"source\":\"print(1)\"},{\"cell_type\":\"markdown\",\"source\":\"# Title\"}]}";
    let p = process_notebook_text(json, CellFilter::Code).unwrap();
    assert_eq!(p.text, "```python\nprint(1)\n```");
    assert_eq!(p.block_count, 1);
    let p_all = process_notebook_text(json, CellFilter::All).unwrap();
    assert_eq!(p_all.text, "```python\nprint(1)\n```\n\n```\n# Title\n```");
    assert_eq!(p_all.block_count, 2);
}

#[test]
fn processing_fragmented_source() {
    let json = r#"{"cells":[{"cell_type":"code","source":["a\n","b\n",3]}]}"#;
    let p = process_notebook_text(json, CellFilter::Code).unwrap();
    assert_eq!(p.text, "```python\na\nb\n```");
}

#[test]
fn malformed_json_is_a_parse_error() {
    let r = process_notebook_text("{not json", CellFilter::Code);
    match r {
        Err(HandlerError::Parse(_)) => {}
        other => panic!("expected a parse error, got {:?}", other.is_ok()),
    }
}

#[test]
fn document_without_cells_is_missing_cells() {
    let r = process_notebook_text(r#"{"metadata":{}}"#, CellFilter::Code);
    match &r {
        Err(e @ HandlerError::MissingCells) => {
            assert_eq!(e.message(), "⚠️ No 'cells' array found.");
        }
        _ => panic!("expected MissingCells"),
    }
}

#[test]
fn no_matching_content_names_the_filter() {
    let r = process_notebook_text(r#"{"cells":[{"cell_type":"markdown","source":"x"}]}"#, CellFilter::Code);
    match &r {
        Err(e @ HandlerError::NoMatchingContent(CellFilter::Code)) => {
            assert_eq!(e.message(), "⚠️ No code blocks found.");
        }
        _ => panic!("expected NoMatchingContent(Code)"),
    }
}

#[test]
fn success_messages_cover_all_outcomes() {
    assert_eq!(
        success_message(2, CellFilter::Code, &DeleteOutcome::Kept),
        "✅ Copied 2 code cells to clipboard."
    );
    assert_eq!(
        success_message(1, CellFilter::All, &DeleteOutcome::Deleted("/d/n.ipynb".to_string())),
        "✅ Copied 1 all cells to clipboard.\n🗑️ Deleted: /d/n.ipynb"
    );
    assert_eq!(
        success_message(3, CellFilter::Markdown, &DeleteOutcome::DeleteFailed("busy".to_string())),
        "✅ Copied 3 markdown cells to clipboard.\n⚠️ Could not delete file: busy"
    );
}

#[test]
fn deletion_failure_still_succeeds() {
    let r = finish_handling(
        2,
        CellFilter::Code,
        Ok(()),
        DeleteOutcome::DeleteFailed("permission denied".to_string()),
    );
    let msg = r.unwrap();
    assert!(msg.starts_with("✅ Copied 2 code cells to clipboard."));
    assert!(msg.contains("⚠️ Could not delete file: permission denied"));
}

#[test]
fn publish_failure_aborts_the_pipeline() {
    let r = finish_handling(
        2,
        CellFilter::Code,
        Err(HandlerError::ClipboardSet("no display".to_string())),
        DeleteOutcome::Kept,
    );
    match r {
        Err(e) => assert_eq!(e.message(), "❌ Failed to copy to clipboard: no display"),
        Ok(_) => panic!("expected an error"),
    }
}

#[test]
fn decimal_rendering() {
    assert_eq!(usize_to_string(0), "0");
    assert_eq!(usize_to_string(7), "7");
    assert_eq!(usize_to_string(12345), "12345");
}

#[test]
fn ledger_suppresses_exact_repeats_only() {
    let mut ledger = DedupLedger::new();
    let p = "/downloads/nb.ipynb".to_string();
    assert!(ledger.should_process(&p, 10));
    assert!(!ledger.should_process(&p, 10));
    assert!(ledger.should_process(&p, 11));
    assert!(!ledger.should_process(&p, 11));
    let q = "/downloads/other.ipynb".to_string();
    assert!(ledger.should_process(&q, 10));
}

#[test]
fn selector_returns_none_without_candidates() {
    assert_eq!(get_latest_ipynb(&vec![]), None);
    let only_txt = vec![FileEntry { name: "c.txt".to_string(), modified: Some(9) }];
    assert_eq!(get_latest_ipynb(&only_txt), None);
}

#[test]
fn selector_picks_the_newest_notebook() {
    let entries = vec![
        FileEntry { name: "a.ipynb".to_string(), modified: Some(1) },
        FileEntry { name: "b.ipynb".to_string(), modified: Some(5) },
        FileEntry { name: "c.txt".to_string(), modified: Some(9) },
    ];
    assert_eq!(get_latest_ipynb(&entries), Some("b.ipynb".to_string()));
}

#[test]
fn selector_edge_cases() {
    let entries = vec![
        FileEntry { name: "old.ipynb".to_string(), modified: None },
        FileEntry { name: "new.ipynb".to_string(), modified: Some(1) },
    ];
    assert_eq!(get_latest_ipynb(&entries), Some("new.ipynb".to_string()));
    // a tie goes to the later entry, as a stable ascending sort would have it
    let tie = vec![
        FileEntry { name: "first.ipynb".to_string(), modified: Some(4) },
        FileEntry { name: "second.ipynb".to_string(), modified: Some(4) },
    ];
    assert_eq!(get_latest_ipynb(&tie), Some("second.ipynb".to_string()));
    // a bare ".ipynb" has no extension, and "x.txt" does not match
    let none = vec![FileEntry { name: ".ipynb".to_string(), modified: Some(3) }];
    assert_eq!(get_latest_ipynb(&none), None);
}

#[test]
fn watcher_filters_events_before_the_ledger() {
    let mut ledger = DedupLedger::new();
    let nb = "/d/a.ipynb".to_string();
    let txt = "/d/a.txt".to_string();
    assert!(!consider_event(&mut ledger, FsEventKind::Other, &nb, Some(1)));
    assert!(!consider_event(&mut ledger, FsEventKind::Create, &txt, Some(1)));
    assert!(!consider_event(&mut ledger, FsEventKind::Create, &nb, None));
    assert!(consider_event(&mut ledger, FsEventKind::Create, &nb, Some(1)));
    assert!(!consider_event(&mut ledger, FsEventKind::Modify, &nb, Some(1)));
    assert!(consider_event(&mut ledger, FsEventKind::Modify, &nb, Some(2)));
}

#[test]
fn app_state_transitions() {
    let mut app = SnaccApp::default();
    assert_eq!(app.status, "");
    assert!(!app.watching);
    app.record_copy_result(Ok("done".to_string()));
    assert_eq!(app.status, "done");
    app.record_copy_result(Err("no notebook".to_string()));
    assert_eq!(app.status, "❌ no notebook");
    app.start_watching();
    assert!(app.watching);
    assert_eq!(app.status, "🔁 Watch mode running...");
}
