use blame_lsp::blame::{
    attribution_record, format_blame_text, get_blame_text, get_hunk_for_line, hover_contents,
    render, resolve_line, AttributionRecord, BlameError, CommitInfo, CommitRef, Hunk,
};
use blame_lsp::path::{relativize, OutsideWorkdir};

const NOW: i64 = 1_700_000_000;
const ID_A: &str = "0123456789abcdef0123456789abcdef01234567";

fn hunks_a_then_uncommitted() -> Vec<Hunk> {
    vec![
        Hunk { lines: 3, commit: CommitRef::Committed(ID_A.to_string()) },
        Hunk { lines: 3, commit: CommitRef::Uncommitted },
    ]
}

fn commit_a(message: &str) -> CommitInfo {
    CommitInfo {
        id: ID_A.to_string(),
        author: Some("Ann".to_string()),
        message: Some(message.to_string()),
        time: NOW - 30,
    }
}

#[test]
fn hunk_lookup_walks_the_running_count() {
    let hunks = hunks_a_then_uncommitted();
    assert_eq!(get_hunk_for_line(&hunks, 1), Ok(0));
    assert_eq!(get_hunk_for_line(&hunks, 3), Ok(0));
    assert_eq!(get_hunk_for_line(&hunks, 4), Ok(1));
    assert_eq!(get_hunk_for_line(&hunks, 6), Ok(1));
    assert_eq!(get_hunk_for_line(&hunks, 7), Err(BlameError::LineNotFound));
    assert_eq!(get_hunk_for_line(&Vec::new(), 1), Err(BlameError::LineNotFound));
}

#[test]
fn empty_hunks_are_skipped() {
    let hunks = vec![
        Hunk { lines: 0, commit: CommitRef::Uncommitted },
        Hunk { lines: 2, commit: CommitRef::Committed(ID_A.to_string()) },
    ];
    assert_eq!(get_hunk_for_line(&hunks, 1), Ok(1));
}

#[test]
fn resolve_counts_lines_from_zero() {
    let hunks = hunks_a_then_uncommitted();
    assert_eq!(resolve_line(&hunks, 0), Ok(CommitRef::Committed(ID_A.to_string())));
    assert_eq!(resolve_line(&hunks, 3), Ok(CommitRef::Uncommitted));
    assert_eq!(resolve_line(&hunks, 6), Err(BlameError::LineNotFound));
    assert_eq!(resolve_line(&hunks, u32::MAX), Err(BlameError::LineNotFound));
}

#[test]
fn uncommitted_and_committed_lines() {
    let hunks = hunks_a_then_uncommitted();
    // one-indexed line 5 is zero-indexed 4
    let text = get_blame_text(&hunks, 4, |_id: &String| -> Option<CommitInfo> { panic!("no lookup") }, NOW);
    assert_eq!(text, Ok("Uncommitted changes".to_string()));
    // one-indexed line 2 is zero-indexed 1
    let text = get_blame_text(
        &hunks,
        1,
        |id: &String| {
            assert_eq!(id, ID_A);
            Some(commit_a("Fix parser\n\nHandle empty input."))
        },
        NOW,
    );
    assert_eq!(
        text,
        Ok("**Fix parser**\n*Ann \u{2022} 30s ago \u{2022} 01234567*\n\nHandle empty input.".to_string())
    );
}

#[test]
fn missing_commit_is_an_error() {
    let hunks = hunks_a_then_uncommitted();
    assert_eq!(get_blame_text(&hunks, 0, |_id: &String| None, NOW), Err(BlameError::CommitNotFound));
    assert_eq!(get_blame_text(&hunks, 9, |_id: &String| None, NOW), Err(BlameError::LineNotFound));
}

#[test]
fn empty_body_leaves_no_blank_lines() {
    let text = format_blame_text(&commit_a("  Fix parser \n\n"), NOW).unwrap();
    assert_eq!(text, "**Fix parser**\n*Ann \u{2022} 30s ago \u{2022} 01234567*");
    assert_eq!(text.trim(), text);
}

#[test]
fn body_whitespace_is_trimmed_at_the_end() {
    let text = format_blame_text(&commit_a("Subject\n\nBody line\n\nMore\n  \n"), NOW).unwrap();
    assert_eq!(text, "**Subject**\n*Ann \u{2022} 30s ago \u{2022} 01234567*\n\nBody line\n\nMore");
    assert_eq!(text.trim(), text);
}

#[test]
fn record_splits_subject_and_body() {
    let rec = attribution_record(&commit_a("One\ntwo\n\nthree\n\nfour")).unwrap();
    assert_eq!(rec.subject, "One\ntwo");
    assert_eq!(rec.body, "three\n\nfour");
    assert_eq!(rec.short_id, "01234567");
    assert_eq!(rec.author, "Ann");
    assert_eq!(rec.timestamp, NOW - 30);
    let rec = attribution_record(&commit_a("Only a subject")).unwrap();
    assert_eq!(rec.subject, "Only a subject");
    assert_eq!(rec.body, "");
}

#[test]
fn short_ids_keep_what_there_is() {
    let mut c = commit_a("x");
    c.id = "abc".to_string();
    assert_eq!(attribution_record(&c).unwrap().short_id, "abc");
}

#[test]
fn record_errors() {
    let mut c = commit_a("x");
    c.author = None;
    assert_eq!(attribution_record(&c), Err(BlameError::MissingAuthor));
    c.message = None;
    assert_eq!(attribution_record(&c), Err(BlameError::MissingMessage));
    let mut c = commit_a("x");
    c.time = i64::MIN;
    assert_eq!(attribution_record(&c), Err(BlameError::TimeOutOfRange));
    assert_eq!(format_blame_text(&c, NOW), Err(BlameError::TimeOutOfRange));
}

#[test]
fn render_of_a_record() {
    let rec = AttributionRecord {
        author: "Bo".to_string(),
        timestamp: NOW + 10,
        short_id: "deadbeef".to_string(),
        subject: "Add".to_string(),
        body: String::new(),
    };
    assert_eq!(render(&rec, NOW), "**Add**\n*Bo \u{2022} in 10s \u{2022} deadbeef*");
}

#[test]
fn hover_declines_only_on_missing_line() {
    assert_eq!(hover_contents(Ok("t".to_string())), Ok(Some("t".to_string())));
    assert_eq!(hover_contents(Err(BlameError::LineNotFound)), Ok(None));
    assert_eq!(hover_contents(Err(BlameError::NotInWorkdir)), Err(BlameError::NotInWorkdir));
    assert_eq!(hover_contents(Err(BlameError::MissingAuthor)), Err(BlameError::MissingAuthor));
}

#[test]
fn no_repository_declines() {
    assert_eq!(relativize("/tmp/notes.txt", None), Ok(None));
}

#[test]
fn relative_paths() {
    assert_eq!(relativize("/repo/src/a.rs", Some("/repo/")), Ok(Some("src/a.rs".to_string())));
    assert_eq!(relativize("/repo/src/a.rs", Some("/repo")), Ok(Some("src/a.rs".to_string())));
    assert_eq!(relativize("/repository/a.rs", Some("/repo")), Err(OutsideWorkdir));
    assert_eq!(relativize("/other/a.rs", Some("/repo/")), Err(OutsideWorkdir));
}
