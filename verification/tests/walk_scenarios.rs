use code2prompt::limiter::{Limits, SkipReason};
use code2prompt::report::{file_block, skip_message, summarize};
use code2prompt::walk::{Action, Event, Walk};

fn limits(max_files: usize, max_total_size: u64, max_file_size: u64) -> Limits {
    Limits { max_files, max_total_size, max_file_size }
}

fn default_limits() -> Limits {
    limits(10000, 104857600, 1048576)
}

fn file_event(path: &str, rel: &str, depth: usize, name: &str, size: u64) -> Event {
    Event::File {
        path: path.to_string(),
        rel: rel.to_string(),
        depth,
        name: name.to_string(),
        size: Ok(size),
    }
}

#[test]
fn one_small_text_file_is_admitted() {
    let mut w = Walk::new(default_limits());
    assert_eq!(w.step(Event::Root { name: "proj".to_string() }), Action::Continue);
    let a = w.step(file_event("/proj/a.txt", "a.txt", 1, "a.txt", 10));
    assert_eq!(a, Action::ReadSample);
    let a = w.step(Event::Sample { bytes: Ok(b"hello text".to_vec()) });
    assert_eq!(a, Action::ReadContent);
    let a = w.step(Event::Content { text: Ok("hello text".to_string()) });
    assert_eq!(a, Action::Continue);

    assert_eq!(w.tree_text(), "└── proj\n└── a.txt");
    assert_eq!(w.admitted.len(), 1);
    assert_eq!(w.admitted[0].content, "hello text");
    assert_eq!(w.admitted[0].size, 10);
    assert!(w.skips.is_empty());
    assert_eq!(w.limiter.files_admitted, 1);
    assert_eq!(w.limiter.bytes_admitted, 10);

    let rep = summarize(&w.admitted).unwrap();
    assert_eq!(rep.files_analyzed, 1);
    assert!(rep.estimated_tokens > 0);
}

#[test]
fn nul_byte_in_sample_marks_binary_without_skip() {
    let mut w = Walk::new(default_limits());
    w.step(Event::Root { name: "proj".to_string() });
    let a = w.step(file_event("/proj/b.bin", "b.bin", 1, "b.bin", 4));
    assert_eq!(a, Action::ReadSample);
    let a = w.step(Event::Sample { bytes: Ok(vec![b'a', 0x00, b'b']) });
    assert_eq!(a, Action::Continue);

    assert_eq!(w.tree_text(), "└── proj\n└── b.bin [Non-text file]");
    assert!(w.admitted.is_empty());
    assert!(w.skips.is_empty());
    assert_eq!(w.limiter.files_admitted, 0);
    assert_eq!(w.limiter.bytes_admitted, 0);
}

#[test]
fn file_count_limit_skips_second_file() {
    let lim = limits(1, 104857600, 1048576);
    let mut w = Walk::new(lim);
    w.step(Event::Root { name: "proj".to_string() });

    w.step(file_event("/proj/one.txt", "one.txt", 1, "one.txt", 3));
    w.step(Event::Sample { bytes: Ok(b"abc".to_vec()) });
    w.step(Event::Content { text: Ok("abc".to_string()) });

    let a = w.step(file_event("/proj/two.txt", "two.txt", 1, "two.txt", 3));
    assert_eq!(a, Action::Continue);

    assert_eq!(w.admitted.len(), 1);
    assert_eq!(w.skips.len(), 1);
    assert_eq!(w.skips[0].reason, SkipReason::FileCountLimit);
    assert_eq!(
        skip_message(&w.skips[0], &lim),
        "Skipping file /proj/two.txt: Maximum file limit (1) reached"
    );
    // Exactly one content block.
    let blocks: Vec<String> = w.admitted.iter().map(file_block).collect();
    assert_eq!(blocks.len(), 1);
    assert_eq!(
        blocks[0],
        "==================================================\n\
         File: one.txt\n\
         ==================================================\n\
         abc\n"
    );
}

#[test]
fn oversized_file_is_skipped_and_totals_unchanged() {
    let lim = limits(10000, 104857600, 4);
    let mut w = Walk::new(lim);
    w.step(Event::Root { name: "proj".to_string() });
    let a = w.step(file_event("/proj/big.txt", "big.txt", 1, "big.txt", 10));
    assert_eq!(a, Action::Continue);

    assert_eq!(w.skips.len(), 1);
    assert_eq!(w.skips[0].reason, SkipReason::PerFileSizeLimit);
    assert_eq!(
        skip_message(&w.skips[0], &lim),
        "Skipping file /proj/big.txt: File exceeds maximum size (4 bytes)"
    );
    assert_eq!(w.limiter.files_admitted, 0);
    assert_eq!(w.limiter.bytes_admitted, 0);
    assert!(w.admitted.is_empty());
    // No tree line for a limit-skipped file.
    assert_eq!(w.tree_text(), "└── proj");
}

#[test]
fn total_size_limit_rejects_even_the_first_file() {
    // The cumulative check comes before the per-file check, so a first file
    // that alone overflows the total is reported under the total-size limit
    // even though its size is within the per-file limit.
    let lim = limits(10000, 5, 100);
    let mut w = Walk::new(lim);
    w.step(Event::Root { name: "proj".to_string() });
    let a = w.step(file_event("/proj/first.txt", "first.txt", 1, "first.txt", 10));
    assert_eq!(a, Action::Continue);

    assert_eq!(w.skips.len(), 1);
    assert_eq!(w.skips[0].reason, SkipReason::TotalSizeLimit);
    assert_eq!(
        skip_message(&w.skips[0], &lim),
        "Skipping file /proj/first.txt: Total size limit (5 bytes) reached"
    );
    assert_eq!(w.limiter.bytes_admitted, 0);
}

#[test]
fn size_read_error_becomes_read_error_skip() {
    let lim = default_limits();
    let mut w = Walk::new(lim);
    w.step(Event::Root { name: "proj".to_string() });
    let a = w.step(Event::File {
        path: "/proj/gone.txt".to_string(),
        rel: "gone.txt".to_string(),
        depth: 1,
        name: "gone.txt".to_string(),
        size: Err("permission denied".to_string()),
    });
    assert_eq!(a, Action::Continue);
    assert_eq!(w.skips.len(), 1);
    assert_eq!(w.skips[0].reason, SkipReason::ReadError);
    assert_eq!(
        skip_message(&w.skips[0], &lim),
        "Error reading file /proj/gone.txt: permission denied"
    );
}

#[test]
fn sample_read_error_becomes_classification_error_skip() {
    let lim = default_limits();
    let mut w = Walk::new(lim);
    w.step(Event::Root { name: "proj".to_string() });
    w.step(file_event("/proj/c.txt", "c.txt", 1, "c.txt", 3));
    let a = w.step(Event::Sample { bytes: Err("interrupted".to_string()) });
    assert_eq!(a, Action::Continue);
    assert_eq!(w.skips.len(), 1);
    assert_eq!(w.skips[0].reason, SkipReason::ClassificationError);
    assert_eq!(
        skip_message(&w.skips[0], &lim),
        "Error checking if file is text: /proj/c.txt: interrupted"
    );
    assert_eq!(w.limiter.files_admitted, 0);
}

#[test]
fn content_read_error_does_not_commit() {
    let mut w = Walk::new(default_limits());
    w.step(Event::Root { name: "proj".to_string() });
    w.step(file_event("/proj/d.txt", "d.txt", 1, "d.txt", 3));
    w.step(Event::Sample { bytes: Ok(b"abc".to_vec()) });
    let a = w.step(Event::Content { text: Err("stream did not contain valid UTF-8".to_string()) });
    assert_eq!(a, Action::Continue);
    assert_eq!(w.skips.len(), 1);
    assert_eq!(w.skips[0].reason, SkipReason::ReadError);
    assert_eq!(w.limiter.files_admitted, 0);
    assert_eq!(w.limiter.bytes_admitted, 0);
    assert!(w.admitted.is_empty());
    // The failed file gets no tree line.
    assert_eq!(w.tree_text(), "└── proj");
}

#[test]
fn directories_are_never_limited() {
    let mut w = Walk::new(limits(0, 0, 0));
    w.step(Event::Root { name: "proj".to_string() });
    let a = w.step(Event::Directory { depth: 1, name: "src".to_string() });
    assert_eq!(a, Action::Continue);
    let a = w.step(Event::Directory { depth: 2, name: "nested".to_string() });
    assert_eq!(a, Action::Continue);
    assert_eq!(w.tree_text(), "└── proj\n├── src\n    ├── nested");
    assert!(w.skips.is_empty());
}

#[test]
fn every_entry_is_accounted_once() {
    let mut w = Walk::new(limits(2, 100, 100));
    w.step(Event::Root { name: "proj".to_string() });
    w.step(Event::Directory { depth: 1, name: "src".to_string() });
    // Admitted text file.
    w.step(file_event("/proj/src/a.txt", "src/a.txt", 2, "a.txt", 2));
    w.step(Event::Sample { bytes: Ok(b"ok".to_vec()) });
    w.step(Event::Content { text: Ok("ok".to_string()) });
    // Binary file: classified, annotated, not admitted.
    w.step(file_event("/proj/src/b.bin", "src/b.bin", 2, "b.bin", 2));
    w.step(Event::Sample { bytes: Ok(vec![0x00]) });
    // Second admitted text file fills the count limit.
    w.step(file_event("/proj/src/c.txt", "src/c.txt", 2, "c.txt", 2));
    w.step(Event::Sample { bytes: Ok(b"ok".to_vec()) });
    w.step(Event::Content { text: Ok("ok".to_string()) });
    // Rejected by the file-count limit.
    w.step(file_event("/proj/src/d.txt", "src/d.txt", 2, "d.txt", 2));

    // 6 entries: root, dir, two admitted, one binary, one skipped.
    assert_eq!(w.entries, 6);
    let dirs = 2; // root line and directory line
    let binaries = 1;
    assert_eq!(w.entries, dirs + binaries + w.admitted.len() + w.skips.len());
}

fn scripted_run() -> Walk {
    let mut w = Walk::new(limits(2, 1000, 100));
    w.step(Event::Root { name: "proj".to_string() });
    w.step(Event::Directory { depth: 1, name: "src".to_string() });
    w.step(file_event("/proj/src/a.txt", "src/a.txt", 2, "a.txt", 5));
    w.step(Event::Sample { bytes: Ok(b"alpha".to_vec()) });
    w.step(Event::Content { text: Ok("alpha".to_string()) });
    w.step(file_event("/proj/src/b.bin", "src/b.bin", 2, "b.bin", 3));
    w.step(Event::Sample { bytes: Ok(vec![1, 2, 3]) });
    w.step(file_event("/proj/src/c.txt", "src/c.txt", 2, "c.txt", 4));
    w.step(Event::Sample { bytes: Ok(b"beta".to_vec()) });
    w.step(Event::Content { text: Ok("beta".to_string()) });
    w.step(file_event("/proj/src/d.txt", "src/d.txt", 2, "d.txt", 4));
    w
}

#[test]
fn identical_runs_give_identical_output() {
    let first = scripted_run();
    let second = scripted_run();
    assert_eq!(first.tree_text(), second.tree_text());
    let contents_first: Vec<&String> = first.admitted.iter().map(|f| &f.content).collect();
    let contents_second: Vec<&String> = second.admitted.iter().map(|f| &f.content).collect();
    assert_eq!(contents_first, contents_second);
    assert_eq!(first.limiter.bytes_admitted, second.limiter.bytes_admitted);
    assert_eq!(first.skips.len(), second.skips.len());
}

#[test]
fn bytes_admitted_matches_stored_sizes() {
    let w = scripted_run();
    let total: u64 = w.admitted.iter().map(|f| f.size).sum();
    assert_eq!(w.limiter.bytes_admitted, total);
    assert_eq!(w.limiter.files_admitted, w.admitted.len());
    assert!(w.limiter.files_admitted <= w.limiter.limits.max_files);
    assert!(w.limiter.bytes_admitted <= w.limiter.limits.max_total_size);
}
