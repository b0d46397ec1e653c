use code2prompt::classify::is_text_sample;
use code2prompt::limiter::{AdmitDecision, Limiter, Limits, SkipReason};
use code2prompt::report::{file_block, report_text, Report};
use code2prompt::text::{format_size, trim_end_str, u64_to_string, usize_to_string};
use code2prompt::tree::{indent_string, render_item, TreeItem};
use code2prompt::walk::AdmittedFile;

#[test]
fn decimal_rendering() {
    assert_eq!(u64_to_string(0), "0");
    assert_eq!(u64_to_string(7), "7");
    assert_eq!(u64_to_string(10), "10");
    assert_eq!(u64_to_string(1234567890), "1234567890");
    assert_eq!(u64_to_string(u64::MAX), "18446744073709551615");
    assert_eq!(usize_to_string(10000), "10000");
}

#[test]
fn format_size_bytes_kb_mb() {
    assert_eq!(format_size(0), "0 bytes");
    assert_eq!(format_size(512), "512 bytes");
    assert_eq!(format_size(1023), "1023 bytes");
    assert_eq!(format_size(1024), "1.00 KB");
    assert_eq!(format_size(1536), "1.50 KB");
    assert_eq!(format_size(2048), "2.00 KB");
    assert_eq!(format_size(1048575), "1024.00 KB");
    assert_eq!(format_size(1048576), "1.00 MB");
    assert_eq!(format_size(104857600), "100.00 MB");
    assert_eq!(format_size(1572864), "1.50 MB");
}

#[test]
fn format_size_rounds_half_to_even() {
    // 1152 / 1024 = 1.125 exactly: the tie rounds down to the even hundredth.
    assert_eq!(format_size(1152), "1.12 KB");
    // 1177.6 / 1024 would not be a tie; 1178 / 1024 = 1.150390625 rounds up.
    assert_eq!(format_size(1178), "1.15 KB");
    // 1408 / 1024 = 1.375: the tie rounds up to the even hundredth.
    assert_eq!(format_size(1408), "1.38 KB");
}

#[test]
fn classifier_accepts_plain_text() {
    assert!(is_text_sample(b""));
    assert!(is_text_sample(b"hello world\n"));
    assert!(is_text_sample(b"tabs\tand\rreturns\n"));
    // High-bit bytes pass the heuristic.
    assert!(is_text_sample(&[0xc3, 0xa9]));
    assert!(is_text_sample(&[0x7f, 0xff]));
}

#[test]
fn classifier_rejects_control_bytes() {
    assert!(!is_text_sample(&[0x00]));
    assert!(!is_text_sample(b"abc\x00def"));
    assert!(!is_text_sample(&[0x1f]));
    assert!(!is_text_sample(&[0x08]));
    assert!(!is_text_sample(&[0x0b]));
}

#[test]
fn limiter_checks_in_fixed_order() {
    let limits = Limits { max_files: 0, max_total_size: 0, max_file_size: 0 };
    let l = Limiter::new(limits);
    // All three limits are violated; the file-count check wins.
    assert_eq!(l.decide(100), AdmitDecision::Reject(SkipReason::FileCountLimit));

    let limits = Limits { max_files: 5, max_total_size: 10, max_file_size: 1000 };
    let mut l = Limiter::new(limits);
    // Total-size check comes before per-file size.
    assert_eq!(l.decide(50), AdmitDecision::Reject(SkipReason::TotalSizeLimit));
    assert_eq!(l.decide(10), AdmitDecision::Admit);
    l.commit(10);
    assert_eq!(l.files_admitted, 1);
    assert_eq!(l.bytes_admitted, 10);
    // The total is now exhausted.
    assert_eq!(l.decide(1), AdmitDecision::Reject(SkipReason::TotalSizeLimit));
    // A zero-byte file still fits.
    assert_eq!(l.decide(0), AdmitDecision::Admit);
}

#[test]
fn limiter_per_file_check() {
    let limits = Limits { max_files: 5, max_total_size: 1000, max_file_size: 8 };
    let l = Limiter::new(limits);
    assert_eq!(l.decide(9), AdmitDecision::Reject(SkipReason::PerFileSizeLimit));
    assert_eq!(l.decide(8), AdmitDecision::Admit);
}

#[test]
fn trimming_trailing_whitespace() {
    assert_eq!(trim_end_str("abc \t \n"), "abc");
    assert_eq!(trim_end_str(""), "");
    assert_eq!(trim_end_str("   "), "");
    assert_eq!(trim_end_str("a b"), "a b");
    // Non-ASCII white space is trimmed too, like a no-break space.
    assert_eq!(trim_end_str("x\u{00a0}\u{2028}"), "x");
    // Matches the standard library's notion of trailing white space.
    let sample = "line one\nline two\r\n \t\u{3000}";
    assert_eq!(trim_end_str(sample), sample.trim_end());
}

#[test]
fn tree_lines_render_exactly() {
    assert_eq!(indent_string(0), "");
    assert_eq!(indent_string(2), "        ");
    assert_eq!(render_item(&TreeItem::Root { name: "proj".to_string() }), "└── proj");
    assert_eq!(
        render_item(&TreeItem::Dir { depth: 2, name: "src".to_string() }),
        "    ├── src"
    );
    assert_eq!(
        render_item(&TreeItem::TextFile { depth: 1, name: "a.txt".to_string() }),
        "└── a.txt"
    );
    assert_eq!(
        render_item(&TreeItem::BinaryFile { depth: 3, name: "b.png".to_string() }),
        "        └── b.png [Non-text file]"
    );
}

#[test]
fn file_block_trims_content() {
    let f = AdmittedFile {
        path: "/p/a.txt".to_string(),
        rel: "a.txt".to_string(),
        name: "a.txt".to_string(),
        size: 12,
        content: "hello\nworld\n\n".to_string(),
    };
    let sep = "==================================================";
    assert_eq!(sep.len(), 50);
    assert_eq!(
        file_block(&f),
        format!("{sep}\nFile: a.txt\n{sep}\nhello\nworld\n")
    );
}

#[test]
fn report_block_renders_exactly() {
    let rep = Report { files_analyzed: 3, estimated_tokens: 120 };
    let out = report_text(&"/home/me/proj".to_string(), &rep, &"1.25s".to_string());
    assert_eq!(
        out,
        "Analyzing: /home/me/proj\nFiles analyzed: 3\nEstimated tokens: 120\nTime elapsed: 1.25s\n"
    );
}
