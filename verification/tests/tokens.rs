use code2prompt::report::{concat_contents, summarize};
use code2prompt::walk::AdmittedFile;

fn admitted(rel: &str, content: &str) -> AdmittedFile {
    AdmittedFile {
        path: format!("/proj/{rel}"),
        rel: rel.to_string(),
        name: rel.to_string(),
        size: content.len() as u64,
        content: content.to_string(),
    }
}

#[test]
fn contents_join_with_no_separator() {
    let files = vec![admitted("a.txt", "hello "), admitted("b.txt", "world")];
    assert_eq!(concat_contents(&files), "hello world");
    let none: Vec<AdmittedFile> = Vec::new();
    assert_eq!(concat_contents(&none), "");
}

#[test]
fn token_estimate_counts_real_tokens() {
    let files = vec![admitted("a.txt", "hello "), admitted("b.txt", "world")];
    let rep = summarize(&files).unwrap();
    assert_eq!(rep.files_analyzed, 2);
    // "hello world" is two cl100k tokens.
    assert_eq!(rep.estimated_tokens, 2);
}

#[test]
fn token_estimate_survives_pathological_whitespace() {
    // A run of about a million white-space characters followed by a letter
    // drives the tokenizer's regex engine past its fixed backtracking caps.
    // The estimate must come back as an error, not abort the process.
    let mut content = " ".repeat(1_100_000);
    content.push('a');
    let files = vec![admitted("ws.txt", &content)];
    let res = summarize(&files);
    assert!(res.is_err());
}

#[test]
fn token_estimate_of_nothing_is_zero() {
    let none: Vec<AdmittedFile> = Vec::new();
    let rep = summarize(&none).unwrap();
    assert_eq!(rep.files_analyzed, 0);
    assert_eq!(rep.estimated_tokens, 0);
}
