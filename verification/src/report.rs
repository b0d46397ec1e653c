use vstd::prelude::*;
use vstd::string::StringExecFns;
use crate::limiter::Limits;
use crate::limiter::SkipReason;
use crate::text::decimal_digits;
use crate::text::format_size;
use crate::text::size_display;
use crate::text::trim_end_str;
use crate::text::trim_end_view;
use crate::text::usize_to_string;
use crate::walk::AdmittedFile;
use crate::walk::AdmittedFileModel;
use crate::walk::SkipRecord;
use crate::walk::SkipRecordModel;

verus! {

/// The stderr line for one skip record, as the run's error list prints it.
pub open spec fn skip_message_chars(rec: SkipRecordModel, limits: Limits) -> Seq<char> {
    match rec.reason {
        SkipReason::FileCountLimit => "Skipping file "@ + rec.path + ": Maximum file limit ("@
            + decimal_digits(limits.max_files as int) + ") reached"@,
        SkipReason::TotalSizeLimit => "Skipping file "@ + rec.path + ": Total size limit ("@
            + size_display(limits.max_total_size as int) + ") reached"@,
        SkipReason::PerFileSizeLimit => "Skipping file "@ + rec.path
            + ": File exceeds maximum size ("@ + size_display(limits.max_file_size as int) + ")"@,
        SkipReason::ReadError => "Error reading file "@ + rec.path + ": "@ + rec.detail,
        SkipReason::ClassificationError => "Error checking if file is text: "@ + rec.path + ": "@
            + rec.detail,
    }
}

/// Render the stderr line for one skip record under the run's limits.
pub fn skip_message(rec: &SkipRecord, limits: &Limits) -> (r: String)
    ensures
        r@ == skip_message_chars(rec@, *limits),
{
    match rec.reason {
        SkipReason::FileCountLimit => {
            let mut s = String::from_str("Skipping file ");
            s.append(rec.path.as_str());
            s.append(": Maximum file limit (");
            let n = usize_to_string(limits.max_files);
            s.append(n.as_str());
            s.append(") reached");
            proof {
                assert(s@ =~= skip_message_chars(rec@, *limits));
            }
            s
        },
        SkipReason::TotalSizeLimit => {
            let mut s = String::from_str("Skipping file ");
            s.append(rec.path.as_str());
            s.append(": Total size limit (");
            let n = format_size(limits.max_total_size);
            s.append(n.as_str());
            s.append(") reached");
            proof {
                assert(s@ =~= skip_message_chars(rec@, *limits));
            }
            s
        },
        SkipReason::PerFileSizeLimit => {
            let mut s = String::from_str("Skipping file ");
            s.append(rec.path.as_str());
            s.append(": File exceeds maximum size (");
            let n = format_size(limits.max_file_size);
            s.append(n.as_str());
            s.append(")");
            proof {
                assert(s@ =~= skip_message_chars(rec@, *limits));
            }
            s
        },
        SkipReason::ReadError => {
            let mut s = String::from_str("Error reading file ");
            s.append(rec.path.as_str());
            s.append(": ");
            s.append(rec.detail.as_str());
            proof {
                assert(s@ =~= skip_message_chars(rec@, *limits));
            }
            s
        },
        SkipReason::ClassificationError => {
            let mut s = String::from_str("Error checking if file is text: ");
            s.append(rec.path.as_str());
            s.append(": ");
            s.append(rec.detail.as_str());
            proof {
                assert(s@ =~= skip_message_chars(rec@, *limits));
            }
            s
        },
    }
}

/// The fixed-width separator line above and below each file header.
pub open spec fn separator_chars() -> Seq<char> {
    "=================================================="@
}

/// The stdout block for one admitted file: separator, `File:` header with
/// the root-relative path, separator, then the content with trailing white
/// space trimmed — each line newline-terminated.
pub open spec fn file_block_chars(rel: Seq<char>, content: Seq<char>) -> Seq<char> {
    separator_chars() + "\n"@ + "File: "@ + rel + "\n"@ + separator_chars() + "\n"@
        + trim_end_view(content) + "\n"@
}

/// Render the stdout block for one admitted file.
pub fn file_block(file: &AdmittedFile) -> (r: String)
    ensures
        r@ == file_block_chars(file@.rel, file@.content),
{
    let mut s = String::from_str("==================================================");
    s.append("\n");
    s.append("File: ");
    s.append(file.rel.as_str());
    s.append("\n");
    s.append("==================================================");
    s.append("\n");
    let trimmed = trim_end_str(file.content.as_str());
    s.append(trimmed.as_str());
    s.append("\n");
    proof {
        assert(s@ =~= file_block_chars(file@.rel, file@.content));
    }
    s
}

/// All admitted contents joined with no separator, in traversal order. The
/// bare join is deliberate: a token estimate over it may merge the boundary
/// of two files into one token.
pub open spec fn concat_contents_chars(fs: Seq<AdmittedFileModel>) -> Seq<char>
    decreases fs.len(),
{
    if fs.len() == 0 {
        Seq::empty()
    } else {
        concat_contents_chars(fs.drop_last()) + fs.last().content
    }
}

/// Join the admitted contents with no separator.
pub fn concat_contents(files: &Vec<AdmittedFile>) -> (r: String)
    ensures
        r@ == concat_contents_chars(files.deep_view()),
{
    let mut s = String::new();
    let mut i: usize = 0;
    proof {
        assert(files.deep_view().subrange(0, 0) =~= Seq::<AdmittedFileModel>::empty());
    }
    while i < files.len()
        invariant
            i <= files@.len(),
            files.deep_view().len() == files@.len(),
            s@ == concat_contents_chars(files.deep_view().subrange(0, i as int)),
        decreases files@.len() - i,
    {
        proof {
            assert(files.deep_view()[i as int] == files@[i as int]@);
        }
        s.append(files[i].content.as_str());
        proof {
            let dv = files.deep_view();
            assert(dv.subrange(0, i + 1).drop_last() =~= dv.subrange(0, i as int));
            assert(dv.subrange(0, i + 1).last() == dv[i as int]);
        }
        i = i + 1;
    }
    proof {
        assert(files.deep_view().subrange(0, files.deep_view().len() as int) =~= files.deep_view());
    }
    s
}

/// What the cl100k_base tokenizer makes of a text: `Some` count where it
/// yields one, `None` where it reports an error (its regex engine gives up
/// past fixed backtracking caps). Loading the bundled encoding and matching
/// against the fixed pattern are deterministic, so the whole outcome is a
/// function of the text alone.
pub uninterp spec fn cl100k_tokens(text: Seq<char>) -> Option<nat>;

/// Relies on tiktoken_rs::cl100k_base and CoreBPE::count, the fallible
/// encoding path: with no special tokens allowed it counts the same token
/// stream as the plain encoder, but reports the regex engine's give-up as
/// an error instead of aborting. Both outcomes — the count and the give-up
/// — are a fixed function of the text, named `cl100k_tokens`; every error
/// is handed back as text.
#[verifier::external_body]
fn count_tokens_cl100k(text: &str) -> (r: Result<usize, String>)
    ensures
        r is Ok <==> cl100k_tokens(text@) is Some,
        r matches Ok(n) ==> cl100k_tokens(text@) == Some(n as nat),
{
    let bpe = match tiktoken_rs::cl100k_base() {
        Ok(b) => b,
        Err(e) => {
            return Err(e.to_string());
        },
    };
    match bpe.count(text, &std::collections::HashSet::new()) {
        Ok(n) => Ok(n),
        Err(e) => Err(e.to_string()),
    }
}

/// The summary of one finished run.
#[derive(Debug, Clone, Copy, PartialEq, Eq, Structural)]
pub struct Report {
    /// Count of admitted files.
    pub files_analyzed: usize,
    /// Token estimate for the admitted contents, joined with no separator.
    pub estimated_tokens: usize,
}

/// Summarize a finished run: count the admitted files and estimate the
/// tokens of their joined contents. The report is owed exactly where the
/// tokenizer yields a count for the joined text; `Err` carries the
/// tokenizer's own error text.
pub fn summarize(files: &Vec<AdmittedFile>) -> (r: Result<Report, String>)
    ensures
        r is Ok <==> cl100k_tokens(concat_contents_chars(files.deep_view())) is Some,
        r matches Ok(rep) ==> rep.files_analyzed == files@.len() && cl100k_tokens(
            concat_contents_chars(files.deep_view()),
        ) == Some(rep.estimated_tokens as nat),
{
    let text = concat_contents(files);
    match count_tokens_cl100k(text.as_str()) {
        Ok(n) => Ok(Report { files_analyzed: files.len(), estimated_tokens: n }),
        Err(e) => Err(e),
    }
}

/// The final report block: the analyzed root, the count of admitted files,
/// the token estimate, and the elapsed time as the caller rendered it.
pub open spec fn report_chars(
    root: Seq<char>,
    files: int,
    tokens: int,
    elapsed: Seq<char>,
) -> Seq<char> {
    "Analyzing: "@ + root + "\n"@ + "Files analyzed: "@ + decimal_digits(files) + "\n"@
        + "Estimated tokens: "@ + decimal_digits(tokens) + "\n"@ + "Time elapsed: "@ + elapsed
        + "\n"@
}

/// Render the final report block.
pub fn report_text(root: &String, rep: &Report, elapsed: &String) -> (r: String)
    ensures
        r@ == report_chars(root@, rep.files_analyzed as int, rep.estimated_tokens as int, elapsed@),
{
    let mut s = String::from_str("Analyzing: ");
    s.append(root.as_str());
    s.append("\n");
    s.append("Files analyzed: ");
    let n = usize_to_string(rep.files_analyzed);
    s.append(n.as_str());
    s.append("\n");
    s.append("Estimated tokens: ");
    let t = usize_to_string(rep.estimated_tokens);
    s.append(t.as_str());
    s.append("\n");
    s.append("Time elapsed: ");
    s.append(elapsed.as_str());
    s.append("\n");
    proof {
        assert(s@ =~= report_chars(
            root@,
            rep.files_analyzed as int,
            rep.estimated_tokens as int,
            elapsed@,
        ));
    }
    s
}

} // verus!
