//! The single-file pipeline: parse the notebook text, extract and join the
//! blocks, and shape the final success message or error. Reading the file,
//! the clipboard hand-off and the deletion attempt are the caller's I/O; the
//! decisions around them live here.

use vstd::prelude::*;
use vstd::string::StringExecFns;
use crate::cells::{
    Cell, CellFilter, DocModel, ExtractError, Fragment, NotebookDocument, SourceValue,
    extract, extract_spec, filter_name,
};
use crate::text::{dec_spec, usize_to_string};

verus! {

/// Declares `serde_json::Value` so the trusted parse conversion below can
/// mention it; values of it stay opaque to the verifier.
#[verifier::external_type_specification]
#[verifier::external_body]
pub struct ExValue(serde_json::Value);

/// The document a text denotes, when it parses as JSON: a function of the
/// text alone.
pub uninterp spec fn parsed_notebook(text: Seq<char>) -> Option<DocModel>;

/// Relies on `serde_json::from_str::<Value>`: whether a text parses, and
/// which document it denotes, depend on the text alone; the error value
/// carries serde_json's diagnostic.
#[verifier::external_body]
fn parse_notebook(s: &str) -> (r: Result<NotebookDocument, String>)
    ensures
        r is Ok <==> parsed_notebook(s@) is Some,
        r matches Ok(d) ==> parsed_notebook(s@) == Some(d@),
{
    match serde_json::from_str::<serde_json::Value>(s) {
        Ok(v) => Ok(doc_from_value(&v)),
        Err(e) => Err(e.to_string()),
    }
}

/// Part of the trusted parse conversion. Relies on `Value::get` and
/// `Value::as_array`: the `cells` field is kept only when it is an array.
#[verifier::external_body]
fn doc_from_value(v: &serde_json::Value) -> NotebookDocument {
    NotebookDocument {
        cells: v.get("cells").and_then(|c| c.as_array()).map(
            |arr| arr.iter().map(cell_from_value).collect(),
        ),
    }
}

/// Part of the trusted parse conversion. Relies on `Value::get` and
/// `Value::as_str`: a non-string `cell_type` counts as absent.
#[verifier::external_body]
fn cell_from_value(v: &serde_json::Value) -> Cell {
    Cell {
        cell_type: v.get("cell_type").and_then(|t| t.as_str()).map(|s| s.to_owned()),
        source: v.get("source").map(source_from_value),
    }
}

/// Part of the trusted parse conversion: tells the string, array and other
/// shapes of a `source` value apart.
#[verifier::external_body]
fn source_from_value(v: &serde_json::Value) -> SourceValue {
    match v {
        serde_json::Value::String(s) => SourceValue::Text(s.clone()),
        serde_json::Value::Array(a) => SourceValue::Fragments(
            a.iter().map(frag_from_value).collect(),
        ),
        _ => SourceValue::Other,
    }
}

/// Part of the trusted parse conversion: a non-string array element is kept
/// as a fragment that contributes nothing.
#[verifier::external_body]
fn frag_from_value(v: &serde_json::Value) -> Fragment {
    match v {
        serde_json::Value::String(s) => Fragment::Text(s.clone()),
        _ => Fragment::Other,
    }
}

/// Why a single file's pipeline failed.
#[derive(Debug)]
pub enum HandlerError {
    Read(String),
    Parse(String),
    MissingCells,
    NoMatchingContent(CellFilter),
    ClipboardUnavailable(String),
    ClipboardSet(String),
}

/// What became of the optional deletion of the source file.
#[derive(Debug)]
pub enum DeleteOutcome {
    Kept,
    Deleted(String),
    DeleteFailed(String),
}

/// The extracted text ready for the clipboard, with its block count.
pub struct Payload {
    pub text: String,
    pub block_count: usize,
}

/// Blocks joined with a blank line between consecutive blocks.
pub open spec fn joined(blocks: Seq<Seq<char>>) -> Seq<char>
    decreases blocks.len(),
{
    if blocks.len() == 0 {
        Seq::empty()
    } else if blocks.len() == 1 {
        blocks[0]
    } else {
        joined(blocks.drop_last()) + "\n\n"@ + blocks.last()
    }
}

/// Joins blocks with a blank line separator.
pub fn join_blocks(blocks: &Vec<String>) -> (r: String)
    ensures
        r@ == joined(blocks@.map_values(|s: String| s@)),
{
    let ghost bs = blocks@.map_values(|s: String| s@);
    let mut acc = String::new();
    let mut i: usize = 0;
    while i < blocks.len()
        invariant
            0 <= i <= blocks@.len(),
            bs == blocks@.map_values(|s: String| s@),
            acc@ == joined(bs.take(i as int)),
        decreases blocks@.len() - i,
    {
        proof {
            assert(bs.take(i + 1).drop_last() =~= bs.take(i as int));
            assert(bs.take(i + 1).last() == bs[i as int]);
        }
        if i > 0 {
            acc.append("\n\n");
        }
        acc.append(blocks[i].as_str());
        i = i + 1;
    }
    proof {
        assert(bs.take(bs.len() as int) =~= bs);
    }
    acc
}

/// Runs the compute part of the pipeline on a file's text: parse, extract,
/// join. Succeeds exactly when the text parses, has a `cells` array, and at
/// least one cell passes the filter with a non-empty body.
pub fn process_notebook_text(contents: &str, filter: CellFilter) -> (r: Result<
    Payload,
    HandlerError,
>)
    ensures
        match r {
            Ok(p) => {
                &&& parsed_notebook(contents@) matches Some(d) && {
                    let blocks = extract_spec(d.cells->0, filter);
                    &&& d.cells is Some
                    &&& blocks.len() > 0
                    &&& p.block_count == blocks.len()
                    &&& p.text@ == joined(blocks)
                }
            },
            Err(HandlerError::Parse(_)) => parsed_notebook(contents@) is None,
            Err(HandlerError::MissingCells) => parsed_notebook(contents@) matches Some(d)
                && d.cells is None,
            Err(HandlerError::NoMatchingContent(f)) => {
                &&& f == filter
                &&& parsed_notebook(contents@) matches Some(d) && d.cells is Some
                    && extract_spec(d.cells->0, filter).len() == 0
            },
            Err(_) => false,
        },
{
    match parse_notebook(contents) {
        Err(e) => Err(HandlerError::Parse(e)),
        Ok(doc) => match extract(&doc, filter) {
            Err(ExtractError::MissingCells) => Err(HandlerError::MissingCells),
            Err(ExtractError::NoMatchingContent(f)) => Err(HandlerError::NoMatchingContent(f)),
            Ok(blocks) => {
                let ghost d = doc@;
                let ghost spec_blocks = extract_spec(d.cells->0, filter);
                proof {
                    assert(blocks@.map_values(|s: String| s@) =~= spec_blocks);
                }
                let text = join_blocks(&blocks);
                let count = blocks.len();
                Ok(Payload { text, block_count: count })
            },
        },
    }
}

/// The suffix the deletion outcome adds to the success message.
pub open spec fn outcome_suffix(d: DeleteOutcome) -> Seq<char> {
    match d {
        DeleteOutcome::Kept => Seq::empty(),
        DeleteOutcome::Deleted(p) => "\n🗑️ Deleted: "@ + p@,
        DeleteOutcome::DeleteFailed(e) => "\n⚠️ Could not delete file: "@ + e@,
    }
}

/// The success message: block count, filter name, and the deletion outcome.
pub open spec fn success_message_spec(n: nat, f: CellFilter, d: DeleteOutcome) -> Seq<char> {
    "✅ Copied "@ + dec_spec(n) + " "@ + filter_name(f) + " cells to clipboard."@
        + outcome_suffix(d)
}

/// Renders the success message for a completed pipeline.
pub fn success_message(block_count: usize, filter: CellFilter, outcome: &DeleteOutcome) -> (r:
    String)
    ensures
        r@ == success_message_spec(block_count as nat, filter, *outcome),
{
    let mut s = String::new();
    s.append("✅ Copied ");
    let count = usize_to_string(block_count);
    s.append(count.as_str());
    s.append(" ");
    let name = filter.name_string();
    s.append(name.as_str());
    s.append(" cells to clipboard.");
    match outcome {
        DeleteOutcome::Kept => {},
        DeleteOutcome::Deleted(p) => {
            s.append("\n🗑️ Deleted: ");
            s.append(p.as_str());
        },
        DeleteOutcome::DeleteFailed(e) => {
            s.append("\n⚠️ Could not delete file: ");
            s.append(e.as_str());
        },
    }
    proof {
        assert(s@ =~= success_message_spec(block_count as nat, filter, *outcome));
    }
    s
}

/// Shapes the pipeline's final result once the payload has been handed to
/// the clipboard collaborator: a publish failure aborts with that error,
/// while after a successful publish the result is a success message whatever
/// the deletion outcome.
pub fn finish_handling(
    block_count: usize,
    filter: CellFilter,
    publish: Result<(), HandlerError>,
    delete: DeleteOutcome,
) -> (r: Result<String, HandlerError>)
    ensures
        match publish {
            Err(e) => r matches Err(e2) && e2 == e,
            Ok(()) => r matches Ok(m) && m@ == success_message_spec(
                block_count as nat,
                filter,
                delete,
            ),
        },
{
    match publish {
        Err(e) => Err(e),
        Ok(()) => Ok(success_message(block_count, filter, &delete)),
    }
}

/// A failed deletion after a successful copy still yields a success-shaped
/// message: the ordinary success text with the deletion warning appended.
pub proof fn lemma_delete_failure_still_success(n: nat, f: CellFilter, e: String)
    ensures
        success_message_spec(n, f, DeleteOutcome::DeleteFailed(e)) == success_message_spec(
            n,
            f,
            DeleteOutcome::Kept,
        ) + "\n⚠️ Could not delete file: "@ + e@,
{
    assert(success_message_spec(n, f, DeleteOutcome::DeleteFailed(e)) =~= success_message_spec(
        n,
        f,
        DeleteOutcome::Kept,
    ) + "\n⚠️ Could not delete file: "@ + e@);
}

/// The messages the pipeline's errors print.
pub open spec fn error_message_spec(e: HandlerError) -> Seq<char> {
    match e {
        HandlerError::Read(d) => "❌ Failed to read: "@ + d@,
        HandlerError::Parse(d) => "❌ Failed to parse JSON: "@ + d@,
        HandlerError::MissingCells => "⚠️ No 'cells' array found."@,
        HandlerError::NoMatchingContent(f) => "⚠️ No "@ + filter_name(f) + " blocks found."@,
        HandlerError::ClipboardUnavailable(d) => "❌ Failed to access clipboard: "@ + d@,
        HandlerError::ClipboardSet(d) => "❌ Failed to copy to clipboard: "@ + d@,
    }
}

impl HandlerError {
    /// Renders the error's diagnostic message.
    pub fn message(&self) -> (r: String)
        ensures
            r@ == error_message_spec(*self),
    {
        let mut s = String::new();
        match self {
            HandlerError::Read(d) => {
                s.append("❌ Failed to read: ");
                s.append(d.as_str());
            },
            HandlerError::Parse(d) => {
                s.append("❌ Failed to parse JSON: ");
                s.append(d.as_str());
            },
            HandlerError::MissingCells => {
                s.append("⚠️ No 'cells' array found.");
            },
            HandlerError::NoMatchingContent(f) => {
                s.append("⚠️ No ");
                let name = f.name_string();
                s.append(name.as_str());
                s.append(" blocks found.");
            },
            HandlerError::ClipboardUnavailable(d) => {
                s.append("❌ Failed to access clipboard: ");
                s.append(d.as_str());
            },
            HandlerError::ClipboardSet(d) => {
                s.append("❌ Failed to copy to clipboard: ");
                s.append(d.as_str());
            },
        }
        proof {
            assert(s@ =~= error_message_spec(*self));
        }
        s
    }
}

} // verus!
