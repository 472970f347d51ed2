use snacc::cells::{Cell, CellFilter, ExtractError, Fragment, NotebookDocument, SourceValue, extract};

fn code_cell(src: &str) -> Cell {
    Cell { cell_type: Some("code".to_string()), source: Some(SourceValue::Text(src.to_string())) }
}

fn markdown_cell(src: &str) -> Cell {
    Cell {
        cell_type: Some("markdown".to_string()),
        source: Some(SourceValue::Text(src.to_string())),
    }
}

fn doc(cells: Vec<Cell>) -> NotebookDocument {
    NotebookDocument { cells: Some(cells) }
}

#[test]
fn all_filter_drops_whitespace_only_cells() {
    let d = doc(vec![code_cell("print(1)"), code_cell("  "), markdown_cell("# Title")]);
    let blocks = extract(&d, CellFilter::All).unwrap();
    assert_eq!(blocks, vec!["```python\nprint(1)\n```".to_string(), "```\n# Title\n```".to_string()]);
}

#[test]
fn code_filter_keeps_only_code_cells() {
    let d = doc(vec![code_cell("print(1)"), code_cell("  "), markdown_cell("# Title")]);
    let blocks = extract(&d, CellFilter::Code).unwrap();
    assert_eq!(blocks, vec!["```python\nprint(1)\n```".to_string()]);
}

#[test]
fn markdown_filter_keeps_only_markdown_cells() {
    let d = doc(vec![code_cell("print(1)"), code_cell("  "), markdown_cell("# Title")]);
    let blocks = extract(&d, CellFilter::Markdown).unwrap();
    assert_eq!(blocks, vec!["```\n# Title\n```".to_string()]);
}

#[test]
fn missing_cells_array_is_an_error() {
    let d = NotebookDocument { cells: None };
    assert_eq!(extract(&d, CellFilter::All), Err(ExtractError::MissingCells));
}

#[test]
fn all_whitespace_cells_give_no_matching_content() {
    let d = doc(vec![code_cell("   "), code_cell("\n\t")]);
    assert_eq!(extract(&d, CellFilter::Code), Err(ExtractError::NoMatchingContent(CellFilter::Code)));
}

#[test]
fn empty_cells_array_gives_no_matching_content() {
    let d = doc(vec![]);
    assert_eq!(extract(&d, CellFilter::All), Err(ExtractError::NoMatchingContent(CellFilter::All)));
}

#[test]
fn fragment_sources_concatenate_like_single_strings() {
    let frag = Cell {
        cell_type: Some("code".to_string()),
        source: Some(SourceValue::Fragments(vec![
            Fragment::Text("a\n".to_string()),
            Fragment::Text("b\n".to_string()),
        ])),
    };
    let plain = code_cell("a\nb\n");
    let from_frag = extract(&doc(vec![frag]), CellFilter::Code).unwrap();
    let from_plain = extract(&doc(vec![plain]), CellFilter::Code).unwrap();
    assert_eq!(from_frag, from_plain);
    assert_eq!(from_frag, vec!["```python\na\nb".to_string() + "\n```"]);
}

#[test]
fn non_string_fragments_are_ignored() {
    let c = Cell {
        cell_type: Some("code".to_string()),
        source: Some(SourceValue::Fragments(vec![
            Fragment::Text("x = 1".to_string()),
            Fragment::Other,
        ])),
    };
    let blocks = extract(&doc(vec![c]), CellFilter::Code).unwrap();
    assert_eq!(blocks, vec!["```python\nx = 1\n```".to_string()]);
}

#[test]
fn untyped_cells_pass_only_the_all_filter_untagged() {
    let c = Cell { cell_type: None, source: Some(SourceValue::Text("note".to_string())) };
    let d = doc(vec![c]);
    let blocks = extract(&d, CellFilter::All).unwrap();
    assert_eq!(blocks, vec!["```\nnote\n```".to_string()]);
    assert_eq!(
        extract(&d, CellFilter::Code),
        Err(ExtractError::NoMatchingContent(CellFilter::Code))
    );
}

#[test]
fn sourceless_and_odd_shaped_cells_produce_no_block() {
    let no_source = Cell { cell_type: Some("code".to_string()), source: None };
    let odd = Cell { cell_type: Some("code".to_string()), source: Some(SourceValue::Other) };
    let d = doc(vec![no_source, odd, code_cell("ok")]);
    let blocks = extract(&d, CellFilter::Code).unwrap();
    assert_eq!(blocks, vec!["```python\nok\n```".to_string()]);
}

#[test]
fn filter_names_round_trip() {
    assert_eq!(CellFilter::from_name("code"), Some(CellFilter::Code));
    assert_eq!(CellFilter::from_name("markdown"), Some(CellFilter::Markdown));
    assert_eq!(CellFilter::from_name("all"), Some(CellFilter::All));
    assert_eq!(CellFilter::from_name("other"), None);
    assert_eq!(CellFilter::Code.name_string(), "code");
    assert_eq!(CellFilter::Markdown.name_string(), "markdown");
    assert_eq!(CellFilter::All.name_string(), "all");
}
