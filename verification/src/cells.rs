//! The notebook cell model and the cell extractor: given a parsed document
//! and a cell-type filter, produce the ordered fenced code blocks.

use vstd::prelude::*;
use vstd::string::StringExecFns;
use crate::text::{trim_spec, trim_chars, chars_of, string_of};

verus! {

/// Which cells the extractor keeps: only code cells, only markdown cells, or
/// every cell regardless of declared type.
#[derive(Clone, Copy, PartialEq, Eq, Structural, Debug)]
pub enum CellFilter {
    Code,
    Markdown,
    All,
}

/// One fragment of a cell source given as a sequence: either a string or a
/// non-string element, which contributes nothing.
pub enum Fragment {
    Text(String),
    Other,
}

/// A cell's `source` field: a single string, an ordered sequence of
/// fragments, or some other shape (which resolves to the empty string).
pub enum SourceValue {
    Text(String),
    Fragments(Vec<Fragment>),
    Other,
}

/// One notebook cell: an optional declared type and an optional source.
pub struct Cell {
    pub cell_type: Option<String>,
    pub source: Option<SourceValue>,
}

/// A parsed notebook document: `cells` is present exactly when the document
/// held a `cells` array.
pub struct NotebookDocument {
    pub cells: Option<Vec<Cell>>,
}

/// Mathematical model of a fragment.
pub enum FragModel {
    Text(Seq<char>),
    Other,
}

/// Mathematical model of a cell source; `Absent` stands for a cell without a
/// `source` field.
pub enum SourceModel {
    Absent,
    Text(Seq<char>),
    Fragments(Seq<FragModel>),
    Other,
}

/// Mathematical model of a cell.
pub struct CellModel {
    pub cell_type: Option<Seq<char>>,
    pub source: SourceModel,
}

/// Mathematical model of a document.
pub struct DocModel {
    pub cells: Option<Seq<CellModel>>,
}

impl View for Fragment {
    type V = FragModel;

    open spec fn view(&self) -> FragModel {
        match self {
            Fragment::Text(s) => FragModel::Text(s@),
            Fragment::Other => FragModel::Other,
        }
    }
}

impl View for SourceValue {
    type V = SourceModel;

    open spec fn view(&self) -> SourceModel {
        match self {
            SourceValue::Text(s) => SourceModel::Text(s@),
            SourceValue::Fragments(fs) => SourceModel::Fragments(
                fs@.map_values(|f: Fragment| f@),
            ),
            SourceValue::Other => SourceModel::Other,
        }
    }
}

impl View for Cell {
    type V = CellModel;

    open spec fn view(&self) -> CellModel {
        CellModel {
            cell_type: match &self.cell_type {
                Some(t) => Some(t@),
                None => None,
            },
            source: match &self.source {
                Some(sv) => sv@,
                None => SourceModel::Absent,
            },
        }
    }
}

impl View for NotebookDocument {
    type V = DocModel;

    open spec fn view(&self) -> DocModel {
        DocModel {
            cells: match &self.cells {
                Some(cs) => Some(cs@.map_values(|c: Cell| c@)),
                None => None,
            },
        }
    }
}

/// The text a fragment contributes: its characters for a string element,
/// nothing otherwise.
pub open spec fn frag_text(f: FragModel) -> Seq<char> {
    match f {
        FragModel::Text(s) => s,
        FragModel::Other => Seq::empty(),
    }
}

/// The concatenation of a fragment sequence's string elements, in order.
pub open spec fn frags_text(fs: Seq<FragModel>) -> Seq<char>
    decreases fs.len(),
{
    if fs.len() == 0 {
        Seq::empty()
    } else {
        frags_text(fs.drop_last()) + frag_text(fs.last())
    }
}

/// A cell source resolved into a single character sequence.
pub open spec fn resolved_source(s: SourceModel) -> Seq<char> {
    match s {
        SourceModel::Absent => Seq::empty(),
        SourceModel::Text(t) => t,
        SourceModel::Fragments(fs) => frags_text(fs),
        SourceModel::Other => Seq::empty(),
    }
}

/// The name of a filter, as it appears in messages.
pub open spec fn filter_name(f: CellFilter) -> Seq<char> {
    match f {
        CellFilter::Code => "code"@,
        CellFilter::Markdown => "markdown"@,
        CellFilter::All => "all"@,
    }
}

/// Whether a cell's declared type passes the filter; `All` passes everything.
pub open spec fn cell_matches(c: CellModel, f: CellFilter) -> bool {
    match f {
        CellFilter::All => true,
        CellFilter::Code => c.cell_type == Some("code"@),
        CellFilter::Markdown => c.cell_type == Some("markdown"@),
    }
}

/// Whether a cell is declared as a code cell.
pub open spec fn cell_is_code(c: CellModel) -> bool {
    c.cell_type == Some("code"@)
}

/// A cell's body: its resolved source, trimmed.
pub open spec fn cell_body(c: CellModel) -> Seq<char> {
    trim_spec(resolved_source(c.source))
}

/// A cell produces a block exactly when it passes the filter and its trimmed
/// body is non-empty.
pub open spec fn cell_included(c: CellModel, f: CellFilter) -> bool {
    cell_matches(c, f) && cell_body(c).len() > 0
}

/// The fence tag: `python` for a code cell, empty otherwise.
pub open spec fn fence_tag(c: CellModel) -> Seq<char> {
    if cell_is_code(c) {
        "python"@
    } else {
        Seq::empty()
    }
}

/// The fenced block a cell produces: opening fence with tag, body, closing
/// fence.
pub open spec fn cell_block(c: CellModel) -> Seq<char> {
    "```"@ + fence_tag(c) + "\n"@ + cell_body(c) + "\n"@ + "```"@
}

/// The block an individual cell contributes under a filter, if any.
pub open spec fn block_of_cell(f: CellFilter) -> spec_fn(CellModel) -> Option<Seq<char>> {
    |c: CellModel|
        if cell_included(c, f) {
            Some(cell_block(c))
        } else {
            None
        }
}

/// The blocks extracted from a cell sequence, in original order.
pub open spec fn extract_spec(cells: Seq<CellModel>, f: CellFilter) -> Seq<Seq<char>> {
    cells.filter_map(block_of_cell(f))
}

/// Why extraction failed: the document had no `cells` array, or no cell
/// passed the given filter with a non-empty body.
#[derive(Clone, Copy, PartialEq, Eq, Structural, Debug)]
pub enum ExtractError {
    MissingCells,
    NoMatchingContent(CellFilter),
}

impl CellFilter {
    /// The filter's name as a string.
    pub fn name_string(&self) -> (r: String)
        ensures
            r@ == filter_name(*self),
    {
        match self {
            CellFilter::Code => String::from_str("code"),
            CellFilter::Markdown => String::from_str("markdown"),
            CellFilter::All => String::from_str("all"),
        }
    }

    /// Parses a filter name; exactly `code`, `markdown` and `all` are
    /// accepted.
    pub fn from_name(name: &str) -> (r: Option<CellFilter>)
        ensures
            match r {
                Some(f) => filter_name(f) == name@,
                None => name@ != "code"@ && name@ != "markdown"@ && name@ != "all"@,
            },
    {
        let n = String::from_str(name);
        if n == String::from_str("code") {
            Some(CellFilter::Code)
        } else if n == String::from_str("markdown") {
            Some(CellFilter::Markdown)
        } else if n == String::from_str("all") {
            Some(CellFilter::All)
        } else {
            None
        }
    }
}

/// Extraction law for the `all` filter: every cell whose trimmed body is
/// non-empty produces exactly one block, in original order.
pub proof fn lemma_extract_all_blocks(cells: Seq<CellModel>)
    ensures
        extract_spec(cells, CellFilter::All) =~= cells.filter(
            |c: CellModel| cell_body(c).len() > 0,
        ).map_values(|c: CellModel| cell_block(c)),
    decreases cells.len(),
{
    reveal(Seq::filter);
    let pred = |c: CellModel| cell_body(c).len() > 0;
    let bl = |c: CellModel| cell_block(c);
    if cells.len() > 0 {
        lemma_extract_all_blocks(cells.drop_last());
        let rest = cells.drop_last();
        if pred(cells.last()) {
            assert(cells.filter(pred).map_values(bl) =~= rest.filter(pred).map_values(bl)
                + seq![bl(cells.last())]);
        }
    }
}

/// Extraction law for the `code` filter: exactly the cells declared `code`
/// with non-empty bodies produce blocks, in order, and every such block
/// opens with a fence tagged `python`.
pub proof fn lemma_extract_code_blocks(cells: Seq<CellModel>)
    ensures
        extract_spec(cells, CellFilter::Code) =~= cells.filter(
            |c: CellModel| cell_is_code(c) && cell_body(c).len() > 0,
        ).map_values(|c: CellModel| cell_block(c)),
        forall|i: int|
            0 <= i < extract_spec(cells, CellFilter::Code).len() ==> (#[trigger] extract_spec(
                cells,
                CellFilter::Code,
            )[i]).take(10) == "```python\n"@,
    decreases cells.len(),
{
    reveal(Seq::filter);
    let pred = |c: CellModel| cell_is_code(c) && cell_body(c).len() > 0;
    let bl = |c: CellModel| cell_block(c);
    if cells.len() > 0 {
        lemma_extract_code_blocks(cells.drop_last());
        let rest = cells.drop_last();
        if pred(cells.last()) {
            assert(cells.filter(pred).map_values(bl) =~= rest.filter(pred).map_values(bl)
                + seq![bl(cells.last())]);
            lemma_code_block_prefix(cells.last());
        }
    }
}

proof fn lemma_code_block_prefix(c: CellModel)
    requires
        cell_is_code(c),
    ensures
        cell_block(c).take(10) == "```python\n"@,
{
    reveal_strlit("```");
    reveal_strlit("python");
    reveal_strlit("\n");
    reveal_strlit("```python\n");
    assert(cell_block(c).take(10) =~= "```python\n"@);
}

/// Extraction law for the `markdown` filter: exactly the cells declared
/// `markdown` with non-empty bodies produce blocks, in order, and every such
/// block opens with an untagged fence.
pub proof fn lemma_extract_markdown_blocks(cells: Seq<CellModel>)
    ensures
        extract_spec(cells, CellFilter::Markdown) =~= cells.filter(
            |c: CellModel| c.cell_type == Some("markdown"@) && cell_body(c).len() > 0,
        ).map_values(|c: CellModel| cell_block(c)),
        forall|i: int|
            0 <= i < extract_spec(cells, CellFilter::Markdown).len() ==> (#[trigger] extract_spec(
                cells,
                CellFilter::Markdown,
            )[i]).take(4) == "```\n"@,
    decreases cells.len(),
{
    reveal(Seq::filter);
    let pred = |c: CellModel| c.cell_type == Some("markdown"@) && cell_body(c).len() > 0;
    let bl = |c: CellModel| cell_block(c);
    if cells.len() > 0 {
        lemma_extract_markdown_blocks(cells.drop_last());
        let rest = cells.drop_last();
        if pred(cells.last()) {
            assert(cells.filter(pred).map_values(bl) =~= rest.filter(pred).map_values(bl)
                + seq![bl(cells.last())]);
            lemma_markdown_block_prefix(cells.last());
        }
    }
}

proof fn lemma_markdown_block_prefix(c: CellModel)
    requires
        c.cell_type == Some("markdown"@),
    ensures
        cell_block(c).take(4) == "```\n"@,
{
    reveal_strlit("```");
    reveal_strlit("\n");
    reveal_strlit("```\n");
    reveal_strlit("markdown");
    reveal_strlit("code");
    assert("markdown"@.len() == 8);
    assert("code"@.len() == 4);
    assert("markdown"@ != "code"@);
    assert(!cell_is_code(c));
    assert(cell_block(c).take(4) =~= "```\n"@);
}

/// A source given as the two fragments `[a, b]` resolves, and therefore
/// trims, to the same text as the single string `a + b`.
pub proof fn lemma_fragment_concat(a: Seq<char>, b: Seq<char>)
    ensures
        resolved_source(SourceModel::Fragments(seq![FragModel::Text(a), FragModel::Text(b)]))
            == resolved_source(SourceModel::Text(a + b)),
        trim_spec(
            resolved_source(
                SourceModel::Fragments(seq![FragModel::Text(a), FragModel::Text(b)]),
            ),
        ) == trim_spec(resolved_source(SourceModel::Text(a + b))),
{
    let fs = seq![FragModel::Text(a), FragModel::Text(b)];
    let single = seq![FragModel::Text(a)];
    assert(fs.drop_last() =~= single);
    assert(single.drop_last() =~= Seq::<FragModel>::empty());
    assert(frags_text(Seq::<FragModel>::empty()) =~= Seq::<char>::empty());
    assert(single.last() == FragModel::Text(a));
    assert(frags_text(single) =~= a);
    assert(fs.last() == FragModel::Text(b));
    assert(frags_text(fs) =~= a + b);
}

fn type_is(c: &Cell, kw: &str) -> (r: bool)
    ensures
        r == (c@.cell_type == Some(kw@)),
{
    match &c.cell_type {
        Some(t) => *t == String::from_str(kw),
        None => false,
    }
}

/// Whether a cell's declared type passes the filter.
pub fn matches_filter(c: &Cell, f: CellFilter) -> (r: bool)
    ensures
        r == cell_matches(c@, f),
{
    match f {
        CellFilter::All => true,
        CellFilter::Code => type_is(c, "code"),
        CellFilter::Markdown => type_is(c, "markdown"),
    }
}

fn push_all(dst: &mut Vec<char>, src: &Vec<char>)
    ensures
        final(dst)@ == old(dst)@ + src@,
{
    let mut i: usize = 0;
    while i < src.len()
        invariant
            0 <= i <= src@.len(),
            dst@ =~= old(dst)@ + src@.take(i as int),
        decreases src@.len() - i,
    {
        dst.push(src[i]);
        i = i + 1;
    }
    proof {
        assert(src@.take(src@.len() as int) =~= src@);
        assert(dst@ =~= old(dst)@ + src@);
    }
}

/// Resolves a cell's source into a single character vector.
pub fn resolve_source(c: &Cell) -> (r: Vec<char>)
    ensures
        r@ == resolved_source(c@.source),
{
    match &c.source {
        None => Vec::new(),
        Some(SourceValue::Text(s)) => chars_of(s.as_str()),
        Some(SourceValue::Fragments(fs)) => {
            let ghost fsm = fs@.map_values(|f: Fragment| f@);
            let mut acc: Vec<char> = Vec::new();
            let mut i: usize = 0;
            while i < fs.len()
                invariant
                    0 <= i <= fs@.len(),
                    fsm == fs@.map_values(|f: Fragment| f@),
                    acc@ == frags_text(fsm.take(i as int)),
                decreases fs@.len() - i,
            {
                proof {
                    assert(fsm.take(i + 1).drop_last() =~= fsm.take(i as int));
                    assert(fsm.take(i + 1).last() == fsm[i as int]);
                    assert(fsm[i as int] == fs@[i as int]@);
                }
                match &fs[i] {
                    Fragment::Text(s) => {
                        let piece = chars_of(s.as_str());
                        push_all(&mut acc, &piece);
                    },
                    Fragment::Other => {
                        proof {
                            assert(acc@ =~= acc@ + Seq::<char>::empty());
                        }
                    },
                }
                i = i + 1;
            }
            proof {
                assert(fsm.take(fsm.len() as int) =~= fsm);
            }
            acc
        },
        Some(SourceValue::Other) => Vec::new(),
    }
}

fn render_block(body: &Vec<char>, is_code: bool) -> (r: String)
    ensures
        r@ == "```"@ + (if is_code {
            "python"@
        } else {
            Seq::<char>::empty()
        }) + "\n"@ + body@ + "\n"@ + "```"@,
{
    let body_str = string_of(body);
    let mut s = String::new();
    s.append("```");
    if is_code {
        s.append("python");
    }
    s.append("\n");
    s.append(body_str.as_str());
    s.append("\n");
    s.append("```");
    proof {
        assert(s@ =~= "```"@ + (if is_code {
            "python"@
        } else {
            Seq::<char>::empty()
        }) + "\n"@ + body@ + "\n"@ + "```"@);
    }
    s
}

/// Extracts the formatted blocks of every cell that passes the filter, in
/// original order. Fails with `MissingCells` when the document has no `cells`
/// array, and with `NoMatchingContent` when no cell yields a block.
pub fn extract(doc: &NotebookDocument, filter: CellFilter) -> (r: Result<
    Vec<String>,
    ExtractError,
>)
    ensures
        match r {
            Ok(blocks) => {
                &&& doc@.cells is Some
                &&& {
                    let spec_blocks = extract_spec(doc@.cells->0, filter);
                    &&& spec_blocks.len() > 0
                    &&& blocks@.len() == spec_blocks.len()
                    &&& forall|i: int|
                        0 <= i < blocks@.len() ==> blocks@[i]@ == spec_blocks[i]
                }
            },
            Err(ExtractError::MissingCells) => doc@.cells is None,
            Err(ExtractError::NoMatchingContent(f)) => {
                &&& f == filter
                &&& doc@.cells is Some
                &&& extract_spec(doc@.cells->0, filter).len() == 0
            },
        },
{
    let cells = match &doc.cells {
        Some(cs) => cs,
        None => {
            return Err(ExtractError::MissingCells);
        },
    };
    let ghost cs = cells@.map_values(|c: Cell| c@);
    let ghost f = block_of_cell(filter);
    let mut blocks: Vec<String> = Vec::new();
    let mut i: usize = 0;
    while i < cells.len()
        invariant
            0 <= i <= cells@.len(),
            cs == cells@.map_values(|c: Cell| c@),
            f == block_of_cell(filter),
            blocks@.len() == cs.take(i as int).filter_map(f).len(),
            forall|j: int|
                0 <= j < blocks@.len() ==> blocks@[j]@ == cs.take(i as int).filter_map(f)[j],
        decreases cells@.len() - i,
    {
        proof {
            cs.lemma_filter_map_take_succ(f, i as int);
            assert(cs[i as int] == cells@[i as int]@);
        }
        let c = &cells[i];
        if matches_filter(c, filter) {
            let resolved = resolve_source(c);
            let trimmed = trim_chars(&resolved);
            if trimmed.len() > 0 {
                let is_code = type_is(c, "code");
                let block = render_block(&trimmed, is_code);
                proof {
                    assert(block@ == cell_block(c@));
                    assert(f(cs[i as int]) == Some::<Seq<char>>(cell_block(c@)));
                }
                blocks.push(block);
            } else {
                proof {
                    assert(f(cs[i as int]) is None);
                }
            }
        } else {
            proof {
                assert(f(cs[i as int]) is None);
            }
        }
        i = i + 1;
    }
    proof {
        assert(cs.take(cs.len() as int) =~= cs);
    }
    if blocks.len() == 0 {
        Err(ExtractError::NoMatchingContent(filter))
    } else {
        Ok(blocks)
    }
}

} // verus!

