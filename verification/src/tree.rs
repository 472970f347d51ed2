//! The directory-tree printer's logic: given a snapshot of a directory, the
//! filtered, name-sorted listing with box-drawing connectors. Reading the
//! directories is the caller's I/O; it hands over the snapshot.

use vstd::prelude::*;
use vstd::string::StringExecFns;
use crate::text::chars_of;

verus! {

/// What reading one directory produced: its entries, or the directory's path
/// when it could not be read.
pub enum DirListing {
    Unread(String),
    Read(Vec<TreeNode>),
}

/// What an entry is: a plain file, or a directory with its own listing.
pub enum NodeKind {
    File,
    Dir(DirListing),
}

/// One directory entry in a snapshot.
pub struct TreeNode {
    pub name: String,
    pub kind: NodeKind,
}

/// Whether `suf` is a suffix of `name`.
pub open spec fn is_suffix_of(suf: Seq<char>, name: Seq<char>) -> bool {
    name.len() >= suf.len() && name.subrange(name.len() - suf.len(), name.len() as int) == suf
}

/// The fixed names the printer leaves out.
pub open spec fn is_excluded_name(name: Seq<char>) -> bool {
    ||| name == ".git"@
    ||| name == ".hg"@
    ||| name == ".svn"@
    ||| name == ".gitattributes"@
    ||| name == ".gitignore"@
    ||| name == "target"@
    ||| name == "build"@
    ||| name == "dist"@
    ||| name == "out"@
    ||| name == "__pycache__"@
    ||| name == ".mypy_cache"@
    ||| name == ".venv"@
    ||| name == "venv"@
    ||| name == "node_modules"@
    ||| name == ".idea"@
    ||| name == ".vscode"@
    ||| name == ".DS_Store"@
    ||| name == "Thumbs.db"@
    ||| name == "ehthumbs.db"@
    ||| name == "desktop.ini"@
    ||| name == "Icon?"@
    ||| name == "$RECYCLE.BIN"@
    ||| name == "System Volume Information"@
    ||| name == "Zone.Identifier"@
    ||| name == ".cache"@
}

/// The fixed suffixes the printer leaves out.
pub open spec fn is_excluded_suffix(name: Seq<char>) -> bool {
    ||| is_suffix_of(".log"@, name)
    ||| is_suffix_of(".tmp"@, name)
    ||| is_suffix_of(".swp"@, name)
    ||| is_suffix_of(".bak"@, name)
    ||| is_suffix_of(".old"@, name)
    ||| is_suffix_of(".orig"@, name)
    ||| is_suffix_of(".pdb"@, name)
    ||| is_suffix_of(".ilk"@, name)
    ||| is_suffix_of(".lnk"@, name)
    ||| is_suffix_of(".exe"@, name)
    ||| is_suffix_of(".dll"@, name)
    ||| is_suffix_of(".class"@, name)
    ||| is_suffix_of(".pyc"@, name)
}

/// Whether a name is left out of the tree: hidden entries, well-known noise
/// names, and noise suffixes.
pub open spec fn name_excluded(name: Seq<char>) -> bool {
    ||| name.len() > 0 && name[0] == '.'
    ||| is_excluded_name(name)
    ||| is_excluded_suffix(name)
}

/// The names of an entry sequence, in order.
pub open spec fn names_of(s: Seq<TreeNode>) -> Seq<Seq<char>> {
    s.map_values(|n: TreeNode| n.name@)
}

/// Whether `a` comes strictly before `b` in code-point order.
pub open spec fn lex_lt(a: Seq<char>, b: Seq<char>) -> bool
    decreases a.len(),
{
    if b.len() == 0 {
        false
    } else if a.len() == 0 {
        true
    } else if (a[0] as u32) < (b[0] as u32) {
        true
    } else if (a[0] as u32) > (b[0] as u32) {
        false
    } else {
        lex_lt(a.drop_first(), b.drop_first())
    }
}

/// Inserts index `i` into an index order sorted by name, after any name it
/// does not strictly precede, so that equal names keep their original order.
pub open spec fn insert_idx(names: Seq<Seq<char>>, i: int, ord: Seq<int>) -> Seq<int>
    decreases ord.len(),
{
    if ord.len() == 0 {
        seq![i]
    } else if lex_lt(names[i], names[ord[0]]) {
        seq![i] + ord
    } else {
        seq![ord[0]] + insert_idx(names, i, ord.drop_first())
    }
}

/// The kept indices among the first `k` entries, sorted by name.
pub open spec fn sort_order_upto(names: Seq<Seq<char>>, k: int) -> Seq<int>
    decreases k,
{
    if k <= 0 {
        Seq::empty()
    } else {
        let rest = sort_order_upto(names, k - 1);
        if !name_excluded(names[k - 1]) {
            insert_idx(names, k - 1, rest)
        } else {
            rest
        }
    }
}

/// The kept indices of the whole entry sequence, sorted by name.
pub open spec fn sort_order(names: Seq<Seq<char>>) -> Seq<int> {
    sort_order_upto(names, names.len() as int)
}

/// The connector before an entry's name.
pub open spec fn connector(is_last: bool) -> Seq<char> {
    if is_last {
        "└── "@
    } else {
        "├── "@
    }
}

/// The prefix a directory's children carry.
pub open spec fn child_prefix(prefix: Seq<char>, is_last: bool) -> Seq<char> {
    if is_last {
        prefix + "    "@
    } else {
        prefix + "│   "@
    }
}

/// The lines one entry contributes: its own line, then, for a directory, the
/// lines of its listing.
pub open spec fn render_entry(n: TreeNode, prefix: Seq<char>, is_last: bool) -> Seq<Seq<char>>
    decreases n, 0int, 0int,
{
    let line = prefix + connector(is_last) + n.name@;
    seq![line] + match n.kind {
        NodeKind::File => Seq::<Seq<char>>::empty(),
        NodeKind::Dir(l) => render_listing(l, child_prefix(prefix, is_last)),
    }
}

/// The lines a directory listing contributes: an error line for an
/// unreadable directory, else its kept entries in sorted order.
pub open spec fn render_listing(l: DirListing, prefix: Seq<char>) -> Seq<Seq<char>>
    decreases l, 1int, 0int,
{
    match l {
        DirListing::Unread(p) => seq!["Error reading: "@ + p@],
        DirListing::Read(kids) => render_list(kids@, sort_order(names_of(kids@)), prefix),
    }
}

/// The lines of the entries of `s` picked out by `order`, in that order.
pub open spec fn render_list(s: Seq<TreeNode>, order: Seq<int>, prefix: Seq<char>) -> Seq<
    Seq<char>,
>
    decreases s, 2int, order.len(),
{
    if order.len() == 0 {
        Seq::empty()
    } else if 0 <= order[0] < s.len() {
        render_entry(s[order[0]], prefix, order.len() == 1) + render_list(
            s,
            order.drop_first(),
            prefix,
        )
    } else {
        render_list(s, order.drop_first(), prefix)
    }
}

fn ends_with_chars(name: &Vec<char>, suf: &Vec<char>) -> (r: bool)
    ensures
        r == is_suffix_of(suf@, name@),
{
    let n = name.len();
    let m = suf.len();
    if n < m {
        return false;
    }
    let mut k: usize = 0;
    while k < m
        invariant
            0 <= k <= m,
            m <= n,
            n == name@.len(),
            m == suf@.len(),
            forall|j: int| 0 <= j < k ==> name@[n - m + j] == suf@[j],
        decreases m - k,
    {
        if name[n - m + k] != suf[k] {
            proof {
                let sub = name@.subrange(n - m, n as int);
                assert(sub[k as int] == name@[n - m + k]);
            }
            return false;
        }
        k = k + 1;
    }
    proof {
        assert(name@.subrange(n - m, n as int) =~= suf@);
    }
    true
}

fn name_excluded_exec(name: &String) -> (r: bool)
    ensures
        r == name_excluded(name@),
{
    let v = chars_of(name.as_str());
    if v.len() > 0 && v[0] == '.' {
        return true;
    }
    if eq_lit(name, ".git") || eq_lit(name, ".hg") || eq_lit(name, ".svn") || eq_lit(
        name,
        ".gitattributes",
    ) || eq_lit(name, ".gitignore") || eq_lit(name, "target") || eq_lit(name, "build") || eq_lit(
        name,
        "dist",
    ) || eq_lit(name, "out") || eq_lit(name, "__pycache__") || eq_lit(name, ".mypy_cache")
        || eq_lit(name, ".venv") || eq_lit(name, "venv") || eq_lit(name, "node_modules") || eq_lit(
        name,
        ".idea",
    ) || eq_lit(name, ".vscode") || eq_lit(name, ".DS_Store") || eq_lit(name, "Thumbs.db")
        || eq_lit(name, "ehthumbs.db") || eq_lit(name, "desktop.ini") || eq_lit(name, "Icon?")
        || eq_lit(name, "$RECYCLE.BIN") || eq_lit(name, "System Volume Information") || eq_lit(
        name,
        "Zone.Identifier",
    ) || eq_lit(name, ".cache") {
        return true;
    }
    if suf_lit(&v, ".log") || suf_lit(&v, ".tmp") || suf_lit(&v, ".swp") || suf_lit(&v, ".bak")
        || suf_lit(&v, ".old") || suf_lit(&v, ".orig") || suf_lit(&v, ".pdb") || suf_lit(
        &v,
        ".ilk",
    ) || suf_lit(&v, ".lnk") || suf_lit(&v, ".exe") || suf_lit(&v, ".dll") || suf_lit(
        &v,
        ".class",
    ) || suf_lit(&v, ".pyc") {
        return true;
    }
    false
}

fn eq_lit(name: &String, lit: &str) -> (r: bool)
    ensures
        r == (name@ == lit@),
{
    *name == String::from_str(lit)
}

fn suf_lit(name: &Vec<char>, lit: &str) -> (r: bool)
    ensures
        r == is_suffix_of(lit@, name@),
{
    let suf = chars_of(lit);
    ends_with_chars(name, &suf)
}

fn lex_lt_exec(a: &Vec<char>, b: &Vec<char>) -> (r: bool)
    ensures
        r == lex_lt(a@, b@),
{
    let mut k: usize = 0;
    proof {
        assert(a@.skip(0) =~= a@);
        assert(b@.skip(0) =~= b@);
    }
    while k < a.len() && k < b.len()
        invariant
            0 <= k <= a@.len(),
            0 <= k <= b@.len(),
            lex_lt(a@, b@) == lex_lt(a@.skip(k as int), b@.skip(k as int)),
        decreases a@.len() - k,
    {
        let ca = a[k] as u32;
        let cb = b[k] as u32;
        proof {
            assert(a@.skip(k as int)[0] == a@[k as int]);
            assert(b@.skip(k as int)[0] == b@[k as int]);
            assert(a@.skip(k as int).drop_first() =~= a@.skip(k + 1));
            assert(b@.skip(k as int).drop_first() =~= b@.skip(k + 1));
        }
        if ca < cb {
            return true;
        }
        if ca > cb {
            return false;
        }
        k = k + 1;
    }
    let r = k == a.len() && k < b.len();
    proof {
        assert(a@.skip(k as int).len() == a@.len() - k);
        assert(b@.skip(k as int).len() == b@.len() - k);
    }
    r
}

proof fn lemma_insert_idx_at(names: Seq<Seq<char>>, i: int, ord: Seq<int>, p: int)
    requires
        0 <= p <= ord.len(),
        forall|k: int| 0 <= k < p ==> !lex_lt(names[i], names[#[trigger] ord[k]]),
        p < ord.len() ==> lex_lt(names[i], names[ord[p]]),
    ensures
        insert_idx(names, i, ord) == ord.insert(p, i),
    decreases ord.len(),
{
    if ord.len() == 0 {
        assert(insert_idx(names, i, ord) =~= ord.insert(0, i));
    } else if p == 0 {
        assert(insert_idx(names, i, ord) =~= ord.insert(0, i));
    } else {
        assert(!lex_lt(names[i], names[ord[0]]));
        let rest = ord.drop_first();
        assert(forall|k: int| 0 <= k < p - 1 ==> rest[k] == ord[k + 1]);
        lemma_insert_idx_at(names, i, rest, p - 1);
        assert(insert_idx(names, i, ord) == seq![ord[0]] + rest.insert(p - 1, i));
        assert(seq![ord[0]] + rest.insert(p - 1, i) =~= ord.insert(p, i));
    }
}

fn kept_exec(n: &TreeNode) -> (r: bool)
    ensures
        r == !name_excluded(n.name@),
{
    !name_excluded_exec(&n.name)
}

/// Computes the kept indices of a snapshot's entries, sorted by name.
fn sort_indices(kids: &Vec<TreeNode>) -> (r: Vec<usize>)
    ensures
        r@.map_values(|u: usize| u as int) == sort_order(names_of(kids@)),
        forall|j: int| 0 <= j < r@.len() ==> r@[j] < kids@.len(),
{
    let ghost names = names_of(kids@);
    let mut ord: Vec<usize> = Vec::new();
    let mut idx: usize = 0;
    while idx < kids.len()
        invariant
            0 <= idx <= kids@.len(),
            names == names_of(kids@),
            ord@.map_values(|u: usize| u as int) == sort_order_upto(names, idx as int),
            forall|j: int| 0 <= j < ord@.len() ==> ord@[j] < idx,
        decreases kids@.len() - idx,
    {
        let ghost ordi = ord@.map_values(|u: usize| u as int);
        proof {
            assert(names[idx as int] == kids@[idx as int].name@);
        }
        if kept_exec(&kids[idx]) {
            let nm_i = chars_of(kids[idx].name.as_str());
            let mut p: usize = 0;
            while p < ord.len()
                invariant_except_break
                    0 <= p <= ord@.len(),
                    nm_i@ == names[idx as int],
                    names == names_of(kids@),
                    forall|j: int| 0 <= j < ord@.len() ==> #[trigger] ord@[j] < idx,
                    idx < kids@.len(),
                    forall|k: int|
                        0 <= k < p ==> !lex_lt(names[idx as int], names[#[trigger] ordi[k]]),
                    ordi == ord@.map_values(|u: usize| u as int),
                ensures
                    0 <= p <= ord@.len(),
                    forall|k: int|
                        0 <= k < p ==> !lex_lt(names[idx as int], names[#[trigger] ordi[k]]),
                    p < ord@.len() ==> lex_lt(names[idx as int], names[ordi[p as int]]),
                decreases ord@.len() - p,
            {
                let at = ord[p];
                let nm_p = chars_of(kids[at].name.as_str());
                proof {
                    assert(names[ordi[p as int]] == kids@[at as int].name@);
                }
                if lex_lt_exec(&nm_i, &nm_p) {
                    break;
                }
                p = p + 1;
            }
            proof {
                lemma_insert_idx_at(names, idx as int, ordi, p as int);
            }
            ord.insert(p, idx);
            proof {
                assert(ord@.map_values(|u: usize| u as int) =~= ordi.insert(p as int, idx as int));
            }
        }
        idx = idx + 1;
    }
    ord
}

fn push_line(lines: &mut Vec<String>, prefix: &String, is_last: bool, name: &String)
    ensures
        final(lines)@.len() == old(lines)@.len() + 1,
        final(lines)@ =~= old(lines)@.push(final(lines)@.last()),
        final(lines)@.last()@ == prefix@ + connector(is_last) + name@,
{
    let mut s = String::new();
    s.append(prefix.as_str());
    if is_last {
        s.append("└── ");
    } else {
        s.append("├── ");
    }
    s.append(name.as_str());
    proof {
        assert(s@ =~= prefix@ + connector(is_last) + name@);
    }
    lines.push(s);
}

/// Renders a directory listing as tree lines: an error line when the
/// directory could not be read, else one line per kept entry in name order,
/// with each subdirectory's lines underneath.
#[verifier::loop_isolation(false)]
pub fn build_tree(listing: &DirListing, prefix: &String) -> (r: Vec<String>)
    ensures
        r@.map_values(|x: String| x@) == render_listing(*listing, prefix@),
    decreases *listing, 1int,
{
    match listing {
        DirListing::Unread(p) => {
            let mut line = String::from_str("Error reading: ");
            line.append(p.as_str());
            let mut lines: Vec<String> = Vec::new();
            lines.push(line);
            proof {
                assert(lines@.map_values(|x: String| x@) =~= render_listing(*listing, prefix@));
            }
            lines
        },
        DirListing::Read(kids) => {
            let order = sort_indices(kids);
            let ghost s = kids@;
            let ghost ordi = order@.map_values(|u: usize| u as int);
            let mut lines: Vec<String> = Vec::new();
            let mut k: usize = 0;
            proof {
                assert(ordi.skip(0) =~= ordi);
                assert(Seq::<String>::empty().map_values(|x: String| x@) =~= Seq::<
                    Seq<char>,
                >::empty());
                assert(Seq::<Seq<char>>::empty() + render_list(s, ordi, prefix@) =~= render_list(
                    s,
                    ordi,
                    prefix@,
                ));
            }
            while k < order.len()
                invariant
                    0 <= k <= order@.len(),
                    s == kids@,
                    ordi == order@.map_values(|u: usize| u as int),
                    forall|j: int| 0 <= j < order@.len() ==> order@[j] < s.len(),
                    render_list(s, ordi, prefix@) == lines@.map_values(|x: String| x@)
                        + render_list(s, ordi.skip(k as int), prefix@),
                decreases order@.len() - k,
            {
                proof {
                    assert(ordi.skip(k as int)[0] == ordi[k as int]);
                    assert(ordi.skip(k as int).drop_first() =~= ordi.skip(k + 1));
                    assert(0 <= ordi[k as int] < s.len());
                }
                let at = order[k];
                let is_last = k == order.len() - 1;
                proof {
                    assert((ordi.skip(k as int).len() == 1) == is_last);
                    assert(*listing == DirListing::Read(*kids));
                    assert(decreases_to!(DirListing::Read(*kids) => *kids));
                    assert(decreases_to!(*kids => kids@));
                    assert(decreases_to!(kids@ => kids@[at as int]));
                }
                let entry_lines = render_entry_exec(&kids[at], prefix, is_last);
                let mut e = entry_lines;
                let ghost lines_before = lines@;
                let ghost e_view = e@;
                lines.append(&mut e);
                proof {
                    assert(lines@ =~= lines_before + e_view);
                    assert(lines@.map_values(|x: String| x@) =~= lines_before.map_values(
                        |x: String| x@,
                    ) + e_view.map_values(|x: String| x@));
                }
                k = k + 1;
            }
            proof {
                assert(ordi.skip(ordi.len() as int) =~= Seq::<int>::empty());
                assert(render_list(s, ordi.skip(ordi.len() as int), prefix@) =~= Seq::<
                    Seq<char>,
                >::empty());
                assert(render_list(s, ordi, prefix@) =~= lines@.map_values(|x: String| x@));
            }
            lines
        },
    }
}

/// Renders one entry: its own line, then its subtree for a directory.
fn render_entry_exec(n: &TreeNode, prefix: &String, is_last: bool) -> (r: Vec<String>)
    ensures
        r@.map_values(|x: String| x@) == render_entry(*n, prefix@, is_last),
    decreases *n, 0int,
{
    let mut lines: Vec<String> = Vec::new();
    push_line(&mut lines, prefix, is_last, &n.name);
    match &n.kind {
        NodeKind::File => {
            proof {
                assert(lines@.map_values(|x: String| x@) =~= render_entry(*n, prefix@, is_last));
            }
            lines
        },
        NodeKind::Dir(l) => {
            let mut cp = prefix.clone();
            if is_last {
                cp.append("    ");
            } else {
                cp.append("│   ");
            }
            proof {
                assert(cp@ == child_prefix(prefix@, is_last));
            }
            let sub = build_tree(l, &cp);
            let mut sub2 = sub;
            let ghost lines_before = lines@;
            let ghost sub_view = sub2@;
            lines.append(&mut sub2);
            proof {
                assert(lines@ =~= lines_before + sub_view);
                assert(lines@.map_values(|x: String| x@) =~= lines_before.map_values(
                    |x: String| x@,
                ) + sub_view.map_values(|x: String| x@));
                assert(lines@.map_values(|x: String| x@) =~= render_entry(*n, prefix@, is_last));
            }
            lines
        },
    }
}

/// Lines joined with a newline between consecutive lines.
pub open spec fn join_lines(lines: Seq<Seq<char>>) -> Seq<char>
    decreases lines.len(),
{
    if lines.len() == 0 {
        Seq::empty()
    } else if lines.len() == 1 {
        lines[0]
    } else {
        join_lines(lines.drop_last()) + "\n"@ + lines.last()
    }
}

/// The whole tree text: a header naming the root, a blank line, then the
/// listing's lines, all joined with newlines.
pub open spec fn tree_string_spec(path: Seq<char>, l: DirListing) -> Seq<char> {
    join_lines(seq!["📁 Project tree from: "@ + path, Seq::<char>::empty()] + render_listing(
        l,
        Seq::empty(),
    ))
}

/// Renders the whole tree text for the directory at `path`, whose snapshot
/// is `root`.
pub fn get_tree_string(path: &str, root: &DirListing) -> (r: String)
    ensures
        r@ == tree_string_spec(path@, *root),
{
    let mut header = String::from_str("📁 Project tree from: ");
    header.append(path);
    let mut lines: Vec<String> = Vec::new();
    lines.push(header);
    lines.push(String::new());
    let empty_prefix = String::new();
    let sub = build_tree(root, &empty_prefix);
    let mut sub2 = sub;
    let ghost lines_before = lines@;
    let ghost sub_view = sub2@;
    lines.append(&mut sub2);
    proof {
        assert(lines@ =~= lines_before + sub_view);
        assert(lines@.map_values(|x: String| x@) =~= seq![
            "📁 Project tree from: "@ + path@,
            Seq::<char>::empty(),
        ] + render_listing(*root, Seq::empty()));
    }
    let ghost ls = lines@.map_values(|x: String| x@);
    let mut acc = String::new();
    let mut i: usize = 0;
    while i < lines.len()
        invariant
            0 <= i <= lines@.len(),
            ls == lines@.map_values(|x: String| x@),
            acc@ == join_lines(ls.take(i as int)),
        decreases lines@.len() - i,
    {
        proof {
            assert(ls.take(i + 1).drop_last() =~= ls.take(i as int));
            assert(ls.take(i + 1).last() == ls[i as int]);
        }
        if i > 0 {
            acc.append("\n");
        }
        acc.append(lines[i].as_str());
        i = i + 1;
    }
    proof {
        assert(ls.take(ls.len() as int) =~= ls);
    }
    acc
}

} // verus!
