use vstd::prelude::*;

verus! {

broadcast use vstd::std_specs::vec::axiom_vec_index_decreases;

/// An entry of a document's outline (table of contents) and the entries below it.
pub struct OutlineNode {
    pub title: String,
    pub page_index: Option<u32>,
    pub children: Vec<OutlineNode>,
}

/// One visible line of the outline panel: what it shows, and the path of child indices
/// that leads to its entry.
pub struct OutlineRow {
    pub title: String,
    pub page_index: Option<u32>,
    pub depth: usize,
    pub has_children: bool,
    pub expanded: bool,
    pub path: Vec<usize>,
}

pub ghost struct OutlineRowView {
    pub title: Seq<char>,
    pub page_index: Option<u32>,
    pub depth: int,
    pub has_children: bool,
    pub expanded: bool,
    pub path: Seq<usize>,
}

impl View for OutlineRow {
    type V = OutlineRowView;

    open spec fn view(&self) -> OutlineRowView {
        OutlineRowView {
            title: self.title@,
            page_index: self.page_index,
            depth: self.depth as int,
            has_children: self.has_children,
            expanded: self.expanded,
            path: self.path@,
        }
    }
}

pub open spec fn rows_view(rows: Seq<OutlineRow>) -> Seq<OutlineRowView> {
    rows.map_values(|r: OutlineRow| r@)
}

/// The title shown for an entry: entries without one read "Untitled".
pub open spec fn shown_title(title: Seq<char>) -> Seq<char> {
    if title.len() == 0 {
        "Untitled"@
    } else {
        title
    }
}

/// The user opened the entry at `path`.
pub open spec fn path_listed(expanded: Seq<Vec<usize>>, path: Seq<usize>) -> bool {
    exists|k: int| 0 <= k < expanded.len() && (#[trigger] expanded[k])@ == path
}

/// The line of the entry `node` found at `path`.
pub open spec fn row_of(node: OutlineNode, path: Seq<usize>, expanded: Seq<Vec<usize>>) -> OutlineRowView {
    let has_children = node.children.len() > 0;
    OutlineRowView {
        title: shown_title(node.title@),
        page_index: node.page_index,
        depth: path.len() - 1,
        has_children,
        expanded: has_children && path_listed(expanded, path),
        path,
    }
}

/// The entries below an opened entry are shown while its path is shorter than the depth
/// limit.
pub open spec fn descends(node: OutlineNode, path: Seq<usize>, expanded: Seq<Vec<usize>>, max_depth: usize) -> bool {
    node.children.len() > 0 && path_listed(expanded, path) && path.len() < max_depth
}

/// The lines of `node` at `path` and, when it is opened, of the entries below it, in
/// reading order.
pub open spec fn node_rows(
    node: OutlineNode,
    path: Seq<usize>,
    expanded: Seq<Vec<usize>>,
    max_depth: usize,
) -> Seq<OutlineRowView>
    decreases node, 0int,
{
    seq![row_of(node, path, expanded)] + if descends(node, path, expanded, max_depth) {
        sibling_rows(node.children, 0, path, expanded, max_depth)
    } else {
        Seq::empty()
    }
}

/// The lines of the entries `nodes[i..]` under the parent path `parent`.
pub open spec fn sibling_rows(
    nodes: Vec<OutlineNode>,
    i: int,
    parent: Seq<usize>,
    expanded: Seq<Vec<usize>>,
    max_depth: usize,
) -> Seq<OutlineRowView>
    decreases nodes, nodes.len() - i,
{
    if i < 0 || i >= nodes.len() {
        Seq::empty()
    } else {
        node_rows(nodes[i], parent.push(i as usize), expanded, max_depth) + sibling_rows(
            nodes,
            i + 1,
            parent,
            expanded,
            max_depth,
        )
    }
}

/// The lines of the entries `nodes[..i]` under `parent`.
pub open spec fn rows_before(
    nodes: Vec<OutlineNode>,
    i: int,
    parent: Seq<usize>,
    expanded: Seq<Vec<usize>>,
    max_depth: usize,
) -> Seq<OutlineRowView>
    decreases i,
{
    if i <= 0 || i > nodes.len() {
        Seq::empty()
    } else {
        rows_before(nodes, i - 1, parent, expanded, max_depth) + node_rows(
            nodes[i - 1],
            parent.push((i - 1) as usize),
            expanded,
            max_depth,
        )
    }
}

/// At most the first `max` lines.
pub open spec fn capped<T>(s: Seq<T>, max: usize) -> Seq<T> {
    if s.len() <= max {
        s
    } else {
        s.take(max as int)
    }
}

proof fn lemma_before_and_from(
    nodes: Vec<OutlineNode>,
    i: int,
    parent: Seq<usize>,
    expanded: Seq<Vec<usize>>,
    max_depth: usize,
)
    requires
        0 <= i <= nodes.len(),
    ensures
        rows_before(nodes, i, parent, expanded, max_depth) + sibling_rows(
            nodes,
            i,
            parent,
            expanded,
            max_depth,
        ) == sibling_rows(nodes, 0, parent, expanded, max_depth),
    decreases i,
{
    if i == 0 {
        assert(Seq::<OutlineRowView>::empty() + sibling_rows(nodes, 0, parent, expanded, max_depth)
            =~= sibling_rows(nodes, 0, parent, expanded, max_depth));
    } else {
        lemma_before_and_from(nodes, i - 1, parent, expanded, max_depth);
        let a = rows_before(nodes, i - 1, parent, expanded, max_depth);
        let b = node_rows(nodes[i - 1], parent.push((i - 1) as usize), expanded, max_depth);
        let c = sibling_rows(nodes, i, parent, expanded, max_depth);
        assert(sibling_rows(nodes, i - 1, parent, expanded, max_depth) == b + c);
        assert((a + b) + c =~= a + (b + c));
    }
}

proof fn lemma_capped_full<T>(a: Seq<T>, b: Seq<T>, max: usize)
    requires
        a.len() >= max,
    ensures
        capped(a + b, max) == capped(a, max),
{
    assert((a + b).take(max as int) =~= a.take(max as int));
}

fn same_path(a: &[usize], b: &[usize]) -> (r: bool)
    ensures
        r == (a@ == b@),
{
    if a.len() != b.len() {
        return false;
    }
    let mut i: usize = 0;
    while i < a.len()
        invariant
            a@.len() == b@.len(),
            i <= a@.len(),
            forall|k: int| 0 <= k < i ==> a@[k] == b@[k],
        decreases a.len() - i,
    {
        if a[i] != b[i] {
            return false;
        }
        i += 1;
    }
    assert(a@ =~= b@);
    true
}

fn is_listed(expanded: &[Vec<usize>], path: &Vec<usize>) -> (r: bool)
    ensures
        r == path_listed(expanded@, path@),
{
    let mut k: usize = 0;
    while k < expanded.len()
        invariant
            k <= expanded@.len(),
            forall|j: int| 0 <= j < k ==> (#[trigger] expanded@[j])@ != path@,
        decreases expanded.len() - k,
    {
        if same_path(expanded[k].as_slice(), path.as_slice()) {
            return true;
        }
        k += 1;
    }
    false
}

fn child_path(parent: &Vec<usize>, index: usize) -> (r: Vec<usize>)
    ensures
        r@ == parent@.push(index),
{
    let mut path: Vec<usize> = Vec::new();
    let mut k: usize = 0;
    while k < parent.len()
        invariant
            k <= parent@.len(),
            path@ == parent@.take(k as int),
        decreases parent.len() - k,
    {
        path.push(parent[k]);
        assert(path@ =~= parent@.take(k + 1));
        k += 1;
    }
    assert(parent@.take(parent@.len() as int) =~= parent@);
    path.push(index);
    path
}

fn flatten_siblings(
    nodes: &Vec<OutlineNode>,
    parent: &Vec<usize>,
    expanded: &[Vec<usize>],
    max_items: usize,
    max_depth: usize,
    rows: &mut Vec<OutlineRow>,
)
    requires
        old(rows)@.len() <= max_items,
        parent@.len() < usize::MAX,
    ensures
        final(rows)@.len() <= max_items,
        rows_view(final(rows)@) == capped(
            rows_view(old(rows)@) + sibling_rows(*nodes, 0, parent@, expanded@, max_depth),
            max_items,
        ),
    decreases *nodes,
{
    let ghost start = rows_view(rows@);
    let ghost ex = expanded@;
    let mut i: usize = 0;
    assert(start + rows_before(*nodes, 0, parent@, ex, max_depth) =~= start);
    while i < nodes.len()
        invariant
            i <= nodes@.len(),
            rows@.len() <= max_items,
            parent@.len() < usize::MAX,
            start == rows_view(old(rows)@),
            ex == expanded@,
            rows@.len() < max_items ==> rows_view(rows@) == start + rows_before(
                *nodes,
                i as int,
                parent@,
                ex,
                max_depth,
            ),
            rows@.len() >= max_items ==> rows_view(rows@) == capped(
                start + rows_before(*nodes, i as int, parent@, ex, max_depth),
                max_items,
            ) && (start + rows_before(*nodes, i as int, parent@, ex, max_depth)).len()
                >= max_items,
        decreases nodes.len() - i,
    {
        if rows.len() >= max_items {
            proof {
                lemma_before_and_from(*nodes, i as int, parent@, ex, max_depth);
                let a = start + rows_before(*nodes, i as int, parent@, ex, max_depth);
                let b = sibling_rows(*nodes, i as int, parent@, ex, max_depth);
                lemma_capped_full(a, b, max_items);
                assert(start + sibling_rows(*nodes, 0, parent@, ex, max_depth) =~= a + b);
            }
            return;
        }
        let node = &nodes[i];
        let path = child_path(parent, i);
        let has_children = node.children.len() > 0;
        let listed = is_listed(expanded, &path);
        let title = if node.title.as_str().is_empty() {
            "Untitled".to_string()
        } else {
            node.title.clone()
        };
        proof {
            reveal_strlit("Untitled");
        }
        let row = OutlineRow {
            title,
            page_index: node.page_index,
            depth: path.len() - 1,
            has_children,
            expanded: has_children && listed,
            path: child_path(parent, i),
        };
        let ghost before_row = rows@;
        rows.push(row);
        let ghost pushed = rows_view(rows@);
        proof {
            assert(rows_view(rows@) =~= rows_view(before_row).push(row@));
            assert(row@ == row_of(nodes@[i as int], parent@.push(i), ex));
        }
        if has_children && listed && path.len() < max_depth {
            proof {
                assert(decreases_to!(*nodes => nodes@[i as int]));
            }
            flatten_siblings(&node.children, &path, expanded, max_items, max_depth, rows);
        }
        proof {
            let a = start + rows_before(*nodes, i as int, parent@, ex, max_depth);
            let node_lines = node_rows(nodes@[i as int], parent@.push(i), ex, max_depth);
            let below = if descends(nodes@[i as int], parent@.push(i), ex, max_depth) {
                sibling_rows(nodes@[i as int].children, 0, parent@.push(i), ex, max_depth)
            } else {
                Seq::empty()
            };
            assert(node_lines == seq![row_of(nodes@[i as int], parent@.push(i), ex)] + below);
            assert(pushed =~= a.push(row_of(nodes@[i as int], parent@.push(i), ex)));
            assert(rows_before(*nodes, i + 1, parent@, ex, max_depth) == rows_before(
                *nodes,
                i as int,
                parent@,
                ex,
                max_depth,
            ) + node_lines);
            assert(start + rows_before(*nodes, i + 1, parent@, ex, max_depth) =~= pushed + below);
            if !descends(nodes@[i as int], parent@.push(i), ex, max_depth) {
                assert(pushed + below =~= pushed);
            }
        }
        i += 1;
    }
    proof {
        lemma_before_and_from(*nodes, nodes@.len() as int, parent@, ex, max_depth);
        assert(rows_before(*nodes, nodes@.len() as int, parent@, ex, max_depth) + sibling_rows(
            *nodes,
            nodes@.len() as int,
            parent@,
            ex,
            max_depth,
        ) =~= rows_before(*nodes, nodes@.len() as int, parent@, ex, max_depth));
    }
}

/// The paths of the first `n` top-level entries that have entries below them, in order.
pub open spec fn expandable_roots(nodes: Seq<OutlineNode>, n: int) -> Seq<Seq<usize>>
    decreases n,
{
    if n <= 0 || n > nodes.len() {
        Seq::empty()
    } else if nodes[n - 1].children.len() > 0 {
        expandable_roots(nodes, n - 1).push(seq![(n - 1) as usize])
    } else {
        expandable_roots(nodes, n - 1)
    }
}

pub open spec fn paths_view(paths: Seq<Vec<usize>>) -> Seq<Seq<usize>> {
    paths.map_values(|p: Vec<usize>| p@)
}

/// A freshly fetched outline shows its top level with every entry that has entries below
/// it opened.
pub fn initially_expanded(nodes: &Vec<OutlineNode>) -> (r: Vec<Vec<usize>>)
    ensures
        paths_view(r@) == expandable_roots(nodes@, nodes@.len() as int),
{
    let mut paths: Vec<Vec<usize>> = Vec::new();
    let mut i: usize = 0;
    assert(paths_view(paths@) =~= expandable_roots(nodes@, 0));
    while i < nodes.len()
        invariant
            i <= nodes@.len(),
            paths_view(paths@) == expandable_roots(nodes@, i as int),
        decreases nodes.len() - i,
    {
        if nodes[i].children.len() > 0 {
            let mut path: Vec<usize> = Vec::new();
            path.push(i);
            assert(path@ =~= seq![i]);
            let ghost before = paths@;
            paths.push(path);
            assert(paths_view(paths@) =~= paths_view(before).push(seq![i]));
        }
        i += 1;
    }
    paths
}

/// The visible lines of an outline in reading order: every entry of the top level, and
/// below each opened entry (one whose path is in `expanded`) its own entries, down to
/// `max_depth` levels; at most `max_items` lines.
pub fn flatten_outline(
    nodes: &Vec<OutlineNode>,
    expanded: &[Vec<usize>],
    max_items: usize,
    max_depth: usize,
) -> (r: Vec<OutlineRow>)
    ensures
        rows_view(r@) == capped(sibling_rows(*nodes, 0, Seq::empty(), expanded@, max_depth), max_items),
{
    let mut rows: Vec<OutlineRow> = Vec::new();
    let root: Vec<usize> = Vec::new();
    flatten_siblings(nodes, &root, expanded, max_items, max_depth, &mut rows);
    assert(rows_view(Seq::<OutlineRow>::empty()) + sibling_rows(
        *nodes,
        0,
        root@,
        expanded@,
        max_depth,
    ) =~= sibling_rows(*nodes, 0, Seq::empty(), expanded@, max_depth));
    rows
}

fn copy_path(p: &Vec<usize>) -> (r: Vec<usize>)
    ensures
        r@ == p@,
{
    let mut out: Vec<usize> = Vec::new();
    let mut k: usize = 0;
    while k < p.len()
        invariant
            k <= p@.len(),
            out@ == p@.take(k as int),
        decreases p.len() - k,
    {
        out.push(p[k]);
        assert(out@ =~= p@.take(k + 1));
        k += 1;
    }
    assert(p@.take(p@.len() as int) =~= p@);
    out
}

/// A click on line `index` of the outline panel: a line with entries below it opens when
/// closed and closes when open (no other entry changes); the answer is the page of the
/// line's entry, to go to, if it has one. A click past the last line does nothing.
pub fn toggle_outline_row(rows: &[OutlineRow], expanded: &mut Vec<Vec<usize>>, index: usize) -> (r: Option<u32>)
    ensures
        index >= rows@.len() ==> r is None && final(expanded)@ == old(expanded)@,
        index < rows@.len() ==> r == rows@[index as int].page_index,
        index < rows@.len() && !rows@[index as int].has_children ==> final(expanded)@ == old(
            expanded,
        )@,
        index < rows@.len() && rows@[index as int].has_children ==> {
            &&& path_listed(final(expanded)@, rows@[index as int].path@) == !path_listed(
                old(expanded)@,
                rows@[index as int].path@,
            )
            &&& forall|q: Seq<usize>|
                q != rows@[index as int].path@ ==> #[trigger] path_listed(final(expanded)@, q)
                    == path_listed(old(expanded)@, q)
        },
{
    if index >= rows.len() {
        return None;
    }
    let row = &rows[index];
    if !row.has_children {
        return row.page_index;
    }
    let ghost p = row.path@;
    let ghost before = expanded@;
    if is_listed(expanded.as_slice(), &row.path) {
        let mut kept: Vec<Vec<usize>> = Vec::new();
        let mut k: usize = 0;
        while k < expanded.len()
            invariant
                k <= expanded@.len(),
                expanded@ == before,
                p == row.path@,
                forall|j: int| 0 <= j < kept@.len() ==> (#[trigger] kept@[j])@ != p,
                forall|j: int|
                    0 <= j < kept@.len() ==> exists|i: int|
                        0 <= i < k && (#[trigger] before[i])@ == (#[trigger] kept@[j])@,
                forall|i: int|
                    0 <= i < k && (#[trigger] before[i])@ != p ==> exists|j: int|
                        0 <= j < kept@.len() && (#[trigger] kept@[j])@ == before[i]@,
            decreases expanded.len() - k,
        {
            if !same_path(expanded[k].as_slice(), row.path.as_slice()) {
                let copy = copy_path(&expanded[k]);
                let ghost old_kept = kept@;
                kept.push(copy);
                proof {
                    assert(kept@[old_kept.len() as int]@ == before[k as int]@);
                    assert forall|j: int| 0 <= j < kept@.len() implies exists|i: int|
                        0 <= i < k + 1 && (#[trigger] before[i])@ == (#[trigger] kept@[j])@ by {
                        if j < old_kept.len() {
                            assert(kept@[j] == old_kept[j]);
                            let i = choose|i: int| 0 <= i < k && (#[trigger] before[i])@ == (
                            #[trigger] old_kept[j])@;
                            assert(before[i]@ == kept@[j]@);
                        } else {
                            assert(before[k as int]@ == kept@[j]@);
                        }
                    }
                    assert forall|i: int| 0 <= i < k + 1 && (#[trigger] before[i])@ != p implies exists|
                        j: int,
                    | 0 <= j < kept@.len() && (#[trigger] kept@[j])@ == before[i]@ by {
                        if i < k {
                            let j = choose|j: int| 0 <= j < old_kept.len() && (#[trigger] old_kept[j])@
                                == before[i]@;
                            assert(kept@[j] == old_kept[j]);
                        } else {
                            assert(kept@[old_kept.len() as int]@ == before[i]@);
                        }
                    }
                }
            }
            k += 1;
        }
        *expanded = kept;
        proof {
            assert forall|q: Seq<usize>| q != p implies #[trigger] path_listed(expanded@, q)
                == path_listed(before, q) by {
                if path_listed(expanded@, q) {
                    let j = choose|j: int| 0 <= j < expanded@.len() && (#[trigger] expanded@[j])@ == q;
                    let i = choose|i: int| 0 <= i < before.len() && (#[trigger] before[i])@ == (
                    #[trigger] expanded@[j])@;
                    assert(before[i]@ == q);
                }
                if path_listed(before, q) {
                    let i = choose|i: int| 0 <= i < before.len() && (#[trigger] before[i])@ == q;
                    let j = choose|j: int| 0 <= j < expanded@.len() && (#[trigger] expanded@[j])@
                        == before[i]@;
                    assert(expanded@[j]@ == q);
                }
            }
        }
    } else {
        let copy = copy_path(&row.path);
        expanded.push(copy);
        proof {
            assert(expanded@[before.len() as int]@ == p);
            assert forall|q: Seq<usize>| q != p implies #[trigger] path_listed(expanded@, q)
                == path_listed(before, q) by {
                if path_listed(before, q) {
                    let i = choose|i: int| 0 <= i < before.len() && (#[trigger] before[i])@ == q;
                    assert(expanded@[i] == before[i]);
                }
                if path_listed(expanded@, q) {
                    let j = choose|j: int| 0 <= j < expanded@.len() && (#[trigger] expanded@[j])@ == q;
                    if j < before.len() {
                        assert(expanded@[j] == before[j]);
                    }
                }
            }
        }
    }
    row.page_index
}

} // verus!
