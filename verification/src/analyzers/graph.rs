//! Graph structure: cycles, depth, fan-in/out, complexity and fusion.
//!
//! Node positions are the vertices; position `i` leads to position `j` when
//! an edge runs from the id of node `i` to the id of node `j`.
use crate::analyzer::{
    clamp_i64, count_milli, finding_views, fixed_finding, impact, make_finding, make_result,
    metric_views, no_nodes, push_finding, push_metric, texts, AnalysisContext, AnalysisResult,
    AnalysisResultView, Finding, FindingType, FindingView, Impact, Metric, RiskSeverity,
};
use crate::ir::{
    class_positions, degree, downstream, edge_degree, edge_exists, has_edge, lemma_linked,
    linked_positions, select, Edge, NodeClass, PipelineIR, Selector, TransformNode, TransformType,
};
use crate::text::{decimal, decimal_text, decimal_text_wide, fixed, fixed_text};
use vstd::prelude::*;
use vstd::set_lib::{lemma_int_range, lemma_len_subset, set_int_range};

verus! {

/// An edge runs from the node at position `i` to the node at position `j`.
pub open spec fn succ(ir: PipelineIR, i: int, j: int) -> bool {
    has_edge(ir.edges@, ir.nodes@[i].id@, ir.nodes@[j].id@)
}

/// `w` is a closed walk over node positions: at least one step, each step
/// along an edge, ending where it started.
pub open spec fn is_cycle(ir: PipelineIR, w: Seq<int>) -> bool {
    &&& w.len() >= 2
    &&& w[0] == w[w.len() - 1]
    &&& forall|k: int| 0 <= k < w.len() ==> 0 <= #[trigger] w[k] < ir.nodes@.len()
    &&& forall|k: int| 0 <= k < w.len() - 1 ==> #[trigger] succ(ir, w[k], w[k + 1])
}

/// The pipeline's graph contains a directed cycle.
pub open spec fn has_cycle(ir: PipelineIR) -> bool {
    exists|w: Seq<int>| is_cycle(ir, w)
}

/// The positions marked in `removed`.
spec fn marked(removed: Seq<bool>) -> Set<int> {
    Set::new(|i: int| 0 <= i < removed.len() && removed[i])
}

/// Some position not yet removed has an edge into position `j`.
spec fn has_live_pred(ir: PipelineIR, removed: Seq<bool>, j: int) -> bool {
    exists|i: int| 0 <= i < ir.nodes@.len() && !removed[i] && #[trigger] succ(ir, i, j)
}

/// Some live predecessor of position `j`.
spec fn live_pred(ir: PipelineIR, removed: Seq<bool>, j: int) -> int {
    choose|i: int| 0 <= i < ir.nodes@.len() && !removed[i] && #[trigger] succ(ir, i, j)
}

/// Starting from `j`, `m` steps backwards along live predecessors.
spec fn back_walk(ir: PipelineIR, removed: Seq<bool>, j: int, m: nat) -> Seq<int>
    decreases m,
{
    if m == 0 {
        seq![j]
    } else {
        let b = back_walk(ir, removed, j, (m - 1) as nat);
        b.push(live_pred(ir, removed, b[b.len() - 1]))
    }
}

proof fn lemma_back_walk(ir: PipelineIR, removed: Seq<bool>, j: int, m: nat)
    requires
        removed.len() == ir.nodes@.len(),
        0 <= j < ir.nodes@.len(),
        !removed[j],
        forall|x: int|
            0 <= x < ir.nodes@.len() && !removed[x] ==> #[trigger] has_live_pred(ir, removed, x),
    ensures
        back_walk(ir, removed, j, m).len() == m + 1,
        forall|k: int|
            0 <= k <= m ==> 0 <= #[trigger] back_walk(ir, removed, j, m)[k] < ir.nodes@.len()
                && !removed[back_walk(ir, removed, j, m)[k]],
        forall|k: int|
            0 <= k < m ==> #[trigger] succ(
                ir,
                back_walk(ir, removed, j, m)[k + 1],
                back_walk(ir, removed, j, m)[k],
            ),
    decreases m,
{
    if m > 0 {
        lemma_back_walk(ir, removed, j, (m - 1) as nat);
        let b = back_walk(ir, removed, j, (m - 1) as nat);
        let last = b[b.len() - 1];
        assert(has_live_pred(ir, removed, last));
        let p = live_pred(ir, removed, last);
        assert(0 <= p < ir.nodes@.len() && !removed[p] && succ(ir, p, last));
        let bm = back_walk(ir, removed, j, m);
        assert(bm == b.push(p));
        assert forall|k: int| 0 <= k < m implies #[trigger] succ(ir, bm[k + 1], bm[k]) by {
            if k < m - 1 {
                assert(bm[k + 1] == b[k + 1]);
                assert(bm[k] == b[k]);
            }
        }
    }
}

/// A sequence of `n + 1` positions below `n` repeats one.
proof fn lemma_pigeonhole(s: Seq<int>, n: nat)
    requires
        s.len() == n + 1,
        forall|k: int| 0 <= k < s.len() ==> 0 <= #[trigger] s[k] < n,
    ensures
        exists|a: int, b: int| 0 <= a < b < s.len() && #[trigger] s[a] == #[trigger] s[b],
{
    if s.no_duplicates() {
        s.unique_seq_to_set();
        lemma_int_range(0, n as int);
        assert(s.to_set().subset_of(set_int_range(0, n as int))) by {
            assert forall|x: int| s.to_set().contains(x) implies set_int_range(0, n as int).contains(
                x,
            ) by {
                let k = choose|k: int| 0 <= k < s.len() && s[k] == x;
                assert(0 <= s[k] < n);
            }
        }
        lemma_len_subset(s.to_set(), set_int_range(0, n as int));
        assert(false);
    } else {
        let (a, b) = choose|a: int, b: int|
            0 <= a < s.len() && 0 <= b < s.len() && a != b && s[a] == s[b];
        if a < b {
            assert(s[a] == s[b]);
        } else {
            assert(s[b] == s[a]);
        }
    }
}

/// When every live position has a live predecessor, a cycle exists.
proof fn lemma_stuck_has_cycle(ir: PipelineIR, removed: Seq<bool>, j: int)
    requires
        removed.len() == ir.nodes@.len(),
        0 <= j < ir.nodes@.len(),
        !removed[j],
        forall|x: int|
            0 <= x < ir.nodes@.len() && !removed[x] ==> #[trigger] has_live_pred(ir, removed, x),
    ensures
        has_cycle(ir),
{
    let n = ir.nodes@.len();
    lemma_back_walk(ir, removed, j, n);
    let b = back_walk(ir, removed, j, n);
    assert forall|k: int| 0 <= k < b.len() implies 0 <= #[trigger] b[k] < n by {}
    lemma_pigeonhole(b, n);
    let (lo, hi) = choose|a: int, c: int| 0 <= a < c < b.len() && #[trigger] b[a] == #[trigger] b[c];
    let w = Seq::new((hi - lo + 1) as nat, |t: int| b[hi - t]);
    assert(is_cycle(ir, w)) by {
        assert(w[0] == b[hi]);
        assert(w[w.len() - 1] == b[lo]);
        assert forall|k: int| 0 <= k < w.len() implies 0 <= #[trigger] w[k] < n by {
            assert(w[k] == b[hi - k]);
        }
        assert forall|k: int| 0 <= k < w.len() - 1 implies #[trigger] succ(ir, w[k], w[k + 1]) by {
            let q = hi - k - 1;
            assert(w[k] == b[q + 1]);
            assert(w[k + 1] == b[q]);
            assert(succ(ir, b[q + 1], b[q]));
        }
    }
}

/// Along a walk through ranked positions, ranks strictly increase.
proof fn lemma_rank_increases(ir: PipelineIR, rank: Seq<int>, w: Seq<int>, m: int)
    requires
        rank.len() == ir.nodes@.len(),
        1 <= m < w.len(),
        forall|k: int| 0 <= k < w.len() ==> 0 <= #[trigger] w[k] < ir.nodes@.len(),
        forall|k: int| 0 <= k < w.len() - 1 ==> #[trigger] succ(ir, w[k], w[k + 1]),
        forall|i: int, j: int|
            0 <= i < ir.nodes@.len() && 0 <= j < ir.nodes@.len() && #[trigger] succ(ir, i, j)
                ==> rank[i] < rank[j],
    ensures
        rank[w[0]] < rank[w[m]],
    decreases m,
{
    let k = m - 1;
    assert(succ(ir, w[k], w[k + 1]));
    if m > 1 {
        lemma_rank_increases(ir, rank, w, m - 1);
    }
}

/// Whether a position not yet removed has an edge into position `j`.
fn live_pred_exists(ir: &PipelineIR, removed: &Vec<bool>, j: usize) -> (r: bool)
    requires
        removed@.len() == ir.nodes@.len(),
        j < ir.nodes@.len(),
    ensures
        r == has_live_pred(*ir, removed@, j as int),
{
    let mut i: usize = 0;
    while i < ir.nodes.len()
        invariant
            i <= ir.nodes@.len(),
            removed@.len() == ir.nodes@.len(),
            j < ir.nodes@.len(),
            forall|x: int| 0 <= x < i ==> !(!removed@[x] && #[trigger] succ(*ir, x, j as int)),
        decreases ir.nodes@.len() - i,
    {
        if !removed[i] && edge_exists(&ir.edges, ir.nodes[i].id.as_str(), ir.nodes[j].id.as_str()) {
            assert(succ(*ir, i as int, j as int));
            return true;
        }
        i = i + 1;
    }
    false
}

/// A live position with no live predecessor, if any.
fn find_removable(ir: &PipelineIR, removed: &Vec<bool>) -> (r: Option<usize>)
    requires
        removed@.len() == ir.nodes@.len(),
    ensures
        r matches Some(j) ==> j < ir.nodes@.len() && !removed@[j as int] && !has_live_pred(
            *ir,
            removed@,
            j as int,
        ),
        r is None ==> forall|x: int|
            0 <= x < ir.nodes@.len() && !removed@[x] ==> #[trigger] has_live_pred(*ir, removed@, x),
{
    let mut j: usize = 0;
    while j < ir.nodes.len()
        invariant
            j <= ir.nodes@.len(),
            removed@.len() == ir.nodes@.len(),
            forall|x: int|
                0 <= x < j && !removed@[x] ==> #[trigger] has_live_pred(*ir, removed@, x),
        decreases ir.nodes@.len() - j,
    {
        if !removed[j] && !live_pred_exists(ir, removed, j) {
            return Some(j);
        }
        j = j + 1;
    }
    None
}

/// Whether the pipeline's graph contains a directed cycle.  Positions with
/// no remaining predecessor are removed one at a time; a cycle exists
/// exactly when some positions can never be removed.
pub fn detect_cycle(ir: &PipelineIR) -> (r: bool)
    ensures
        r == has_cycle(*ir),
{
    let n = ir.nodes.len();
    let mut removed: Vec<bool> = Vec::new();
    while removed.len() < n
        invariant
            removed@.len() <= n,
            forall|x: int| 0 <= x < removed@.len() ==> !removed@[x],
        decreases n - removed@.len(),
    {
        removed.push(false);
    }
    let ghost mut rank: Seq<int> = Seq::new(n as nat, |i: int| 0);
    let mut count: usize = 0;
    proof {
        assert(marked(removed@) =~= Set::<int>::empty());
    }
    loop
        invariant
            n == ir.nodes@.len(),
            removed@.len() == n,
            rank.len() == n,
            marked(removed@).len() == count,
            marked(removed@).finite(),
            forall|x: int|
                0 <= x < n && #[trigger] removed@[x] ==> 0 <= rank[x] < count && forall|i: int|
                    0 <= i < n && #[trigger] succ(*ir, i, x) ==> removed@[i] && rank[i] < rank[x],
        decreases n - count,
    {
        proof {
            lemma_int_range(0, n as int);
            assert(marked(removed@).subset_of(set_int_range(0, n as int)));
            lemma_len_subset(marked(removed@), set_int_range(0, n as int));
        }
        if count == n {
            proof {
                assert forall|x: int| 0 <= x < n implies #[trigger] removed@[x] by {
                    if !removed@[x] {
                        assert(marked(removed@).subset_of(
                            set_int_range(0, n as int).remove(x),
                        ));
                        lemma_len_subset(marked(removed@), set_int_range(0, n as int).remove(x));
                    }
                }
                assert forall|w: Seq<int>| !is_cycle(*ir, w) by {
                    if is_cycle(*ir, w) {
                        assert forall|i: int, j: int|
                            0 <= i < n && 0 <= j < n && #[trigger] succ(*ir, i, j) implies rank[i]
                            < rank[j] by {
                            assert(removed@[j]);
                        }
                        lemma_rank_increases(*ir, rank, w, w.len() - 1);
                    }
                }
            }
            return false;
        }
        match find_removable(ir, &removed) {
            None => {
                proof {
                    let j = choose|x: int| 0 <= x < n && !removed@[x];
                    if forall|x: int| 0 <= x < n ==> removed@[x] {
                        assert(set_int_range(0, n as int).subset_of(marked(removed@)));
                        lemma_len_subset(set_int_range(0, n as int), marked(removed@));
                        assert(false);
                    }
                    lemma_stuck_has_cycle(*ir, removed@, j);
                }
                return true;
            },
            Some(j) => {
                let ghost old_removed = removed@;
                removed.set(j, true);
                proof {
                    assert(marked(removed@) =~= marked(old_removed).insert(j as int));
                    rank = rank.update(j as int, count as int);
                    assert forall|x: int|
                        0 <= x < n && #[trigger] removed@[x] implies 0 <= rank[x] < count + 1
                        && forall|i: int|
                        0 <= i < n && #[trigger] succ(*ir, i, x) ==> removed@[i] && rank[i]
                            < rank[x] by {
                        if x == j {
                            assert forall|i: int|
                                0 <= i < n && #[trigger] succ(*ir, i, x) implies removed@[i]
                                && rank[i] < rank[x] by {
                                assert(old_removed[i]);
                            }
                        } else {
                            assert(old_removed[x]);
                        }
                    }
                }
                count = count + 1;
            },
        }
    }
}

// ---------------------------------------------------------------------------
// Depth
// ---------------------------------------------------------------------------

/// The node ids recorded in a visited list.
pub open spec fn id_set(v: Seq<String>) -> Set<Seq<char>> {
    Set::new(|s: Seq<char>| exists|i: int| 0 <= i < v.len() && v[i]@ == s)
}

/// The larger of two naturals.
pub open spec fn max_nat(a: nat, b: nat) -> nat {
    if a >= b {
        a
    } else {
        b
    }
}

/// Depth of the walk from node id `x`, with the ids in `visited` already
/// seen, and the visited set afterwards.  A seen id (or an exhausted `fuel`)
/// counts 1; otherwise the id is marked and its depth is one more than the
/// deepest of its downstream nodes, taken in node order and sharing one
/// visited set.  `fuel` bounds the recursion: started at the node count it
/// is never the reason a walk stops, since each step marks a new node id.
pub open spec fn depth_from(ir: PipelineIR, x: Seq<char>, visited: Set<Seq<char>>, fuel: nat) -> (
    nat,
    Set<Seq<char>>,
)
    decreases fuel, 0int, 0int,
{
    if visited.contains(x) || fuel == 0 {
        (1, visited)
    } else {
        let v1 = visited.insert(x);
        let kids = downstream(ir, x);
        if kids.len() == 0 {
            (1, v1)
        } else {
            let r = depth_over(ir, kids, 0, v1, (fuel - 1) as nat);
            (1 + r.0, r.1)
        }
    }
}

/// The deepest of the walks from `kids[k..]`, taken in order, and the
/// visited set afterwards.
pub open spec fn depth_over(
    ir: PipelineIR,
    kids: Seq<usize>,
    k: int,
    visited: Set<Seq<char>>,
    fuel: nat,
) -> (nat, Set<Seq<char>>)
    decreases fuel, 1int, kids.len() - k,
{
    if k < 0 || k >= kids.len() {
        (0, visited)
    } else {
        let a = depth_from(ir, ir.nodes@[kids[k] as int].id@, visited, fuel);
        let b = depth_over(ir, kids, k + 1, a.1, fuel);
        (max_nat(a.0, b.0), b.1)
    }
}

/// The deepest walk from any of the given sources, each with a fresh
/// visited set.
pub open spec fn source_depths_max(ir: PipelineIR, src: Seq<usize>) -> nat
    decreases src.len(),
{
    if src.len() == 0 {
        0
    } else {
        max_nat(
            source_depths_max(ir, src.drop_last()),
            depth_from(ir, ir.nodes@[src.last() as int].id@, Set::empty(), ir.nodes@.len()).0,
        )
    }
}

/// The pipeline's depth: the deepest walk from a source, or the node count
/// when there is no source.
pub open spec fn pipeline_depth(ir: PipelineIR) -> nat {
    let src = select(ir.nodes@, Selector::Class(NodeClass::Source));
    if src.len() == 0 {
        ir.nodes@.len()
    } else {
        source_depths_max(ir, src)
    }
}

fn visited_has(v: &Vec<String>, x: &str) -> (r: bool)
    ensures
        r == id_set(v@).contains(x@),
{
    let mut i: usize = 0;
    while i < v.len()
        invariant
            i <= v@.len(),
            forall|j: int| 0 <= j < i ==> v@[j]@ != x@,
        decreases v@.len() - i,
    {
        if crate::text::str_eq(v[i].as_str(), x) {
            return true;
        }
        i = i + 1;
    }
    false
}

fn depth_exec(ir: &PipelineIR, x: &str, visited: &mut Vec<String>, fuel: u64) -> (d: u128)
    ensures
        d == depth_from(*ir, x@, id_set(old(visited)@), fuel as nat).0,
        id_set(final(visited)@) == depth_from(*ir, x@, id_set(old(visited)@), fuel as nat).1,
        d <= fuel + 1,
    decreases fuel, 0int, 0int,
{
    if fuel == 0 || visited_has(visited, x) {
        return 1;
    }
    let ghost v0 = visited@;
    visited.push(String::from_str(x));
    proof {
        assert(id_set(visited@) =~= id_set(v0).insert(x@)) by {
            assert forall|s: Seq<char>| id_set(v0).insert(x@).contains(s) implies id_set(
                visited@,
            ).contains(s) by {
                if s == x@ {
                    assert(visited@[v0.len() as int]@ == s);
                } else {
                    let i = choose|i: int| 0 <= i < v0.len() && v0[i]@ == s;
                    assert(visited@[i]@ == s);
                }
            }
            assert forall|s: Seq<char>| id_set(visited@).contains(s) implies id_set(
                v0,
            ).insert(x@).contains(s) by {
                let i = choose|i: int| 0 <= i < visited@.len() && visited@[i]@ == s;
                if i < v0.len() {
                    assert(v0[i]@ == s);
                }
            }
        }
    }
    let kids = linked_positions(ir, x, true);
    if kids.len() == 0 {
        return 1;
    }
    let _n = ir.nodes.len();
    proof {
        lemma_linked(ir.nodes@, ir.edges@, x@, true);
    }
    let m = depth_over_exec(ir, &kids, 0, visited, fuel - 1);
    1 + m
}

fn depth_over_exec(ir: &PipelineIR, kids: &Vec<usize>, k: usize, visited: &mut Vec<String>, fuel: u64) -> (d: u128)
    requires
        k <= kids@.len(),
        forall|i: int| 0 <= i < kids@.len() ==> #[trigger] kids@[i] < ir.nodes@.len(),
    ensures
        d == depth_over(*ir, kids@, k as int, id_set(old(visited)@), fuel as nat).0,
        id_set(final(visited)@) == depth_over(*ir, kids@, k as int, id_set(old(visited)@), fuel as nat).1,
        d <= fuel + 1,
    decreases fuel, 1int, kids@.len() - k,
{
    if k >= kids.len() {
        return 0;
    }
    let a = depth_exec(ir, ir.nodes[kids[k]].id.as_str(), visited, fuel);
    let b = depth_over_exec(ir, kids, k + 1, visited, fuel);
    if a >= b {
        a
    } else {
        b
    }
}

/// The pipeline's depth (see [`pipeline_depth`]).
pub fn calc_depth(ir: &PipelineIR) -> (d: u128)
    ensures
        d == pipeline_depth(*ir),
        d <= ir.nodes@.len() + 1,
{
    let src = class_positions(&ir.nodes, NodeClass::Source);
    let n = ir.nodes.len();
    if src.len() == 0 {
        return n as u128;
    }
    let mut best: u128 = 0;
    let mut i: usize = 0;
    while i < src.len()
        invariant
            i <= src@.len(),
            n == ir.nodes@.len(),
            forall|k: int| 0 <= k < src@.len() ==> #[trigger] src@[k] < ir.nodes@.len(),
            best == source_depths_max(*ir, src@.take(i as int)),
            best <= n + 1,
        decreases src@.len() - i,
    {
        proof {
            assert(src@.take(i + 1).drop_last() =~= src@.take(i as int));
            assert(src@.take(i + 1).last() == src@[i as int]);
        }
        let mut visited: Vec<String> = Vec::new();
        proof {
            assert(id_set(visited@) =~= Set::<Seq<char>>::empty());
        }
        let d = depth_exec(ir, ir.nodes[src[i]].id.as_str(), &mut visited, n as u64);
        if d > best {
            best = d;
        }
        i = i + 1;
    }
    proof {
        assert(src@.take(src@.len() as int) =~= src@);
    }
    best
}

// ---------------------------------------------------------------------------
// Fan-in, fan-out, complexity
// ---------------------------------------------------------------------------

/// The largest number of edges entering (or, `forward`, leaving) any node;
/// 0 without nodes.
pub open spec fn max_degree(nodes: Seq<TransformNode>, edges: Seq<Edge>, forward: bool) -> nat
    decreases nodes.len(),
{
    if nodes.len() == 0 {
        0
    } else {
        max_nat(max_degree(nodes.drop_last(), edges, forward), degree(edges, nodes.last().id@, forward))
    }
}

fn max_fan(ir: &PipelineIR, forward: bool) -> (r: usize)
    ensures
        r == max_degree(ir.nodes@, ir.edges@, forward),
        r <= ir.edges@.len(),
{
    let mut best: usize = 0;
    let mut i: usize = 0;
    while i < ir.nodes.len()
        invariant
            i <= ir.nodes@.len(),
            best == max_degree(ir.nodes@.take(i as int), ir.edges@, forward),
            best <= ir.edges@.len(),
        decreases ir.nodes@.len() - i,
    {
        proof {
            assert(ir.nodes@.take(i + 1).drop_last() =~= ir.nodes@.take(i as int));
            assert(ir.nodes@.take(i + 1).last() == ir.nodes@[i as int]);
        }
        let d = edge_degree(&ir.edges, ir.nodes[i].id.as_str(), forward);
        if d > best {
            best = d;
        }
        i = i + 1;
    }
    proof {
        assert(ir.nodes@.take(ir.nodes@.len() as int) =~= ir.nodes@);
    }
    best
}

/// The complexity score in thousandths:
/// `(nodes + edges + 1.5 depth + 0.5 fan_in + 0.5 fan_out) / (nodes + 1) * 100`,
/// rounded down, at most `u64::MAX`.
pub open spec fn complexity_milli(n: nat, e: nat, d: nat, fi: nat, fo: nat) -> nat {
    let v = 50000 * (2 * n + 2 * e + 3 * d + fi + fo) / (n + 1);
    if v <= u64::MAX {
        v
    } else {
        u64::MAX as nat
    }
}

fn complexity(n: usize, e: usize, d: u128, fi: usize, fo: usize) -> (r: u64)
    requires
        d <= n + 1,
    ensures
        r == complexity_milli(n as nat, e as nat, d as nat, fi as nat, fo as nat),
{
    let s: u128 = 2 * (n as u128) + 2 * (e as u128) + 3 * d + fi as u128 + fo as u128;
    assert(50000 * s <= 50000 * 0x1_0000_0000_0000_0000_0000u128) by (nonlinear_arith)
        requires
            s <= 0x1_0000_0000_0000_0000_0000u128,
    ;
    let v: u128 = 50000 * s / (n as u128 + 1);
    if v <= u64::MAX as u128 {
        v as u64
    } else {
        u64::MAX
    }
}

// ---------------------------------------------------------------------------
// Fusion
// ---------------------------------------------------------------------------

/// One of the nodes at `pos` is a ParDo.
pub open spec fn has_pardo_at(ir: PipelineIR, pos: Seq<usize>) -> bool {
    exists|k: int| 0 <= k < pos.len() && (#[trigger] ir.nodes@[pos[k] as int]).node_type is ParDo
}

/// A ParDo with exactly one outgoing edge and a ParDo downstream.
pub open spec fn fusable(ir: PipelineIR, n: TransformNode) -> bool {
    &&& n.node_type is ParDo
    &&& degree(ir.edges@, n.id@, true) == 1
    &&& has_pardo_at(ir, downstream(ir, n.id@))
}

/// Names of the fusable nodes among `nodes`, in order.
pub open spec fn fusion_names(ir: PipelineIR, nodes: Seq<TransformNode>) -> Seq<Seq<char>>
    decreases nodes.len(),
{
    if nodes.len() == 0 {
        Seq::empty()
    } else {
        let r = fusion_names(ir, nodes.drop_last());
        if fusable(ir, nodes.last()) {
            r.push(nodes.last().name@)
        } else {
            r
        }
    }
}

fn pardo_among(ir: &PipelineIR, pos: &Vec<usize>) -> (r: bool)
    requires
        forall|k: int| 0 <= k < pos@.len() ==> #[trigger] pos@[k] < ir.nodes@.len(),
    ensures
        r == has_pardo_at(*ir, pos@),
{
    let mut k: usize = 0;
    while k < pos.len()
        invariant
            k <= pos@.len(),
            forall|j: int| 0 <= j < pos@.len() ==> #[trigger] pos@[j] < ir.nodes@.len(),
            forall|j: int| 0 <= j < k ==> !((#[trigger] ir.nodes@[pos@[j] as int]).node_type is ParDo),
        decreases pos@.len() - k,
    {
        if let TransformType::ParDo { .. } = &ir.nodes[pos[k]].node_type {
            assert(ir.nodes@[pos@[k as int] as int].node_type is ParDo);
            return true;
        }
        k = k + 1;
    }
    false
}

fn fusion_list(ir: &PipelineIR) -> (r: Vec<String>)
    ensures
        texts(r@) == fusion_names(*ir, ir.nodes@),
{
    let mut r: Vec<String> = Vec::new();
    let mut i: usize = 0;
    proof {
        assert(texts(r@) =~= Seq::<Seq<char>>::empty());
    }
    while i < ir.nodes.len()
        invariant
            i <= ir.nodes@.len(),
            texts(r@) == fusion_names(*ir, ir.nodes@.take(i as int)),
        decreases ir.nodes@.len() - i,
    {
        proof {
            assert(ir.nodes@.take(i + 1).drop_last() =~= ir.nodes@.take(i as int));
            assert(ir.nodes@.take(i + 1).last() == ir.nodes@[i as int]);
        }
        let node = &ir.nodes[i];
        if let TransformType::ParDo { .. } = &node.node_type {
            if edge_degree(&ir.edges, node.id.as_str(), true) == 1 {
                let down = linked_positions(ir, node.id.as_str(), true);
                let _n = ir.nodes.len();
                proof {
                    lemma_linked(ir.nodes@, ir.edges@, node.id@, true);
                }
                if pardo_among(ir, &down) {
                    let ghost old_r = r@;
                    r.push(node.name.clone());
                    proof {
                        assert(texts(r@) =~= texts(old_r).push(node.name@));
                    }
                }
            }
        }
        i = i + 1;
    }
    proof {
        assert(ir.nodes@.take(ir.nodes@.len() as int) =~= ir.nodes@);
    }
    r
}

// ---------------------------------------------------------------------------
// The analyzer
// ---------------------------------------------------------------------------

pub const CYCLE_TITLE: &'static str = "Pipeline DAG contains cycles";
pub const CYCLE_DESC: &'static str = "Beam pipelines must be directed acyclic graphs (DAGs). A cycle was detected in the pipeline topology.";
pub const CYCLE_REC: &'static str = "Review pipeline construction and remove circular dependencies.";
pub const DEPTH_TITLE_A: &'static str = "Pipeline depth is very high (";
pub const DEPTH_TITLE_B: &'static str = ")";
pub const DEPTH_DESC: &'static str = "Deep pipelines have more stages and higher latency. Consider breaking into multiple jobs.";
pub const DEPTH_REC: &'static str = "Consider splitting this pipeline into multiple independent jobs for better parallelism.";
pub const FUSION_TITLE_A: &'static str = "Found ";
pub const FUSION_TITLE_B: &'static str = " fusion opportunities";
pub const FUSION_DESC: &'static str = "Multiple ParDo operations can potentially be fused into a single transform for better performance.";
pub const FUSION_REC: &'static str = "Consider combining light-weight ParDo operations to reduce overhead.";
pub const SUMMARY_A: &'static str = "Pipeline has ";
pub const SUMMARY_B: &'static str = " nodes, ";
pub const SUMMARY_C: &'static str = " edges, complexity score ";
pub const SUMMARY_D: &'static str = ", depth ";

/// Depth beyond which a pipeline is reported as too deep.
pub const MAX_DEPTH: u128 = 20;

/// Checks the pipeline's graph: cycles, depth, fan-in/out and fusion.
pub struct GraphAnalyzer;

pub open spec fn cycle_finding() -> FindingView {
    FindingView {
        id: "GRAPH_CYCLE"@,
        severity: RiskSeverity::Critical,
        finding_type: FindingType::ConfigurationIssue,
        title: CYCLE_TITLE@,
        description: CYCLE_DESC@,
        affected_nodes: Seq::empty(),
        recommendation: Some(CYCLE_REC@),
        estimated_impact: None,
        confidence: 950,
    }
}

pub open spec fn depth_finding(d: nat) -> FindingView {
    FindingView {
        id: "GRAPH_DEPTH_HIGH"@,
        severity: RiskSeverity::Medium,
        finding_type: FindingType::PerformanceRisk,
        title: DEPTH_TITLE_A@ + decimal(d) + DEPTH_TITLE_B@,
        description: DEPTH_DESC@,
        affected_nodes: Seq::empty(),
        recommendation: Some(DEPTH_REC@),
        estimated_impact: Some(impact(Some(1500), None, None)),
        confidence: 750,
    }
}

pub open spec fn fusion_finding(names: Seq<Seq<char>>) -> FindingView {
    FindingView {
        id: "GRAPH_FUSION_OPPORTUNITY"@,
        severity: RiskSeverity::Low,
        finding_type: FindingType::PerformanceRisk,
        title: FUSION_TITLE_A@ + decimal(names.len()) + FUSION_TITLE_B@,
        description: FUSION_DESC@,
        affected_nodes: names,
        recommendation: Some(FUSION_REC@),
        estimated_impact: Some(impact(Some(850), None, None)),
        confidence: 700,
    }
}

/// The graph findings: a cycle, excessive depth, fusion opportunities.
pub open spec fn graph_findings(ir: PipelineIR) -> Seq<FindingView> {
    let d = pipeline_depth(ir);
    let names = fusion_names(ir, ir.nodes@);
    let s0 = if has_cycle(ir) {
        seq![cycle_finding()]
    } else {
        Seq::empty()
    };
    let s1 = if d > MAX_DEPTH {
        s0.push(depth_finding(d))
    } else {
        s0
    };
    if names.len() > 0 {
        s1.push(fusion_finding(names))
    } else {
        s1
    }
}

/// The complexity score of a pipeline, in thousandths.
pub open spec fn pipeline_complexity(ir: PipelineIR) -> nat {
    complexity_milli(
        ir.nodes@.len(),
        ir.edges@.len(),
        pipeline_depth(ir),
        max_degree(ir.nodes@, ir.edges@, false),
        max_degree(ir.nodes@, ir.edges@, true),
    )
}

/// What [`GraphAnalyzer::analyze`] reports for a pipeline.
pub open spec fn graph_result(ir: PipelineIR) -> AnalysisResultView {
    let n = ir.nodes@.len();
    let e = ir.edges@.len();
    let d = pipeline_depth(ir);
    let c = pipeline_complexity(ir);
    AnalysisResultView {
        analyzer_name: "GraphAnalyzer"@,
        version: "0.1.0"@,
        findings: graph_findings(ir),
        metrics: seq![
            ("pipeline_depth"@, count_milli(d)),
            ("max_fan_in"@, count_milli(max_degree(ir.nodes@, ir.edges@, false))),
            ("max_fan_out"@, count_milli(max_degree(ir.nodes@, ir.edges@, true))),
            ("complexity_score"@, clamp_i64(c)),
            ("node_count"@, count_milli(n)),
            ("edge_count"@, count_milli(e)),
        ],
        summary: SUMMARY_A@ + decimal(n) + SUMMARY_B@ + decimal(e) + SUMMARY_C@ + fixed(c, 1)
            + SUMMARY_D@ + decimal(d),
        confidence: 900,
    }
}

fn count_value_wide(n: u128) -> (r: i64)
    ensures
        r == count_milli(n as nat),
{
    if n <= 9_223_372_036_854_775u128 {
        (n * 1000) as i64
    } else {
        i64::MAX
    }
}

impl GraphAnalyzer {
    pub fn name(&self) -> (r: &'static str)
        ensures
            r@ == "GraphAnalyzer"@,
    {
        "GraphAnalyzer"
    }

    pub fn version(&self) -> (r: &'static str)
        ensures
            r@ == "0.1.0"@,
    {
        "0.1.0"
    }

    /// Runs first among the analyzers.
    pub fn priority(&self) -> (r: u32)
        ensures
            r == 1,
    {
        1
    }

    /// Whether the pipeline's graph contains a directed cycle.
    pub fn has_cycle(&self, ir: &PipelineIR) -> (r: bool)
        ensures
            r == has_cycle(*ir),
    {
        detect_cycle(ir)
    }

    /// Reports the graph structure of a pipeline.
    pub fn analyze(&self, ctx: &AnalysisContext) -> (r: AnalysisResult)
        ensures
            r@ == graph_result(ctx.pipeline_ir),
    {
        let ir = &ctx.pipeline_ir;
        let n = ir.nodes.len();
        let e = ir.edges.len();
        let mut findings: Vec<Finding> = Vec::new();
        proof {
            assert(finding_views(findings@) =~= Seq::<FindingView>::empty());
        }
        if detect_cycle(ir) {
            push_finding(
                &mut findings,
                fixed_finding(
                    "GRAPH_CYCLE",
                    RiskSeverity::Critical,
                    FindingType::ConfigurationIssue,
                    CYCLE_TITLE,
                    CYCLE_DESC,
                    no_nodes(),
                    Some(CYCLE_REC),
                    None,
                    950,
                ),
            );
        }
        let d = calc_depth(ir);
        let fan_in = max_fan(ir, false);
        let fan_out = max_fan(ir, true);
        let c = complexity(n, e, d, fan_in, fan_out);
        let mut metrics: Vec<Metric> = Vec::new();
        push_metric(&mut metrics, "pipeline_depth", count_value_wide(d));
        push_metric(&mut metrics, "max_fan_in", count_value_wide(fan_in as u128));
        push_metric(&mut metrics, "max_fan_out", count_value_wide(fan_out as u128));
        push_metric(&mut metrics, "complexity_score", crate::analyzer::clamp_value(c));
        push_metric(&mut metrics, "node_count", count_value_wide(n as u128));
        push_metric(&mut metrics, "edge_count", count_value_wide(e as u128));
        if d > MAX_DEPTH {
            let mut t = String::from_str(DEPTH_TITLE_A);
            let ds = decimal_text_wide(d);
            t.append(ds.as_str());
            t.append(DEPTH_TITLE_B);
            push_finding(
                &mut findings,
                make_finding(
                    "GRAPH_DEPTH_HIGH",
                    RiskSeverity::Medium,
                    FindingType::PerformanceRisk,
                    t,
                    String::from_str(DEPTH_DESC),
                    no_nodes(),
                    Some(DEPTH_REC),
                    Some(
                        Impact {
                            latency_multiplier: Some(1500),
                            cost_delta_monthly: None,
                            affected_records_percent: None,
                        },
                    ),
                    750,
                ),
            );
        }
        let names = fusion_list(ir);
        let nn = names.len();
        if nn > 0 {
            let mut t = String::from_str(FUSION_TITLE_A);
            let ks = decimal_text(nn as u64);
            t.append(ks.as_str());
            t.append(FUSION_TITLE_B);
            push_finding(
                &mut findings,
                make_finding(
                    "GRAPH_FUSION_OPPORTUNITY",
                    RiskSeverity::Low,
                    FindingType::PerformanceRisk,
                    t,
                    String::from_str(FUSION_DESC),
                    names,
                    Some(FUSION_REC),
                    Some(
                        Impact {
                            latency_multiplier: Some(850),
                            cost_delta_monthly: None,
                            affected_records_percent: None,
                        },
                    ),
                    700,
                ),
            );
        }
        let mut summary = String::from_str(SUMMARY_A);
        let s1 = decimal_text(n as u64);
        summary.append(s1.as_str());
        summary.append(SUMMARY_B);
        let s2 = decimal_text(e as u64);
        summary.append(s2.as_str());
        summary.append(SUMMARY_C);
        let s3 = fixed_text(c, 1);
        summary.append(s3.as_str());
        summary.append(SUMMARY_D);
        let s4 = decimal_text_wide(d);
        summary.append(s4.as_str());
        proof {
            let spec = graph_result(*ir);
            assert(finding_views(findings@) =~= spec.findings);
            assert(metric_views(metrics@) =~= spec.metrics);
            assert(summary@ =~= spec.summary);
        }
        make_result(self.name(), self.version(), findings, metrics, summary, 900)
    }
}

/// The graph analysis reports a cycle exactly when the graph has one, and
/// then as its first, critical finding.
pub proof fn lemma_cycle_reported_iff(ir: PipelineIR)
    ensures
        has_cycle(ir) <==> (exists|k: int|
            0 <= k < graph_result(ir).findings.len() && (#[trigger] graph_result(ir).findings[k]).id
                == "GRAPH_CYCLE"@),
        has_cycle(ir) ==> graph_result(ir).findings[0] == cycle_finding() && cycle_finding().severity
            == RiskSeverity::Critical,
{
    reveal_strlit("GRAPH_CYCLE");
    reveal_strlit("GRAPH_DEPTH_HIGH");
    reveal_strlit("GRAPH_FUSION_OPPORTUNITY");
    let fs = graph_result(ir).findings;
    assert("GRAPH_CYCLE"@.len() != "GRAPH_DEPTH_HIGH"@.len());
    assert("GRAPH_CYCLE"@.len() != "GRAPH_FUSION_OPPORTUNITY"@.len());
    if has_cycle(ir) {
        assert(fs[0].id == "GRAPH_CYCLE"@);
    }
    if exists|k: int| 0 <= k < fs.len() && (#[trigger] fs[k]).id == "GRAPH_CYCLE"@ {
        let k = choose|k: int| 0 <= k < fs.len() && (#[trigger] fs[k]).id == "GRAPH_CYCLE"@;
        if !has_cycle(ir) {
            assert(fs[k].id == "GRAPH_DEPTH_HIGH"@ || fs[k].id == "GRAPH_FUSION_OPPORTUNITY"@);
        }
    }
}

} // verus!
