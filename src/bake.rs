//! Baking: the scene graph and the chosen evaluation objects become a
//! detached `FlatScene` whose transforms are listed parents first.
use crate::evaluationobjects::{EvaluationObjects, EvaluationObjectsModel};
use crate::flat::FlatScene;
use crate::graph::{SceneGraph, SceneGraphModel};
use crate::hierarchy::{
    graph_add_edge, graph_add_node, graph_edges, graph_node_count, graph_toposort,
    graph_with_capacity, is_graph_topo_order,
};
use crate::node::{AttrCameraIds, AttrMarkerIds, AttrTransformIds, FilmFit, NodeId, RotateOrder};
use vstd::prelude::*;
use vstd::set_lib::{lemma_len_subset, lemma_int_range, set_int_range};

verus! {

/// `h` lies upstream of (is, or is an ancestor of) one of `targets`.
pub open spec fn in_upstream_closure(sg: SceneGraphModel, targets: Seq<nat>, h: nat) -> bool {
    exists|i: int| 0 <= i < targets.len() && sg.is_upstream_of(h, #[trigger] targets[i])
}

/// Every node upstream of `h` lies in the hierarchy.
proof fn lemma_ancestor_in_range(sg: SceneGraphModel, h: nat, k: nat)
    requires
        sg.wf(),
        h < sg.nodes.len(),
    ensures
        sg.ancestor_at(h, k) matches Some(a) ==> a < sg.nodes.len(),
    decreases k,
{
    if k > 0 {
        if let Some(p) = sg.parent(h) {
            assert(sg.nodes[h as int].parent matches Some(q) && q < sg.nodes.len());
            lemma_ancestor_in_range(sg, p, (k - 1) as nat);
        }
    }
}

/// One more step up from the `k`-th ancestor is the parent of that ancestor.
proof fn lemma_ancestor_step(sg: SceneGraphModel, h: nat, k: nat, a: nat)
    requires
        sg.wf(),
        h < sg.nodes.len(),
        sg.ancestor_at(h, k) == Some(a),
        a < sg.nodes.len(),
    ensures
        sg.ancestor_at(h, k + 1) == sg.parent(a),
    decreases k,
{
    if k > 0 {
        assert(sg.nodes[h as int].parent matches Some(q) && q < sg.nodes.len());
        match sg.parent(h) {
            Some(p) => {
                lemma_ancestor_step(sg, p, (k - 1) as nat, a);
                assert(sg.ancestor_at(h, k + 1) == sg.ancestor_at(p, k));
            },
            None => {},
        }
    } else if let Some(p) = sg.parent(h) {
        assert(sg.ancestor_at(p, 0) == Some(p));
    }
}

/// Marks closed under "parent of" hold every ancestor of a marked node.
proof fn lemma_marks_hold_ancestors(sg: SceneGraphModel, marks: Seq<bool>, h: nat, k: nat)
    requires
        sg.wf(),
        marks.len() == sg.nodes.len(),
        h < sg.nodes.len(),
        marks[h as int],
        forall|x: int|
            0 <= x < marks.len() && #[trigger] marks[x] ==> (sg.parent(x as nat) matches Some(p)
                ==> marks[p as int]),
    ensures
        sg.ancestor_at(h, k) matches Some(a) ==> marks[a as int],
    decreases k,
{
    if k > 0 {
        if let Some(p) = sg.parent(h) {
            assert(sg.nodes[h as int].parent matches Some(q) && q < sg.nodes.len());
            lemma_marks_hold_ancestors(sg, marks, p, (k - 1) as nat);
        }
    }
}

/// Marks every hierarchy node upstream of one of `targets`: each target
/// and all of its ancestors. A walk stops at the first node already marked,
/// so each node is visited once even where the hierarchy has a cycle.
pub fn upstream_node_indices_set(sg: &SceneGraph, targets: &Vec<usize>) -> (marks: Vec<bool>)
    requires
        sg@.wf(),
        forall|i: int| 0 <= i < targets.len() ==> #[trigger] targets[i] < sg@.nodes.len(),
    ensures
        marks.len() == sg@.nodes.len(),
        forall|h: int|
            0 <= h < marks.len() ==> (#[trigger] marks[h] <==> in_upstream_closure(
                sg@,
                targets@.map_values(|t: usize| t as nat),
                h as nat,
            )),
        forall|h: int|
            0 <= h < marks.len() && #[trigger] marks[h] ==> (sg@.parent(h as nat) matches Some(p)
                ==> marks[p as int]),
{
    let ghost g = sg@;
    let ghost ts = targets@.map_values(|t: usize| t as nat);
    let n = sg.hierarchy_len();
    let mut marks: Vec<bool> = Vec::new();
    let mut i: usize = 0;
    while i < n
        invariant
            i <= n,
            n == g.nodes.len(),
            marks.len() == i,
            forall|h: int| 0 <= h < i ==> !(#[trigger] marks[h]),
        decreases n - i,
    {
        marks.push(false);
        i += 1;
    }
    let mut t: usize = 0;
    while t < targets.len()
        invariant
            g == sg@,
            g.wf(),
            n == g.nodes.len(),
            ts == targets@.map_values(|t: usize| t as nat),
            forall|i: int| 0 <= i < targets.len() ==> #[trigger] targets[i] < n,
            t <= targets.len(),
            marks.len() == n,
            forall|x: int|
                0 <= x < n && #[trigger] marks[x] ==> (g.parent(x as nat) matches Some(p)
                    ==> marks[p as int]),
            forall|x: int|
                0 <= x < n && #[trigger] marks[x] ==> exists|i: int|
                    0 <= i < t && g.is_upstream_of(x as nat, #[trigger] ts[i]),
            forall|i: int| 0 <= i < t ==> marks[#[trigger] targets[i] as int],
        decreases targets.len() - t,
    {
        let start = targets[t];
        let mut cur = start;
        let ghost mut k: nat = 0;
        let ghost seen = Set::new(|x: int| 0 <= x < n && marks@[x]);
        proof {
            lemma_int_range(0, n as int);
            lemma_len_subset(seen, set_int_range(0, n as int));
        }
        loop
            invariant
                g == sg@,
                g.wf(),
                n == g.nodes.len(),
                ts == targets@.map_values(|t: usize| t as nat),
                forall|i: int| 0 <= i < targets.len() ==> #[trigger] targets[i] < n,
                t < targets.len(),
                start == targets[t as int],
                cur < n,
                marks.len() == n,
                g.ancestor_at(start as nat, k) == Some(cur as nat),
                marks[start as int] || cur == start,
                seen == Set::new(|x: int| 0 <= x < n && marks@[x]),
                seen.finite(),
                seen.len() <= n,
                forall|x: int|
                    0 <= x < n && #[trigger] marks[x] ==> (g.parent(x as nat) matches Some(p)
                        ==> (marks[p as int] || p == cur)),
                forall|x: int|
                    0 <= x < n && #[trigger] marks[x] ==> (exists|i: int|
                        0 <= i < t && g.is_upstream_of(x as nat, #[trigger] ts[i])) || g.is_upstream_of(
                        x as nat,
                        start as nat,
                    ),
                forall|i: int| 0 <= i < t ==> marks[#[trigger] targets[i] as int],
            ensures
                marks.len() == n,
                marks[start as int],
                forall|x: int|
                    0 <= x < n && #[trigger] marks[x] ==> (g.parent(x as nat) matches Some(p)
                        ==> marks[p as int]),
                forall|x: int|
                    0 <= x < n && #[trigger] marks[x] ==> (exists|i: int|
                        0 <= i < t && g.is_upstream_of(x as nat, #[trigger] ts[i])) || g.is_upstream_of(
                        x as nat,
                        start as nat,
                    ),
                forall|i: int| 0 <= i < t ==> marks[#[trigger] targets[i] as int],
            decreases n - seen.len(),
        {
            if marks[cur] {
                break;
            }
            marks.set(cur, true);
            proof {
                let seen2 = Set::new(|x: int| 0 <= x < n && marks@[x]);
                assert(seen2 =~= seen.insert(cur as int));
                seen = seen2;
                lemma_int_range(0, n as int);
                lemma_len_subset(seen, set_int_range(0, n as int));
            }
            let node = sg.hierarchy_node(cur);
            proof {
                lemma_ancestor_step(g, start as nat, k, cur as nat);
            }
            match node.parent {
                None => {
                    break;
                },
                Some(p) => {
                    cur = p;
                    proof {
                        k = k + 1;
                    }
                },
            }
        }
        proof {
            assert(ts[t as int] == start as nat);
            assert forall|x: int|
                0 <= x < n && #[trigger] marks[x] implies exists|i: int|
                0 <= i < t + 1 && g.is_upstream_of(x as nat, #[trigger] ts[i]) by {
                if !(exists|i: int| 0 <= i < t && g.is_upstream_of(x as nat, #[trigger] ts[i])) {
                    assert(g.is_upstream_of(x as nat, ts[t as int]));
                }
            }
        }
        t += 1;
    }
    proof {
        assert forall|h: int| 0 <= h < marks.len() implies (#[trigger] marks[h]
            <==> in_upstream_closure(g, ts, h as nat)) by {
            if in_upstream_closure(g, ts, h as nat) {
                let i = choose|i: int| 0 <= i < ts.len() && g.is_upstream_of(h as nat, #[trigger] ts[i]);
                let kk = choose|kk: nat| g.ancestor_at(ts[i], kk) == Some(h as nat);
                assert(marks[targets[i] as int]);
                lemma_marks_hold_ancestors(g, marks@, ts[i], kk);
            }
        }
    }
    marks
}

/// The same numbers as naturals.
pub open spec fn as_nats(v: Seq<usize>) -> Seq<nat> {
    v.map_values(|x: usize| x as nat)
}

/// Sorts the whole hierarchy topologically through petgraph: `None` exactly
/// when no order puts every parent before its children.
fn sort_hierarchy(sg: &SceneGraph) -> (r: Option<Vec<usize>>)
    requires
        sg@.wf(),
    ensures
        r is None <==> !sg@.has_topo_order(),
        r matches Some(v) ==> sg@.is_topo_order(as_nats(v@)),
{
    let ghost m = sg@;
    let n = sg.hierarchy_len();
    let mut g = graph_with_capacity(n, n);
    let mut h: usize = 0;
    while h < n
        invariant
            h <= n,
            graph_node_count(g) == h,
            graph_edges(g) == Seq::<(nat, nat)>::empty(),
        decreases n - h,
    {
        graph_add_node(&mut g);
        h += 1;
    }
    let mut h: usize = 0;
    while h < n
        invariant
            m == sg@,
            m.wf(),
            n == m.nodes.len(),
            h <= n,
            graph_node_count(g) == n,
            forall|k: int|
                0 <= k < graph_edges(g).len() ==> (#[trigger] graph_edges(g)[k]).1 < h
                    && m.parent(graph_edges(g)[k].1) == Some(graph_edges(g)[k].0),
            forall|c: int|
                #![trigger m.parent(c as nat)]
                0 <= c < h ==> (m.parent(c as nat) matches Some(p) ==> exists|k: int|
                    0 <= k < graph_edges(g).len() && #[trigger] graph_edges(g)[k] == (p, c as nat)),
        decreases n - h,
    {
        let node = sg.hierarchy_node(h);
        if let Some(p) = node.parent {
            let ghost before = graph_edges(g);
            graph_add_edge(&mut g, p, h);
            proof {
                let e = graph_edges(g);
                assert(e[before.len() as int] == (p as nat, h as nat));
                assert forall|c: int|
                    #![trigger m.parent(c as nat)]
                    0 <= c < h + 1 implies (m.parent(c as nat) matches Some(q) ==> exists|k: int|
                    0 <= k < e.len() && #[trigger] e[k] == (q, c as nat)) by {
                    if c < h {
                        if let Some(q) = m.parent(c as nat) {
                            let k = choose|k: int|
                                0 <= k < before.len() && #[trigger] before[k] == (q, c as nat);
                            assert(e[k] == before[k]);
                        }
                    } else {
                        assert(e[before.len() as int] == (p as nat, h as nat));
                    }
                }
            }
        }
        h += 1;
    }
    proof {
        let e = graph_edges(g);
        assert forall|s: Seq<nat>| is_graph_topo_order(s, n as nat, e) <==> m.is_topo_order(s) by {
            if is_graph_topo_order(s, n as nat, e) {
                assert forall|i: int, j: int|
                    0 <= i < s.len() && 0 <= j < s.len() && m.parent(#[trigger] s[j]) == Some(
                        #[trigger] s[i],
                    ) implies i < j by {
                    let k = choose|k: int| 0 <= k < e.len() && #[trigger] e[k] == (s[i], s[j]);
                }
            }
        }
    }
    match graph_toposort(&g) {
        Ok(v) => {
            proof {
                assert(as_nats(v@) == v@.map_values(|x: usize| x as nat));
                assert(is_graph_topo_order(as_nats(v@), n as nat, graph_edges(g)));
                assert(m.is_topo_order(as_nats(v@)));
                assert(m.has_topo_order());
            }
            Some(v)
        },
        Err(_) => {
            proof {
                if m.has_topo_order() {
                    let s = choose|s: Seq<nat>| m.is_topo_order(s);
                    assert(is_graph_topo_order(s, n as nat, graph_edges(g)));
                }
            }
            None
        },
    }
}

/// The closure upstream of `targets` holds the parent of each of its nodes.
proof fn lemma_closure_holds_parents(sg: SceneGraphModel, targets: Seq<nat>, h: nat)
    requires
        sg.wf(),
        forall|i: int| 0 <= i < targets.len() ==> #[trigger] targets[i] < sg.nodes.len(),
        in_upstream_closure(sg, targets, h),
    ensures
        h < sg.nodes.len(),
        sg.parent(h) matches Some(p) ==> in_upstream_closure(sg, targets, p),
{
    let i = choose|i: int| 0 <= i < targets.len() && sg.is_upstream_of(h, #[trigger] targets[i]);
    let k = choose|k: nat| sg.ancestor_at(targets[i], k) == Some(h);
    lemma_ancestor_in_range(sg, targets[i], k);
    if let Some(p) = sg.parent(h) {
        lemma_ancestor_step(sg, targets[i], k, h);
        assert(sg.ancestor_at(targets[i], k + 1) == Some(p));
        assert(sg.is_upstream_of(p, targets[i]));
    }
}

/// The hierarchy nodes upstream of `targets`, parents before children:
/// a topological order of the whole hierarchy filtered down to them.
/// `None` exactly when the hierarchy has no topological order.
pub fn flatten_filter_and_sort_graph_nodes(sg: &SceneGraph, targets: &Vec<usize>) -> (r: Option<
    Vec<usize>,
>)
    requires
        sg@.wf(),
        forall|i: int| 0 <= i < targets.len() ==> #[trigger] targets[i] < sg@.nodes.len(),
    ensures
        r is None <==> !sg@.has_topo_order(),
        r matches Some(list) ==> {
            &&& list@.no_duplicates()
            &&& forall|k: int| 0 <= k < list.len() ==> #[trigger] list[k] < sg@.nodes.len()
            &&& forall|h: nat|
                h < sg@.nodes.len() ==> (#[trigger] as_nats(list@).contains(h)
                    <==> in_upstream_closure(sg@, as_nats(targets@), h))
            &&& forall|i: int, j: int|
                #![trigger list[i], list[j]]
                0 <= i < list.len() && 0 <= j < list.len() && sg@.parent(list[j] as nat) == Some(
                    list[i] as nat,
                ) ==> i < j
            &&& exists|s: Seq<nat>|
                sg@.is_topo_order(s) && as_nats(list@) == s.filter(
                    |h: nat| in_upstream_closure(sg@, as_nats(targets@), h),
                )
        },
{
    let ghost m = sg@;
    let ghost ts = as_nats(targets@);
    let marks = upstream_node_indices_set(sg, targets);
    assert(ts == targets@.map_values(|t: usize| t as nat));
    let order = match sort_hierarchy(sg) {
        Some(order) => order,
        None => return None,
    };
    let ghost s = as_nats(order@);
    let ghost pred = |h: nat| in_upstream_closure(m, ts, h);
    let mut list: Vec<usize> = Vec::new();
    proof {
        assert(as_nats(list@) =~= s.take(0).filter(pred)) by {
            reveal(Seq::filter);
            assert(s.take(0) =~= Seq::<nat>::empty());
        }
    }
    let ghost mut pos: Seq<int> = Seq::empty();
    let mut i: usize = 0;
    while i < order.len()
        invariant
            m == sg@,
            m.wf(),
            m.is_topo_order(s),
            s == as_nats(order@),
            marks.len() == m.nodes.len(),
            forall|h: int|
                0 <= h < marks.len() ==> (#[trigger] marks[h] <==> in_upstream_closure(
                    m,
                    ts,
                    h as nat,
                )),
            i <= order.len(),
            pos.len() == list.len(),
            forall|k: int|
                0 <= k < list.len() ==> 0 <= #[trigger] pos[k] < i && s[pos[k]] == list[k] as nat
                    && marks[list[k] as int],
            forall|a: int, b: int| 0 <= a < b < list.len() ==> #[trigger] pos[a] < #[trigger] pos[b],
            forall|x: int|
                0 <= x < i && marks[#[trigger] s[x] as int] ==> exists|k: int|
                    0 <= k < list.len() && #[trigger] pos[k] == x,
            pred == (|h: nat| in_upstream_closure(m, ts, h)),
            as_nats(list@) == s.take(i as int).filter(pred),
        decreases order.len() - i,
    {
        let h = order[i];
        assert(s[i as int] == h as nat);
        let ghost old_pos = pos;
        let ghost old_list = list@;
        proof {
            let t = s.take(i as int + 1);
            assert(t.drop_last() == s.take(i as int));
            reveal(Seq::filter);
            assert(t.filter(pred) == if pred(h as nat) {
                s.take(i as int).filter(pred).push(h as nat)
            } else {
                s.take(i as int).filter(pred)
            });
            assert(marks[h as int] == pred(h as nat));
        }
        if marks[h] {
            list.push(h);
            proof {
                pos = pos.push(i as int);
                assert(pos[list.len() - 1] == i as int);
                assert(as_nats(list@) =~= as_nats(old_list).push(h as nat));
            }
        }
        proof {
            assert forall|x: int|
                0 <= x < i + 1 && marks[#[trigger] s[x] as int] implies exists|k: int|
                0 <= k < list.len() && #[trigger] pos[k] == x by {
                if x < i {
                    let k = choose|k: int| 0 <= k < old_pos.len() && #[trigger] old_pos[k] == x;
                    assert(pos[k] == old_pos[k]);
                } else {
                    assert(pos[list.len() - 1] == i as int);
                }
            }
        }
        i += 1;
    }
    proof {
        let l = list@;
        assert(s.len() == m.nodes.len());
        assert(s.take(s.len() as int) == s);
        assert(m.is_topo_order(s) && as_nats(l) == s.filter(pred));
        assert forall|a: int, b: int|
            0 <= a < l.len() && 0 <= b < l.len() && a != b implies l[a] != l[b] by {
            if l[a] == l[b] {
                assert(s[pos[a]] == s[pos[b]]);
                if a < b {
                    assert(pos[a] < pos[b]);
                } else {
                    assert(pos[b] < pos[a]);
                }
            }
        }
        assert(l.no_duplicates());
        assert forall|k: int| 0 <= k < l.len() implies #[trigger] l[k] < m.nodes.len() by {
            assert(0 <= pos[k] < s.len());
            assert(s[pos[k]] < m.nodes.len());
        }
        assert forall|h: nat| h < m.nodes.len() implies (#[trigger] as_nats(l).contains(h)
            <==> in_upstream_closure(m, ts, h)) by {
            if in_upstream_closure(m, ts, h) {
                assert(marks[h as int]);
                assert(s.contains(h));
                let x = choose|x: int| 0 <= x < s.len() && s[x] == h;
                assert(marks[s[x] as int]);
                let k = choose|k: int| 0 <= k < l.len() && #[trigger] pos[k] == x;
                assert(as_nats(l)[k] == h);
            }
            if as_nats(l).contains(h) {
                let k = choose|k: int| 0 <= k < as_nats(l).len() && as_nats(l)[k] == h;
                assert(0 <= k < list.len());
                assert(l[k] as nat == h);
                assert(0 <= pos[k] < i && s[pos[k]] == list[k] as nat && marks[list[k] as int]);
            }
        }
        assert forall|a: int, b: int|
            #![trigger l[a], l[b]]
            0 <= a < l.len() && 0 <= b < l.len() && m.parent(l[b] as nat) == Some(l[a] as nat)
                implies a < b by {
            assert(s[pos[a]] == l[a] as nat);
            assert(s[pos[b]] == l[b] as nat);
            assert(pos[a] < pos[b]);
            if b < a {
                assert(pos[b] < pos[a]);
            }
        }
    }
    Some(list)
}

/// For each node of `list`, the position in `list` of its parent, or `None`
/// for a node under the root. `list` holds the parent of each of its nodes,
/// before that node.
pub fn get_parent_index_list(sg: &SceneGraph, list: &Vec<usize>) -> (r: Vec<Option<usize>>)
    requires
        sg@.wf(),
        forall|k: int| 0 <= k < list.len() ==> #[trigger] list[k] < sg@.nodes.len(),
        forall|k: int|
            0 <= k < list.len() ==> (sg@.parent(#[trigger] list[k] as nat) matches Some(p)
                ==> as_nats(list@).contains(p)),
        forall|i: int, j: int|
            #![trigger list[i], list[j]]
            0 <= i < list.len() && 0 <= j < list.len() && sg@.parent(list[j] as nat) == Some(
                list[i] as nat,
            ) ==> i < j,
    ensures
        r.len() == list.len(),
        forall|i: int|
            0 <= i < r.len() ==> match #[trigger] r[i] {
                Some(j) => j < i && sg@.parent(list[i] as nat) == Some(list[j as int] as nat),
                None => sg@.parent(list[i] as nat) is None,
            },
{
    let mut r: Vec<Option<usize>> = Vec::new();
    let mut i: usize = 0;
    while i < list.len()
        invariant
            sg@.wf(),
            forall|k: int| 0 <= k < list.len() ==> #[trigger] list[k] < sg@.nodes.len(),
            forall|k: int|
                0 <= k < list.len() ==> (sg@.parent(#[trigger] list[k] as nat) matches Some(p)
                    ==> as_nats(list@).contains(p)),
            forall|i: int, j: int|
                #![trigger list[i], list[j]]
                0 <= i < list.len() && 0 <= j < list.len() && sg@.parent(list[j] as nat) == Some(
                    list[i] as nat,
                ) ==> i < j,
            i <= list.len(),
            r.len() == i,
            forall|x: int|
                0 <= x < i ==> match #[trigger] r[x] {
                    Some(j) => j < x && sg@.parent(list[x] as nat) == Some(list[j as int] as nat),
                    None => sg@.parent(list[x] as nat) is None,
                },
        decreases list.len() - i,
    {
        let node = sg.hierarchy_node(list[i]);
        match node.parent {
            None => r.push(None),
            Some(p) => {
                proof {
                    assert(as_nats(list@).contains(p as nat));
                    let k = choose|k: int| 0 <= k < as_nats(list@).len() && as_nats(list@)[k] == p as nat;
                    assert(list[k] == p);
                    assert(k < i);
                }
                let mut j: usize = 0;
                while j < i
                    invariant
                        i < list.len(),
                        j <= i,
                        forall|y: int| 0 <= y < j ==> list[y] != p,
                        exists|k: int| 0 <= k < i && list[k] == p,
                    ensures
                        j < i,
                        list[j as int] == p,
                    decreases i - j,
                {
                    if list[j] == p {
                        break;
                    }
                    j += 1;
                }
                r.push(Some(j));
            },
        }
        i += 1;
    }
    r
}

/// Why a bake was refused.
#[derive(Clone, Copy, Debug, PartialEq, Eq, Structural)]
pub enum BakeError {
    /// The hierarchy has a cycle.
    Cycle,
    /// An evaluated marker has no camera or no bundle, or one that is not
    /// evaluated itself.
    UnresolvedLink,
}

/// The hierarchy indices of the evaluated bundles, then of the evaluated
/// cameras: the nodes whose world matrices a bake must be able to compute.
pub open spec fn bake_targets(sg: SceneGraphModel, eval: EvaluationObjectsModel) -> Seq<nat> {
    eval.bundles.map_values(|id: NodeId| sg.slot_of(id)->Some_0) + eval.cameras.map_values(
        |id: NodeId| sg.slot_of(id)->Some_0,
    )
}

/// `i` is the first position of `x` in `ids`.
pub open spec fn is_first_index(ids: Seq<NodeId>, x: NodeId, i: int) -> bool {
    &&& 0 <= i < ids.len()
    &&& ids[i] == x
    &&& forall|j: int| 0 <= j < i ==> ids[j] != x
}

/// The `m`-th evaluated marker is linked to a camera and a bundle that are
/// evaluated too.
pub open spec fn marker_resolved(sg: SceneGraphModel, eval: EvaluationObjectsModel, m: int) -> bool {
    let mk = sg.marker_of(eval.markers[m]);
    &&& mk.camera is Some
    &&& eval.cameras.contains(NodeId::Camera(mk.camera->Some_0))
    &&& mk.bundle is Some
    &&& eval.bundles.contains(NodeId::Bundle(mk.bundle->Some_0))
}

pub open spec fn markers_resolved(sg: SceneGraphModel, eval: EvaluationObjectsModel) -> bool {
    forall|m: int| 0 <= m < eval.markers.len() ==> #[trigger] marker_resolved(sg, eval, m)
}

/// `fs` is a bake of `eval` over `sg`.
pub open spec fn is_baked(sg: SceneGraphModel, eval: EvaluationObjectsModel, fs: FlatScene) -> bool {
    let list = fs.tfm_node_indices@;
    let n = list.len();
    &&& fs.bnd_ids@ == eval.bundles
    &&& fs.cam_ids@ == eval.cameras
    &&& fs.mkr_ids@ == eval.markers
    // The transforms: the nodes upstream of the targets, each once.
    &&& list.no_duplicates()
    &&& forall|k: int| 0 <= k < n ==> #[trigger] list[k] < sg.nodes.len()
    &&& forall|h: nat|
        h < sg.nodes.len() ==> (#[trigger] as_nats(list).contains(h) <==> in_upstream_closure(
            sg,
            bake_targets(sg, eval),
            h,
        ))
    // In the order of a topological sort of the whole hierarchy.
    &&& exists|s: Seq<nat>|
        sg.is_topo_order(s) && as_nats(list) == s.filter(
            |h: nat| in_upstream_closure(sg, bake_targets(sg, eval), h),
        )
    // Parents before children.
    &&& fs.tfm_node_parent_indices.len() == n
    &&& forall|i: int|
        0 <= i < n ==> match #[trigger] fs.tfm_node_parent_indices[i] {
            Some(j) => j < i && sg.parent(list[i] as nat) == Some(list[j as int] as nat),
            None => sg.parent(list[i] as nat) is None,
        }
    // What each transform is.
    &&& fs.tfm_node_ids.len() == n
    &&& fs.tfm_attr_list.len() == n
    &&& fs.rotate_order_list.len() == n
    &&& forall|k: int|
        0 <= k < n ==> {
            &&& #[trigger] fs.tfm_node_ids[k] == sg.nodes[list[k] as int].id
            &&& fs.tfm_attr_list[k] == sg.nodes[list[k] as int].attrs
            &&& fs.rotate_order_list[k] == sg.nodes[list[k] as int].rotate_order
        }
    // The cameras.
    &&& fs.cam_attr_list.len() == eval.cameras.len()
    &&& fs.cam_film_fit_list.len() == eval.cameras.len()
    &&& fs.cam_render_res_list.len() == eval.cameras.len()
    &&& fs.cam_tfm_indices.len() == eval.cameras.len()
    &&& forall|c: int|
        0 <= c < eval.cameras.len() ==> {
            let st = sg.camera_settings_of(eval.cameras[c]);
            &&& #[trigger] fs.cam_attr_list[c] == st.attrs
            &&& fs.cam_film_fit_list[c] == st.film_fit
            &&& fs.cam_render_res_list[c] == (st.render_image_width, st.render_image_height)
            &&& fs.cam_tfm_indices[c] < n
            &&& list[fs.cam_tfm_indices[c] as int] as nat == sg.slot_of(eval.cameras[c])->Some_0
        }
    // The bundles.
    &&& fs.bnd_tfm_indices.len() == eval.bundles.len()
    &&& forall|b: int|
        0 <= b < eval.bundles.len() ==> {
            &&& #[trigger] fs.bnd_tfm_indices[b] < n
            &&& list[fs.bnd_tfm_indices[b] as int] as nat == sg.slot_of(eval.bundles[b])->Some_0
        }
    // The markers.
    &&& fs.mkr_attr_list.len() == eval.markers.len()
    &&& fs.mkr_cam_indices.len() == eval.markers.len()
    &&& fs.mkr_bnd_indices.len() == eval.markers.len()
    &&& forall|m: int|
        0 <= m < eval.markers.len() ==> {
            let mk = sg.marker_of(eval.markers[m]);
            &&& #[trigger] fs.mkr_attr_list[m] == mk.attrs
            &&& is_first_index(
                eval.cameras,
                NodeId::Camera(mk.camera->Some_0),
                fs.mkr_cam_indices[m] as int,
            )
            &&& is_first_index(
                eval.bundles,
                NodeId::Bundle(mk.bundle->Some_0),
                fs.mkr_bnd_indices[m] as int,
            )
        }
}

fn copy_ids(ids: &[NodeId]) -> (r: Vec<NodeId>)
    ensures
        r@ == ids@,
{
    let mut r: Vec<NodeId> = Vec::new();
    let mut i: usize = 0;
    while i < ids.len()
        invariant
            i <= ids@.len(),
            r@ == ids@.take(i as int),
        decreases ids@.len() - i,
    {
        r.push(ids[i]);
        i += 1;
        proof {
            assert(r@ =~= ids@.take(i as int));
        }
    }
    assert(ids@.take(i as int) =~= ids@);
    r
}

/// What baking `eval` over `sg` returns: a cycle in the hierarchy fails
/// the bake, then an unresolved marker does; otherwise the bake succeeds.
pub open spec fn bake_outcome(
    sg: SceneGraphModel,
    eval: EvaluationObjectsModel,
    r: Result<FlatScene, BakeError>,
) -> bool {
    match r {
        Ok(fs) => sg.has_topo_order() && markers_resolved(sg, eval) && is_baked(sg, eval, fs),
        Err(BakeError::Cycle) => !sg.has_topo_order(),
        Err(BakeError::UnresolvedLink) => sg.has_topo_order() && !markers_resolved(sg, eval),
    }
}

/// The first position of `x` in `v`.
fn find_position(v: &Vec<usize>, x: usize) -> (r: Option<usize>)
    ensures
        match r {
            Some(i) => i < v.len() && v[i as int] == x && forall|j: int| 0 <= j < i ==> v[j] != x,
            None => forall|j: int| 0 <= j < v.len() ==> v[j] != x,
        },
{
    let mut i: usize = 0;
    while i < v.len()
        invariant
            i <= v.len(),
            forall|j: int| 0 <= j < i ==> v[j] != x,
        decreases v.len() - i,
    {
        if v[i] == x {
            return Some(i);
        }
        i += 1;
    }
    None
}

/// The first position of `x` in `ids`.
fn find_node(ids: &[NodeId], x: NodeId) -> (r: Option<usize>)
    ensures
        match r {
            Some(i) => is_first_index(ids@, x, i as int),
            None => !ids@.contains(x),
        },
{
    let mut i: usize = 0;
    while i < ids.len()
        invariant
            i <= ids@.len(),
            forall|j: int| 0 <= j < i ==> ids@[j] != x,
        decreases ids@.len() - i,
    {
        if ids[i] == x {
            return Some(i);
        }
        i += 1;
    }
    None
}

/// The hierarchy indices of the evaluated bundles, then cameras.
fn collect_targets(sg: &SceneGraph, eval_objects: &EvaluationObjects) -> (targets: Vec<usize>)
    requires
        sg@.wf(),
        eval_objects@.refs_valid(sg@),
    ensures
        as_nats(targets@) == bake_targets(sg@, eval_objects@),
        forall|k: int| 0 <= k < targets.len() ==> #[trigger] targets[k] < sg@.nodes.len(),
{
    let ghost g = sg@;
    let ghost ev = eval_objects@;
    let bnd_nodes = eval_objects.get_bundles();
    let cam_nodes = eval_objects.get_cameras();
    let mut targets: Vec<usize> = Vec::new();
    let mut i: usize = 0;
    while i < bnd_nodes.len()
        invariant
            g == sg@,
            g.wf(),
            ev.refs_valid(g),
            bnd_nodes@ == ev.bundles,
            i <= bnd_nodes@.len(),
            targets.len() == i,
            forall|k: int|
                0 <= k < i ==> #[trigger] targets[k] as nat == g.slot_of(ev.bundles[k])->Some_0
                    && targets[k] < g.nodes.len(),
        decreases bnd_nodes@.len() - i,
    {
        assert(g.has_bundle(ev.bundles[i as int]));
        if let Some(h) = sg.slot(bnd_nodes[i]) {
            targets.push(h);
        }
        i += 1;
    }
    let mut i: usize = 0;
    while i < cam_nodes.len()
        invariant
            g == sg@,
            g.wf(),
            ev.refs_valid(g),
            cam_nodes@ == ev.cameras,
            i <= cam_nodes@.len(),
            targets.len() == ev.bundles.len() + i,
            forall|k: int|
                0 <= k < ev.bundles.len() ==> #[trigger] targets[k] as nat == g.slot_of(
                    ev.bundles[k],
                )->Some_0 && targets[k] < g.nodes.len(),
            forall|k: int|
                0 <= k < i ==> #[trigger] targets[ev.bundles.len() + k] as nat == g.slot_of(
                    ev.cameras[k],
                )->Some_0 && targets[ev.bundles.len() + k] < g.nodes.len(),
        decreases cam_nodes@.len() - i,
    {
        assert(g.has_camera(ev.cameras[i as int]));
        if let Some(h) = sg.slot(cam_nodes[i]) {
            targets.push(h);
        }
        i += 1;
    }
    proof {
        let bt = bake_targets(g, ev);
        assert forall|k: int| 0 <= k < targets.len() implies #[trigger] as_nats(targets@)[k]
            == bt[k] && targets[k] < g.nodes.len() by {
            if k >= ev.bundles.len() {
                assert(targets[ev.bundles.len() + (k - ev.bundles.len())] == targets[k]);
            }
        }
        assert(as_nats(targets@) =~= bt);
        assert forall|k: int| 0 <= k < targets.len() implies #[trigger] targets[k]
            < g.nodes.len() by {
            assert(as_nats(targets@)[k] == bt[k]);
        }
    }
    targets
}

/// The id, attribute ids and rotate order of each hierarchy node of `list`.
fn transform_tables(sg: &SceneGraph, list: &Vec<usize>) -> (r: (
    Vec<NodeId>,
    Vec<AttrTransformIds>,
    Vec<RotateOrder>,
))
    requires
        forall|x: int| 0 <= x < list.len() ==> #[trigger] list[x] < sg@.nodes.len(),
    ensures
        r.0.len() == list.len(),
        r.1.len() == list.len(),
        r.2.len() == list.len(),
        forall|x: int|
            0 <= x < list.len() ==> {
                &&& #[trigger] r.0[x] == sg@.nodes[list[x] as int].id
                &&& r.1[x] == sg@.nodes[list[x] as int].attrs
                &&& r.2[x] == sg@.nodes[list[x] as int].rotate_order
            },
{
    let mut ids: Vec<NodeId> = Vec::new();
    let mut attrs: Vec<AttrTransformIds> = Vec::new();
    let mut orders: Vec<RotateOrder> = Vec::new();
    let mut k: usize = 0;
    while k < list.len()
        invariant
            forall|x: int| 0 <= x < list.len() ==> #[trigger] list[x] < sg@.nodes.len(),
            k <= list.len(),
            ids.len() == k,
            attrs.len() == k,
            orders.len() == k,
            forall|x: int|
                0 <= x < k ==> {
                    &&& #[trigger] ids[x] == sg@.nodes[list[x] as int].id
                    &&& attrs[x] == sg@.nodes[list[x] as int].attrs
                    &&& orders[x] == sg@.nodes[list[x] as int].rotate_order
                },
        decreases list.len() - k,
    {
        let node = sg.hierarchy_node(list[k]);
        ids.push(node.id);
        attrs.push(node.attrs);
        orders.push(node.rotate_order);
        k += 1;
    }
    (ids, attrs, orders)
}

/// For each camera: its lens attribute ids, film fit, render resolution and
/// the position of its transform in `list`, which holds them all.
fn camera_tables(sg: &SceneGraph, cameras: &[NodeId], list: &Vec<usize>) -> (r: (
    Vec<AttrCameraIds>,
    Vec<FilmFit>,
    Vec<(i32, i32)>,
    Vec<usize>,
))
    requires
        sg@.wf(),
        forall|y: int| 0 <= y < cameras@.len() ==> sg@.has_camera(#[trigger] cameras@[y]),
        forall|y: int|
            0 <= y < cameras@.len() ==> as_nats(list@).contains(
                sg@.slot_of(#[trigger] cameras@[y])->Some_0,
            ),
    ensures
        r.0.len() == cameras@.len(),
        r.1.len() == cameras@.len(),
        r.2.len() == cameras@.len(),
        r.3.len() == cameras@.len(),
        forall|x: int|
            0 <= x < cameras@.len() ==> #[trigger] r.0[x] == sg@.camera_settings_of(cameras@[x]).attrs,
        forall|x: int|
            0 <= x < cameras@.len() ==> #[trigger] r.1[x] == sg@.camera_settings_of(
                cameras@[x],
            ).film_fit,
        forall|x: int|
            0 <= x < cameras@.len() ==> #[trigger] r.2[x] == (
                sg@.camera_settings_of(cameras@[x]).render_image_width,
                sg@.camera_settings_of(cameras@[x]).render_image_height,
            ),
        forall|x: int|
            0 <= x < cameras@.len() ==> #[trigger] r.3[x] < list.len() && list[r.3[x] as int] as nat
                == sg@.slot_of(cameras@[x])->Some_0,
{
    let mut attrs: Vec<AttrCameraIds> = Vec::new();
    let mut fits: Vec<FilmFit> = Vec::new();
    let mut res: Vec<(i32, i32)> = Vec::new();
    let mut tfm: Vec<usize> = Vec::new();
    let mut c: usize = 0;
    while c < cameras.len()
        invariant
            sg@.wf(),
            forall|y: int| 0 <= y < cameras@.len() ==> sg@.has_camera(#[trigger] cameras@[y]),
            forall|y: int|
                0 <= y < cameras@.len() ==> as_nats(list@).contains(
                    sg@.slot_of(#[trigger] cameras@[y])->Some_0,
                ),
            c <= cameras@.len(),
            attrs.len() == c,
            fits.len() == c,
            res.len() == c,
            tfm.len() == c,
            forall|x: int|
                0 <= x < c ==> #[trigger] attrs[x] == sg@.camera_settings_of(cameras@[x]).attrs,
            forall|x: int|
                0 <= x < c ==> #[trigger] fits[x] == sg@.camera_settings_of(cameras@[x]).film_fit,
            forall|x: int|
                0 <= x < c ==> #[trigger] res[x] == (
                    sg@.camera_settings_of(cameras@[x]).render_image_width,
                    sg@.camera_settings_of(cameras@[x]).render_image_height,
                ),
            forall|x: int|
                0 <= x < c ==> #[trigger] tfm[x] < list.len() && list[tfm[x] as int] as nat
                    == sg@.slot_of(cameras@[x])->Some_0,
        decreases cameras@.len() - c,
    {
        let id = cameras[c];
        assert(sg@.has_camera(id));
        let ci = match id {
            NodeId::Camera(ci) => ci,
            _ => 0,
        };
        let st = sg.camera_settings(ci);
        let slot = match sg.slot(id) {
            Some(h) => h,
            None => 0,
        };
        proof {
            assert(as_nats(list@).contains(slot as nat));
            let k = choose|k: int| 0 <= k < as_nats(list@).len() && as_nats(list@)[k] == slot as nat;
            assert(list[k] == slot);
        }
        let pos = match find_position(list, slot) {
            Some(p) => p,
            None => 0,
        };
        attrs.push(st.attrs);
        fits.push(st.film_fit);
        res.push((st.render_image_width, st.render_image_height));
        tfm.push(pos);
        c += 1;
    }
    (attrs, fits, res, tfm)
}

/// For each bundle, the position of its transform in `list`, which holds
/// them all.
fn bundle_tfm_indices(sg: &SceneGraph, bundles: &[NodeId], list: &Vec<usize>) -> (r: Vec<usize>)
    requires
        sg@.wf(),
        forall|b: int| 0 <= b < bundles@.len() ==> sg@.has_bundle(#[trigger] bundles@[b]),
        forall|b: int|
            0 <= b < bundles@.len() ==> as_nats(list@).contains(
                sg@.slot_of(#[trigger] bundles@[b])->Some_0,
            ),
    ensures
        r.len() == bundles@.len(),
        forall|x: int|
            0 <= x < bundles@.len() ==> {
                &&& #[trigger] r[x] < list.len()
                &&& list[r[x] as int] as nat == sg@.slot_of(bundles@[x])->Some_0
            },
{
    let mut tfm: Vec<usize> = Vec::new();
    let mut b: usize = 0;
    while b < bundles.len()
        invariant
            sg@.wf(),
            forall|b: int| 0 <= b < bundles@.len() ==> sg@.has_bundle(#[trigger] bundles@[b]),
            forall|b: int|
                0 <= b < bundles@.len() ==> as_nats(list@).contains(
                    sg@.slot_of(#[trigger] bundles@[b])->Some_0,
                ),
            b <= bundles@.len(),
            tfm.len() == b,
            forall|x: int|
                0 <= x < b ==> {
                    &&& #[trigger] tfm[x] < list.len()
                    &&& list[tfm[x] as int] as nat == sg@.slot_of(bundles@[x])->Some_0
                },
        decreases bundles@.len() - b,
    {
        let id = bundles[b];
        assert(sg@.has_bundle(id));
        let slot = match sg.slot(id) {
            Some(h) => h,
            None => 0,
        };
        proof {
            assert(as_nats(list@).contains(slot as nat));
            let k = choose|k: int| 0 <= k < as_nats(list@).len() && as_nats(list@)[k] == slot as nat;
            assert(list[k] == slot);
        }
        let pos = match find_position(list, slot) {
            Some(p) => p,
            None => 0,
        };
        tfm.push(pos);
        b += 1;
    }
    tfm
}

/// For each evaluated marker: its attribute ids and the positions of its
/// camera and bundle among the evaluated ones. `None` exactly when some
/// marker cannot be resolved.
fn marker_tables(sg: &SceneGraph, eval_objects: &EvaluationObjects) -> (r: Option<
    (Vec<AttrMarkerIds>, Vec<usize>, Vec<usize>),
>)
    requires
        sg@.wf(),
        eval_objects@.refs_valid(sg@),
    ensures
        r is None <==> !markers_resolved(sg@, eval_objects@),
        r matches Some(t) ==> {
            let ev = eval_objects@;
            &&& t.0.len() == ev.markers.len()
            &&& t.1.len() == ev.markers.len()
            &&& t.2.len() == ev.markers.len()
            &&& forall|x: int|
                0 <= x < ev.markers.len() ==> {
                    let mk = sg@.marker_of(ev.markers[x]);
                    &&& #[trigger] t.0[x] == mk.attrs
                    &&& is_first_index(ev.cameras, NodeId::Camera(mk.camera->Some_0), t.1[x] as int)
                    &&& is_first_index(ev.bundles, NodeId::Bundle(mk.bundle->Some_0), t.2[x] as int)
                }
        },
{
    let ghost g = sg@;
    let ghost ev = eval_objects@;
    let mkr_nodes = eval_objects.get_markers();
    let cam_nodes = eval_objects.get_cameras();
    let bnd_nodes = eval_objects.get_bundles();
    let mut attrs: Vec<AttrMarkerIds> = Vec::new();
    let mut cams: Vec<usize> = Vec::new();
    let mut bnds: Vec<usize> = Vec::new();
    let mut m: usize = 0;
    while m < mkr_nodes.len()
        invariant
            g == sg@,
            ev == eval_objects@,
            g.wf(),
            ev.refs_valid(g),
            mkr_nodes@ == ev.markers,
            cam_nodes@ == ev.cameras,
            bnd_nodes@ == ev.bundles,
            m <= mkr_nodes@.len(),
            attrs.len() == m,
            cams.len() == m,
            bnds.len() == m,
            forall|x: int| 0 <= x < m ==> #[trigger] marker_resolved(g, ev, x),
            forall|x: int|
                0 <= x < m ==> {
                    let mk = g.marker_of(ev.markers[x]);
                    &&& #[trigger] attrs[x] == mk.attrs
                    &&& is_first_index(ev.cameras, NodeId::Camera(mk.camera->Some_0), cams[x] as int)
                    &&& is_first_index(ev.bundles, NodeId::Bundle(mk.bundle->Some_0), bnds[x] as int)
                },
        decreases mkr_nodes@.len() - m,
    {
        assert(g.has_marker(ev.markers[m as int]));
        let mi = match mkr_nodes[m] {
            NodeId::Marker(mi) => mi,
            _ => 0,
        };
        let mk = sg.marker(mi);
        let cam_index = match mk.camera {
            Some(ci) => find_node(cam_nodes, NodeId::Camera(ci)),
            None => None,
        };
        let bnd_index = match mk.bundle {
            Some(bi) => find_node(bnd_nodes, NodeId::Bundle(bi)),
            None => None,
        };
        match (cam_index, bnd_index) {
            (Some(ci), Some(bi)) => {
                attrs.push(mk.attrs);
                cams.push(ci);
                bnds.push(bi);
                proof {
                    assert(ev.cameras[ci as int] == NodeId::Camera(mk.camera->Some_0));
                    assert(ev.bundles[bi as int] == NodeId::Bundle(mk.bundle->Some_0));
                    assert(marker_resolved(g, ev, m as int));
                }
            },
            _ => {
                proof {
                    assert(!marker_resolved(g, ev, m as int));
                }
                return None;
            },
        }
        m += 1;
    }
    Some((attrs, cams, bnds))
}

/// Bakes the scene graph down to a `FlatScene` for the chosen cameras,
/// bundles and markers. The transforms kept are exactly the evaluated
/// bundles and cameras and all their ancestors, listed parents first.
/// Fails with `Cycle` when the hierarchy has a cycle, then with
/// `UnresolvedLink` when an evaluated marker lacks an evaluated camera or
/// bundle; nothing partial is returned.
pub fn bake_scene_graph(sg: &SceneGraph, eval_objects: &EvaluationObjects) -> (r: Result<
    FlatScene,
    BakeError,
>)
    requires
        sg@.wf(),
        eval_objects@.refs_valid(sg@),
    ensures
        bake_outcome(sg@, eval_objects@, r),
{
    let ghost g = sg@;
    let ghost ev = eval_objects@;
    let targets = collect_targets(sg, eval_objects);

    // The transforms, parents first, and the position of each one's parent.
    let list = match flatten_filter_and_sort_graph_nodes(sg, &targets) {
        Some(list) => list,
        None => return Err(BakeError::Cycle),
    };
    proof {
        assert forall|k: int|
            0 <= k < list.len() implies (g.parent(#[trigger] list[k] as nat) matches Some(p)
            ==> as_nats(list@).contains(p)) by {
            let h = list[k] as nat;
            assert(as_nats(list@)[k] == h);
            assert(as_nats(list@).contains(h));
            lemma_closure_holds_parents(g, as_nats(targets@), h);
        }
    }
    let parent_indices = get_parent_index_list(sg, &list);
    let (tfm_node_ids, tfm_attr_list, rotate_order_list) = transform_tables(sg, &list);

    let bnd_nodes = eval_objects.get_bundles();
    let cam_nodes = eval_objects.get_cameras();
    let mkr_nodes = eval_objects.get_markers();
    proof {
        let ts = as_nats(targets@);
        assert forall|c: int| 0 <= c < cam_nodes@.len() implies as_nats(list@).contains(
            g.slot_of(#[trigger] cam_nodes@[c])->Some_0,
        ) by {
            let t = ev.bundles.len() + c;
            let h = ts[t];
            assert(h == g.slot_of(ev.cameras[c])->Some_0);
            assert(g.ancestor_at(h, 0) == Some(h));
            assert(g.is_upstream_of(h, ts[t]));
            assert(h < g.nodes.len());
        }
        assert forall|b: int| 0 <= b < bnd_nodes@.len() implies as_nats(list@).contains(
            g.slot_of(#[trigger] bnd_nodes@[b])->Some_0,
        ) by {
            let h = ts[b];
            assert(h == g.slot_of(ev.bundles[b])->Some_0);
            assert(g.ancestor_at(h, 0) == Some(h));
            assert(g.is_upstream_of(h, ts[b]));
            assert(h < g.nodes.len());
        }
    }
    let (cam_attr_list, cam_film_fit_list, cam_render_res_list, cam_tfm_indices) = camera_tables(
        sg,
        cam_nodes,
        &list,
    );
    let bnd_tfm_indices = bundle_tfm_indices(sg, bnd_nodes, &list);
    let (mkr_attr_list, mkr_cam_indices, mkr_bnd_indices) = match marker_tables(sg, eval_objects) {
        Some(t) => t,
        None => return Err(BakeError::UnresolvedLink),
    };

    Ok(
        FlatScene {
            bnd_ids: copy_ids(bnd_nodes),
            cam_ids: copy_ids(cam_nodes),
            mkr_ids: copy_ids(mkr_nodes),
            mkr_cam_indices,
            mkr_bnd_indices,
            tfm_attr_list,
            rotate_order_list,
            cam_attr_list,
            cam_film_fit_list,
            cam_render_res_list,
            mkr_attr_list,
            tfm_node_ids,
            tfm_node_indices: list,
            tfm_node_parent_indices: parent_indices,
            cam_tfm_indices,
            bnd_tfm_indices,
        },
    )
}

/// In a topological order each node of a parent chain comes after the
/// chain's first node.
proof fn lemma_chain_follows_start(sg: SceneGraphModel, s: Seq<nat>, c: Seq<nat>, i: int)
    requires
        sg.wf(),
        sg.is_topo_order(s),
        sg.is_cycle(c),
        0 <= i < c.len(),
    ensures
        exists|a: int, b: int|
            0 <= a < s.len() && 0 <= b < s.len() && s[a] == c[0] && s[b] == c[i] && a <= b,
    decreases i,
{
    assert(s.contains(c[0]));
    assert(s.contains(c[i]));
    if i > 0 {
        lemma_chain_follows_start(sg, s, c, i - 1);
        let (a, b) = choose|a: int, b: int|
            0 <= a < s.len() && 0 <= b < s.len() && s[a] == c[0] && s[b] == c[i - 1] && a <= b;
        let d = choose|d: int| 0 <= d < s.len() && s[d] == c[i];
        assert(sg.parent(c[i]) == Some(c[i - 1]));
        assert(b < d);
    }
}

/// A hierarchy in which a chain of parents closes on itself has no
/// topological order.
pub proof fn lemma_cycle_has_no_topo_order(sg: SceneGraphModel, c: Seq<nat>)
    requires
        sg.wf(),
        sg.is_cycle(c),
    ensures
        !sg.has_topo_order(),
{
    if sg.has_topo_order() {
        let s = choose|s: Seq<nat>| sg.is_topo_order(s);
        lemma_chain_follows_start(sg, s, c, c.len() - 1);
        let (a, b) = choose|a: int, b: int|
            0 <= a < s.len() && 0 <= b < s.len() && s[a] == c[0] && s[b] == c[c.len() - 1] && a
                <= b;
        assert(sg.parent(s[a]) == Some(s[b]));
    }
}

/// Baking a scene graph whose hierarchy holds a cycle (a chain of nodes,
/// each the parent of the next, the last the parent of the first) fails
/// with `BakeError::Cycle`, whatever is evaluated.
pub proof fn bake_rejects_cycles(
    sg: SceneGraphModel,
    eval: EvaluationObjectsModel,
    c: Seq<nat>,
    r: Result<FlatScene, BakeError>,
)
    requires
        sg.wf(),
        sg.is_cycle(c),
        bake_outcome(sg, eval, r),
    ensures
        r == Err::<FlatScene, BakeError>(BakeError::Cycle),
{
    lemma_cycle_has_no_topo_order(sg, c);
}

/// Baking an acyclic scene graph with nothing to evaluate succeeds and
/// yields a scene with no transforms, cameras, bundles or markers.
pub proof fn bake_of_nothing_is_empty(
    sg: SceneGraphModel,
    eval: EvaluationObjectsModel,
    r: Result<FlatScene, BakeError>,
)
    requires
        sg.wf(),
        sg.has_topo_order(),
        eval.cameras.len() == 0,
        eval.bundles.len() == 0,
        eval.markers.len() == 0,
        bake_outcome(sg, eval, r),
    ensures
        r matches Ok(fs) && fs.tfm_node_ids.len() == 0 && fs.cam_ids.len() == 0
            && fs.bnd_ids.len() == 0 && fs.mkr_ids.len() == 0,
{
    assert(markers_resolved(sg, eval));
    if let Ok(fs) = r {
        let list = fs.tfm_node_indices@;
        if list.len() > 0 {
            let h = list[0] as nat;
            assert(as_nats(list)[0] == h);
            assert(as_nats(list).contains(h));
            assert(bake_targets(sg, eval).len() == 0);
        }
    }
}

/// The transform `n` steps up from transform `k` of a baked scene, following
/// its parent indices; `None` once past the root.
pub open spec fn flat_ancestor_at(fs: FlatScene, k: int, n: nat) -> Option<int>
    decreases n,
{
    if n == 0 {
        Some(k)
    } else if 0 <= k < fs.tfm_node_parent_indices.len() {
        match fs.tfm_node_parent_indices[k] {
            Some(j) => flat_ancestor_at(fs, j as int, (n - 1) as nat),
            None => None,
        }
    } else {
        None
    }
}

/// Following the parent indices of a baked scene from a transform visits,
/// step for step, that node's ancestors in the scene graph, and stops at the
/// root where they do. A world matrix composed down the flat arrays is so
/// composed from the same local matrices, in the same order, as one
/// composed up the hierarchy.
pub proof fn baked_parent_chains_match(
    sg: SceneGraphModel,
    eval: EvaluationObjectsModel,
    fs: FlatScene,
    k: int,
    n: nat,
)
    requires
        sg.wf(),
        is_baked(sg, eval, fs),
        0 <= k < fs.tfm_node_indices.len(),
    ensures
        match flat_ancestor_at(fs, k, n) {
            Some(j) => 0 <= j < fs.tfm_node_indices.len() && sg.ancestor_at(
                fs.tfm_node_indices[k] as nat,
                n,
            ) == Some(fs.tfm_node_indices[j] as nat),
            None => sg.ancestor_at(fs.tfm_node_indices[k] as nat, n) is None,
        },
    decreases n,
{
    let list = fs.tfm_node_indices@;
    let h = list[k] as nat;
    assert(h < sg.nodes.len());
    if n > 0 {
        match fs.tfm_node_parent_indices[k] {
            Some(j) => {
                assert(sg.parent(h) == Some(list[j as int] as nat));
                baked_parent_chains_match(sg, eval, fs, j as int, (n - 1) as nat);
            },
            None => {
                assert(sg.parent(h) is None);
            },
        }
    }
}

} // verus!
