//! Graph-theoretic facts behind wave resolution: an acyclic, fully declared
//! graph always yields a non-empty wave, a stuck resolution exhibits a cycle
//! or an undeclared dependency, and a dependency-respecting deployment order
//! witnesses acyclicity.

use vstd::prelude::*;

use vstd::set_lib::lemma_len_subset;

use crate::config::ServiceEntry;
use crate::waves::{
    acyclic, all_deps_deployed, dep_edge, deps_of, eligible_entries, eligible_names, is_cycle,
    names_of,
};

verus! {

/// Every entry of `rem` is an entry of `g`.
pub open spec fn subgraph(rem: Seq<ServiceEntry>, g: Seq<ServiceEntry>) -> bool {
    forall|i: int| 0 <= i < rem.len() ==> g.contains(#[trigger] rem[i])
}

/// Every declared name that is not a name of a remaining entry is deployed:
/// `deployed` covers the complement of `rem` within `g`.
pub open spec fn covers_complement(
    g: Seq<ServiceEntry>,
    rem: Seq<ServiceEntry>,
    deployed: Seq<Seq<char>>,
) -> bool {
    forall|n: Seq<char>|
        names_of(g).contains(n) && !names_of(rem).contains(n) ==> deployed.contains(n)
}

/// In `order`, every dependency of the unit named `order[t]` appears
/// strictly before position `t`.
pub open spec fn topo_sorted(g: Seq<ServiceEntry>, order: Seq<Seq<char>>) -> bool {
    forall|t: int, m: Seq<char>|
        0 <= t < order.len() && #[trigger] dep_edge(g, order[t], m) ==> order.subrange(
            0,
            t,
        ).contains(m)
}

/// A unit with an empty dependency list is eligible in every wave, the
/// first one included.
pub proof fn lemma_no_deps_always_eligible(
    rem: Seq<ServiceEntry>,
    deployed: Seq<Seq<char>>,
    i: int,
)
    requires
        0 <= i < rem.len(),
        deps_of(rem[i]).len() == 0,
    ensures
        eligible_names(rem, deployed).contains(rem[i].name@),
{
    assert(all_deps_deployed(rem[i], deployed));
    Seq::lemma_filter_contains(rem, |e: ServiceEntry| all_deps_deployed(e, deployed), i);
    let ent = eligible_entries(rem, deployed);
    let t = choose|t: int| 0 <= t < ent.len() && ent[t] == rem[i];
    assert(eligible_names(rem, deployed)[t] == rem[i].name@);
}

/// A remaining entry that is eligible makes the wave non-empty.
proof fn lemma_ready_entry_gives_wave(rem: Seq<ServiceEntry>, deployed: Seq<Seq<char>>, i: int)
    requires
        0 <= i < rem.len(),
        all_deps_deployed(rem[i], deployed),
    ensures
        eligible_names(rem, deployed).len() > 0,
{
    Seq::lemma_filter_contains(rem, |e: ServiceEntry| all_deps_deployed(e, deployed), i);
    let ent = eligible_entries(rem, deployed);
    let t = choose|t: int| 0 <= t < ent.len() && ent[t] == rem[i];
    assert(eligible_names(rem, deployed).len() == ent.len());
}

/// When resolution is stuck, every remaining entry has a dependency that is
/// itself a remaining name; this returns one such dependency for `rem[i]`,
/// together with the edge that leads to it.
proof fn lemma_stuck_successor(
    g: Seq<ServiceEntry>,
    rem: Seq<ServiceEntry>,
    deployed: Seq<Seq<char>>,
    i: int,
) -> (d: Seq<char>)
    requires
        subgraph(rem, g),
        crate::waves::graph_closed(g),
        covers_complement(g, rem, deployed),
        eligible_names(rem, deployed).len() == 0,
        0 <= i < rem.len(),
    ensures
        names_of(rem).contains(d),
        dep_edge(g, rem[i].name@, d),
{
    if all_deps_deployed(rem[i], deployed) {
        lemma_ready_entry_gives_wave(rem, deployed, i);
    }
    let dd = choose|dd: int|
        0 <= dd < deps_of(rem[i]).len() && !deployed.contains(deps_of(rem[i])[dd]);
    let d = deps_of(rem[i])[dd];
    let j = choose|j: int| 0 <= j < g.len() && g[j] == rem[i];
    assert(deps_of(g[j])[dd] == d);
    assert(names_of(g).contains(d));
    assert(dep_edge(g, rem[i].name@, d)) by {
        assert(g[j].name@ == rem[i].name@ && deps_of(g[j]).contains(d));
    }
    if !names_of(rem).contains(d) {
        assert(deployed.contains(d));
    }
    d
}

/// Builds a walk of length `k` along dependency edges whose nodes are all
/// names of remaining entries, starting from `rem[0]`.
proof fn lemma_stuck_chain(
    g: Seq<ServiceEntry>,
    rem: Seq<ServiceEntry>,
    deployed: Seq<Seq<char>>,
    k: nat,
) -> (p: Seq<Seq<char>>)
    requires
        subgraph(rem, g),
        crate::waves::graph_closed(g),
        covers_complement(g, rem, deployed),
        eligible_names(rem, deployed).len() == 0,
        rem.len() > 0,
    ensures
        p.len() == k,
        forall|t: int| 0 <= t < k ==> names_of(rem).contains(#[trigger] p[t]),
        forall|t: int| 0 <= t && t + 1 < k ==> dep_edge(g, #[trigger] p[t], p[t + 1]),
    decreases k,
{
    if k == 0 {
        Seq::empty()
    } else if k == 1 {
        let p = seq![rem[0].name@];
        assert(names_of(rem)[0] == rem[0].name@);
        p
    } else {
        let p0 = lemma_stuck_chain(g, rem, deployed, (k - 1) as nat);
        let last = p0[k - 2];
        assert(names_of(rem).contains(last));
        let i = choose|i: int| 0 <= i < names_of(rem).len() && names_of(rem)[i] == last;
        assert(rem[i].name@ == last);
        let d = lemma_stuck_successor(g, rem, deployed, i);
        let p = p0.push(d);
        assert forall|t: int| 0 <= t && t + 1 < k implies dep_edge(g, #[trigger] p[t], p[t + 1]) by {
            if t + 1 < k - 1 {
                assert(p[t] == p0[t] && p[t + 1] == p0[t + 1]);
            } else {
                assert(p[t] == last && p[t + 1] == d);
            }
        }
        p
    }
}

/// A stuck resolution over a fully declared graph exhibits a dependency
/// cycle: if the remainder is non-empty, its wave is empty, and every
/// dependency name is declared, then the graph is cyclic.
pub proof fn lemma_stuck_has_cycle(
    g: Seq<ServiceEntry>,
    rem: Seq<ServiceEntry>,
    deployed: Seq<Seq<char>>,
)
    requires
        subgraph(rem, g),
        crate::waves::graph_closed(g),
        covers_complement(g, rem, deployed),
        eligible_names(rem, deployed).len() == 0,
        rem.len() > 0,
    ensures
        !acyclic(g),
{
    broadcast use vstd::seq_lib::seq_to_set_is_finite;

    let n = rem.len();
    let p = lemma_stuck_chain(g, rem, deployed, (n + 1) as nat);
    if p.no_duplicates() {
        p.unique_seq_to_set();
        names_of(rem).lemma_cardinality_of_set();
        assert(p.to_set().subset_of(names_of(rem).to_set())) by {
            assert forall|x: Seq<char>| p.to_set().contains(x) implies names_of(
                rem,
            ).to_set().contains(x) by {
                let t = choose|t: int| 0 <= t < p.len() && p[t] == x;
                assert(names_of(rem).contains(x));
            }
        }
        lemma_len_subset(p.to_set(), names_of(rem).to_set());
        assert(false);
    }
    let (i, j) = choose|i: int, j: int| 0 <= i < j < p.len() && p[i] == p[j];
    let c = p.subrange(i, j);
    let len = c.len() as int;
    assert(len == j - i >= 1);
    assert forall|k: int| 0 <= k < len - 1 implies dep_edge(g, #[trigger] c[k], c[k + 1]) by {
        assert(c[k] == p[i + k] && c[k + 1] == p[i + k + 1]);
    }
    assert(dep_edge(g, c[len - 1], c[0])) by {
        assert(c[len - 1] == p[j - 1] && c[0] == p[i]);
        assert(dep_edge(g, p[j - 1], p[j]));
        assert(p[j] == p[i]);
    }
    assert(is_cycle(g, c));
}

/// An acyclic, fully declared graph never gets stuck: while any units
/// remain, the next wave is non-empty.
pub proof fn lemma_wave_progress(
    g: Seq<ServiceEntry>,
    rem: Seq<ServiceEntry>,
    deployed: Seq<Seq<char>>,
)
    requires
        subgraph(rem, g),
        crate::waves::graph_closed(g),
        acyclic(g),
        covers_complement(g, rem, deployed),
        rem.len() > 0,
    ensures
        eligible_names(rem, deployed).len() > 0,
{
    if eligible_names(rem, deployed).len() == 0 {
        lemma_stuck_has_cycle(g, rem, deployed);
    }
}

/// The unique position of `x` in a duplicate-free `order`.
pub open spec fn pos_of(order: Seq<Seq<char>>, x: Seq<char>) -> int {
    choose|t: int| 0 <= t < order.len() && order[t] == x
}

/// Along a cycle, positions in a dependency-respecting order decrease by at
/// least one per step.
proof fn lemma_cycle_positions_descend(
    g: Seq<ServiceEntry>,
    order: Seq<Seq<char>>,
    c: Seq<Seq<char>>,
    k: int,
)
    requires
        topo_sorted(g, order),
        order.no_duplicates(),
        forall|i: int| 0 <= i < g.len() ==> order.contains(#[trigger] g[i].name@),
        is_cycle(g, c),
        0 <= k < c.len(),
    ensures
        order.contains(c[k]),
        pos_of(order, c[k]) <= pos_of(order, c[0]) - k,
    decreases k,
{
    let len = c.len() as int;
    let succ: Seq<char> = if k < len - 1 {
        c[k + 1]
    } else {
        c[0]
    };
    assert(dep_edge(g, c[k], succ));
    assert(order.contains(c[k])) by {
        let e = choose|e: int|
            0 <= e < g.len() && g[e].name@ == c[k] && deps_of(g[e]).contains(succ);
        assert(order.contains(g[e].name@));
    }
    if k > 0 {
        lemma_cycle_positions_descend(g, order, c, k - 1);
        assert(pos_of(order, c[k]) < pos_of(order, c[k - 1])) by {
            let tp = pos_of(order, c[k - 1]);
            assert(0 <= tp < order.len() && order[tp] == c[k - 1]);
            assert(dep_edge(g, c[k - 1], c[k]));
            assert(order.subrange(0, tp).contains(c[k]));
            let u = choose|u: int| 0 <= u < tp && order.subrange(0, tp)[u] == c[k];
            assert(order[u] == c[k]);
            let t = pos_of(order, c[k]);
            assert(0 <= t < order.len() && order[t] == c[k]);
            assert(t == u);
        }
    }
}

/// A duplicate-free order that covers every declared unit and respects every
/// dependency edge witnesses that the graph is acyclic.
pub proof fn lemma_topo_sorted_acyclic(g: Seq<ServiceEntry>, order: Seq<Seq<char>>)
    requires
        topo_sorted(g, order),
        order.no_duplicates(),
        forall|i: int| 0 <= i < g.len() ==> order.contains(#[trigger] g[i].name@),
    ensures
        acyclic(g),
{
    assert forall|c: Seq<Seq<char>>| !is_cycle(g, c) by {
        if is_cycle(g, c) {
            let len = c.len() as int;
            lemma_cycle_positions_descend(g, order, c, len - 1);
            let tl = pos_of(order, c[len - 1]);
            assert(0 <= tl < order.len() && order[tl] == c[len - 1]);
            assert(dep_edge(g, c[len - 1], c[0]));
            assert(order.subrange(0, tl).contains(c[0]));
            let u = choose|u: int| 0 <= u < tl && order.subrange(0, tl)[u] == c[0];
            assert(order[u] == c[0]);
            let t0 = pos_of(order, c[0]);
            assert(0 <= t0 < order.len() && order[t0] == c[0]);
            assert(t0 == u);
            assert(pos_of(order, c[0]) < pos_of(order, c[len - 1]));
            assert(false);
        }
    }
}

/// Over a graph with unique unit names, a wave never lists a name twice,
/// and every wave name is the name of a remaining entry.
pub proof fn lemma_eligible_names_unique(rem: Seq<ServiceEntry>, dep: Seq<Seq<char>>)
    requires
        crate::waves::unique_names(rem),
    ensures
        eligible_names(rem, dep).no_duplicates(),
        forall|n: Seq<char>|
            #[trigger] eligible_names(rem, dep).contains(n) ==> names_of(rem).contains(n),
    decreases rem.len(),
{
    reveal(Seq::filter);
    let w = eligible_names(rem, dep);
    if rem.len() == 0 {
    } else {
        let head = rem.drop_last();
        assert(crate::waves::unique_names(head));
        lemma_eligible_names_unique(head, dep);
        let wh = eligible_names(head, dep);
        assert forall|n: Seq<char>| #[trigger] wh.contains(n) implies names_of(rem).contains(n) by {
            assert(names_of(head).contains(n));
            let t = choose|t: int| 0 <= t < names_of(head).len() && names_of(head)[t] == n;
            assert(names_of(rem)[t] == n);
        }
        if all_deps_deployed(rem.last(), dep) {
            assert(eligible_entries(rem, dep) == eligible_entries(head, dep).push(rem.last()));
            assert(w =~= wh.push(rem.last().name@));
            assert(!wh.contains(rem.last().name@)) by {
                if wh.contains(rem.last().name@) {
                    assert(names_of(head).contains(rem.last().name@));
                    let t = choose|t: int|
                        0 <= t < names_of(head).len() && names_of(head)[t] == rem.last().name@;
                    assert(rem[t].name@ == rem[rem.len() - 1].name@);
                }
            }
            assert(names_of(rem)[rem.len() - 1] == rem.last().name@);
            assert forall|n: Seq<char>| #[trigger] w.contains(n) implies names_of(rem).contains(
                n,
            ) by {
                let t = choose|t: int| 0 <= t < w.len() && w[t] == n;
                if t < w.len() - 1 {
                    assert(wh.contains(n));
                } else {
                    assert(n == rem.last().name@);
                }
            }
        } else {
            assert(eligible_entries(rem, dep) == eligible_entries(head, dep));
            assert forall|n: Seq<char>| #[trigger] w.contains(n) implies names_of(rem).contains(
                n,
            ) by {
                assert(wh.contains(n));
            }
        }
    }
}

/// Filtering leaves a sequence unchanged when every element passes.
pub proof fn lemma_filter_all<A>(s: Seq<A>, pred: spec_fn(A) -> bool)
    requires
        forall|i: int| 0 <= i < s.len() ==> pred(#[trigger] s[i]),
    ensures
        s.filter(pred) =~= s,
    decreases s.len(),
{
    reveal(Seq::filter);
    if s.len() > 0 {
        lemma_filter_all(s.drop_last(), pred);
        assert(pred(s.last()));
        assert(s.filter(pred) =~= s.drop_last().push(s.last()));
        assert(s.drop_last().push(s.last()) =~= s);
    }
}

/// Filtering strictly shrinks a sequence that holds a rejected element.
pub proof fn lemma_filter_strict<A>(s: Seq<A>, pred: spec_fn(A) -> bool, i: int)
    requires
        0 <= i < s.len(),
        !pred(s[i]),
    ensures
        s.filter(pred).len() < s.len(),
    decreases s.len(),
{
    reveal(Seq::filter);
    if i == s.len() - 1 {
        Seq::lemma_filter_len(s.drop_last(), pred);
    } else {
        lemma_filter_strict(s.drop_last(), pred, i);
    }
}

/// Filtering by two predicates in turn filters by their conjunction.
pub proof fn lemma_filter_compose<A>(s: Seq<A>, p: spec_fn(A) -> bool, q: spec_fn(A) -> bool)
    ensures
        s.filter(p).filter(q) =~= s.filter(|e: A| p(e) && q(e)),
    decreases s.len(),
{
    reveal(Seq::filter);
    let pq = |e: A| p(e) && q(e);
    if s.len() == 0 {
    } else {
        let d = s.drop_last();
        let l = s.last();
        lemma_filter_compose(d, p, q);
        assert(s.filter(pq) == if pq(l) {
            d.filter(pq).push(l)
        } else {
            d.filter(pq)
        });
        if p(l) {
            assert(s.filter(p) == d.filter(p).push(l));
            assert(d.filter(p).push(l).drop_last() =~= d.filter(p));
            assert(d.filter(p).push(l).last() == l);
        } else {
            assert(s.filter(p) == d.filter(p));
        }
    }
}

/// Removing the one entry that carries a name is the same as filtering that
/// name out, when entry names are unique.
pub proof fn lemma_remove_is_filter(s: Seq<ServiceEntry>, idx: int)
    requires
        crate::waves::unique_names(s),
        0 <= idx < s.len(),
    ensures
        s.remove(idx) =~= s.filter(|e: ServiceEntry| e.name@ != s[idx].name@),
    decreases s.len(),
{
    reveal(Seq::filter);
    let pred = |e: ServiceEntry| e.name@ != s[idx].name@;
    let d = s.drop_last();
    let l = s.last();
    if idx == s.len() - 1 {
        assert(!pred(l));
        assert(s.filter(pred) == d.filter(pred));
        lemma_filter_all(d, pred);
        assert(s.remove(idx) =~= d);
    } else {
        assert(crate::waves::unique_names(d));
        lemma_remove_is_filter(d, idx);
        let predd = |e: ServiceEntry| e.name@ != d[idx].name@;
        assert(d[idx] == s[idx]);
        assert(pred =~= predd);
        assert(pred(l));
        assert(s.filter(pred) == d.filter(pred).push(l));
        assert(d.filter(pred) =~= d.remove(idx));
        s.remove_ensures(idx);
        d.remove_ensures(idx);
        assert(s.remove(idx) =~= d.remove(idx).push(l));
    }
}

/// Some remaining entry carries the name `n` and has all its dependencies in
/// `dep`.
pub open spec fn has_ready_entry(rem: Seq<ServiceEntry>, dep: Seq<Seq<char>>, n: Seq<char>) -> bool {
    exists|i: int|
        0 <= i < rem.len() && (#[trigger] rem[i]).name@ == n && all_deps_deployed(rem[i], dep)
}

/// For every position of a wave there is a remaining entry carrying that
/// name whose dependencies are all deployed.
pub proof fn lemma_wave_entries(rem: Seq<ServiceEntry>, dep: Seq<Seq<char>>)
    ensures
        forall|t: int|
            0 <= t < eligible_names(rem, dep).len() ==> has_ready_entry(
                rem,
                dep,
                #[trigger] eligible_names(rem, dep)[t],
            ),
{
    let pred = |e: ServiceEntry| all_deps_deployed(e, dep);
    let ent = eligible_entries(rem, dep);
    assert forall|t: int| 0 <= t < eligible_names(rem, dep).len() implies has_ready_entry(
        rem,
        dep,
        #[trigger] eligible_names(rem, dep)[t],
    ) by {
        let e = ent[t];
        Seq::lemma_filter_pred(rem, pred, t);
        assert(ent.contains(e));
        Seq::lemma_filter_contains_rev(rem, pred, e);
        let i = choose|i: int| 0 <= i < rem.len() && rem[i] == e;
        assert(rem[i].name@ == eligible_names(rem, dep)[t] && all_deps_deployed(rem[i], dep));
    }
}

/// Removing one entry removes exactly its name from the graph's name list.
pub proof fn lemma_names_remove(rem: Seq<ServiceEntry>, i: int)
    requires
        0 <= i < rem.len(),
        crate::waves::unique_names(rem),
    ensures
        names_of(rem.remove(i)) =~= names_of(rem).remove(i),
        crate::waves::unique_names(rem.remove(i)),
        subgraph(rem.remove(i), rem),
        forall|m: Seq<char>|
            #[trigger] names_of(rem.remove(i)).contains(m) <==> (names_of(rem).contains(m) && m
                != rem[i].name@),
{
    let r2 = rem.remove(i);
    rem.remove_ensures(i);
    assert(names_of(r2) =~= names_of(rem).remove(i));
    assert forall|m: Seq<char>| #[trigger] names_of(r2).contains(m) implies (names_of(
        rem,
    ).contains(m) && m != rem[i].name@) by {
        let t = choose|t: int| 0 <= t < names_of(r2).len() && names_of(r2)[t] == m;
        assert(r2[t].name@ == m);
        if t < i {
            assert(rem[t].name@ == m);
            assert(names_of(rem)[t] == m);
        } else {
            assert(rem[t + 1].name@ == m);
            assert(names_of(rem)[t + 1] == m);
        }
    }
    assert forall|m: Seq<char>| (names_of(rem).contains(m) && m != rem[i].name@) implies #[trigger]
        names_of(r2).contains(m) by {
        let t = choose|t: int| 0 <= t < names_of(rem).len() && names_of(rem)[t] == m;
        assert(rem[t].name@ == m);
        assert(t != i);
        if t < i {
            assert(r2[t].name@ == m);
            assert(names_of(r2)[t] == m);
        } else {
            assert(r2[t - 1].name@ == m);
            assert(names_of(r2)[t - 1] == m);
        }
    }
}

/// A dependency-respecting order over every declared name shows the graph
/// fully declared: every dependency of every entry is a declared unit name.
pub proof fn lemma_topo_sorted_closed(g: Seq<ServiceEntry>, order: Seq<Seq<char>>)
    requires
        topo_sorted(g, order),
        forall|i: int| 0 <= i < g.len() ==> order.contains(#[trigger] g[i].name@),
        forall|t: int| 0 <= t < order.len() ==> names_of(g).contains(#[trigger] order[t]),
    ensures
        crate::waves::graph_closed(g),
{
    assert forall|i: int, d: int|
        0 <= i < g.len() && 0 <= d < deps_of(g[i]).len() implies names_of(g).contains(
        #[trigger] deps_of(g[i])[d],
    ) by {
        let m = deps_of(g[i])[d];
        assert(order.contains(g[i].name@));
        let t = choose|t: int| 0 <= t < order.len() && order[t] == g[i].name@;
        assert(dep_edge(g, order[t], m)) by {
            assert(g[i].name@ == order[t] && deps_of(g[i]).contains(m));
        }
        assert(order.subrange(0, t).contains(m));
        let u = choose|u: int| 0 <= u < t && order.subrange(0, t)[u] == m;
        assert(names_of(g).contains(order[u]));
    }
}

} // verus!
