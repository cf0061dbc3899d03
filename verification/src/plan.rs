//! The deployment schedule: a run's growing deployed set, the shrinking
//! remainder, and the full wave-by-wave plan of an entire run.
//!
//! `DeployState` carries the two sets the orchestrator owns and the facts
//! that hold of them throughout a run; `deploy_plan` drives wave resolution
//! to completion and succeeds exactly on the acyclic, fully declared graphs.

use vstd::prelude::*;

use crate::config::ServiceEntry;
use crate::errors::DeployError;
use crate::graph::{
    covers_complement, has_ready_entry, lemma_eligible_names_unique, lemma_filter_all,
    lemma_filter_compose, lemma_filter_strict, lemma_names_remove, lemma_remove_is_filter,
    lemma_stuck_has_cycle, lemma_topo_sorted_acyclic, lemma_topo_sorted_closed,
    lemma_wave_entries, subgraph, topo_sorted,
};
use crate::waves::{
    acyclic, all_deps_deployed, dep_edge, deps_of, eligible_names, graph_closed, names_of,
    resolve_this_wave, unique_names,
};

verus! {

/// The remaining entries whose names are not listed in `names`.
pub open spec fn remove_named(rem: Seq<ServiceEntry>, names: Seq<Seq<char>>) -> Seq<ServiceEntry> {
    rem.filter(|e: ServiceEntry| !names.contains(e.name@))
}

/// The wave sequence of a whole run over graph `rem`, given the names
/// already deployed: each wave is the eligible batch of the remainder, and
/// its units join the deployed set before the next wave is resolved. The
/// sequence stops early exactly when resolution gets stuck.
pub open spec fn planned_waves(rem: Seq<ServiceEntry>, dep: Seq<Seq<char>>) -> Seq<
    Seq<Seq<char>>,
>
    decreases rem.len(),
{
    if rem.len() == 0 {
        Seq::empty()
    } else {
        let w = eligible_names(rem, dep);
        if w.len() == 0 {
            Seq::empty()
        } else {
            proof {
                lemma_planned_waves_decrease(rem, dep);
            }
            seq![w] + planned_waves(remove_named(rem, w), dep + w)
        }
    }
}

/// A non-empty wave removes at least one entry from the remainder.
pub proof fn lemma_planned_waves_decrease(rem: Seq<ServiceEntry>, dep: Seq<Seq<char>>)
    requires
        eligible_names(rem, dep).len() > 0,
    ensures
        remove_named(rem, eligible_names(rem, dep)).len() < rem.len(),
{
    let w = eligible_names(rem, dep);
    lemma_wave_entries(rem, dep);
    assert(has_ready_entry(rem, dep, w[0]));
    let i = choose|i: int|
        0 <= i < rem.len() && (#[trigger] rem[i]).name@ == w[0] && all_deps_deployed(rem[i], dep);
    assert(w.contains(w[0]));
    lemma_filter_strict(rem, |e: ServiceEntry| !w.contains(e.name@), i);
}

/// Deployed dependencies stay deployed: readiness survives any growth of
/// the deployed set.
pub proof fn lemma_ready_in_extended(e: ServiceEntry, dep0: Seq<Seq<char>>, ext: Seq<Seq<char>>)
    requires
        all_deps_deployed(e, dep0),
    ensures
        all_deps_deployed(e, dep0 + ext),
{
    assert forall|d: int| 0 <= d < deps_of(e).len() implies (dep0 + ext).contains(
        #[trigger] deps_of(e)[d],
    ) by {
        let m = deps_of(e)[d];
        assert(dep0.contains(m));
        let u = choose|u: int| 0 <= u < dep0.len() && dep0[u] == m;
        assert((dep0 + ext)[u] == m);
    }
}

/// Completing the wave's unit at position `wi` takes the remainder from
/// "the graph minus the first `wi` wave names" to "the graph minus the
/// first `wi + 1`": removing the one entry named `w[wi]` filters exactly
/// that name out.
pub proof fn lemma_remove_named_extend(
    rem0: Seq<ServiceEntry>,
    w: Seq<Seq<char>>,
    wi: int,
    rem_before: Seq<ServiceEntry>,
    i: int,
)
    requires
        unique_names(rem_before),
        0 <= wi < w.len(),
        rem_before =~= remove_named(rem0, w.take(wi)),
        0 <= i < rem_before.len(),
        rem_before[i].name@ == w[wi],
    ensures
        rem_before.remove(i) =~= remove_named(rem0, w.take(wi + 1)),
{
    lemma_remove_is_filter(rem_before, i);
    let p_cur = |e: ServiceEntry| !w.take(wi).contains(e.name@);
    let q = |e: ServiceEntry| e.name@ != w[wi];
    let p_next = |e: ServiceEntry| !w.take(wi + 1).contains(e.name@);
    assert(rem_before.remove(i) =~= rem_before.filter(
        |e: ServiceEntry| e.name@ != rem_before[i].name@,
    ));
    assert((|e: ServiceEntry| e.name@ != rem_before[i].name@) =~= q);
    lemma_filter_compose(rem0, p_cur, q);
    assert(rem_before == rem0.filter(p_cur));
    assert(rem_before.remove(i) =~= rem0.filter(|e: ServiceEntry| p_cur(e) && q(e)));
    assert((|e: ServiceEntry| p_cur(e) && q(e)) =~= p_next) by {
        assert forall|e: ServiceEntry| #[trigger] p_next(e) == (p_cur(e) && q(e)) by {
            let taken = w.take(wi);
            let taken1 = w.take(wi + 1);
            assert(taken1 =~= taken.push(w[wi]));
            if taken.contains(e.name@) {
                let u = choose|u: int| 0 <= u < taken.len() && taken[u] == e.name@;
                assert(taken1[u] == e.name@);
                assert(taken1.contains(e.name@));
            }
            if e.name@ == w[wi] {
                assert(taken1[taken1.len() - 1] == e.name@);
                assert(taken1.contains(e.name@));
            }
            if taken1.contains(e.name@) {
                let u = choose|u: int| 0 <= u < taken1.len() && taken1[u] == e.name@;
                if u < taken.len() {
                    assert(taken[u] == e.name@);
                    assert(taken.contains(e.name@));
                } else {
                    assert(e.name@ == w[wi]);
                }
            }
        }
    }
}

/// The not-yet-completed wave names keep a ready entry after the entry
/// named `w[wi]` leaves the remainder.
pub proof fn lemma_ready_entries_preserved(
    rem_before: Seq<ServiceEntry>,
    dep0: Seq<Seq<char>>,
    w: Seq<Seq<char>>,
    wi: int,
    i: int,
)
    requires
        w.no_duplicates(),
        0 <= wi < w.len(),
        0 <= i < rem_before.len(),
        rem_before[i].name@ == w[wi],
        forall|t: int| wi <= t < w.len() ==> has_ready_entry(rem_before, dep0, #[trigger] w[t]),
    ensures
        forall|t: int|
            wi + 1 <= t < w.len() ==> has_ready_entry(rem_before.remove(i), dep0, #[trigger] w[t]),
{
    let rem_after = rem_before.remove(i);
    assert forall|t: int| wi + 1 <= t < w.len() implies has_ready_entry(
        rem_after,
        dep0,
        #[trigger] w[t],
    ) by {
        assert(has_ready_entry(rem_before, dep0, w[t]));
        let jj = choose|jj: int|
            0 <= jj < rem_before.len() && (#[trigger] rem_before[jj]).name@ == w[t]
                && all_deps_deployed(rem_before[jj], dep0);
        assert(w[t] != w[wi]);
        rem_before.remove_ensures(i);
        if jj < i {
            assert(rem_after[jj] == rem_before[jj]);
        } else {
            assert(jj != i);
            assert(rem_after[jj - 1] == rem_before[jj]);
        }
    }
}

/// The deployed set and the remainder of one deployment run, with the graph
/// it started from.
pub struct DeployState {
    pub remaining: Vec<ServiceEntry>,
    pub deployed: Vec<String>,
    pub initial: Ghost<Seq<ServiceEntry>>,
}

impl DeployState {
    /// The full unit graph the run started from.
    pub open spec fn graph(self) -> Seq<ServiceEntry> {
        self.initial@
    }

    /// The not-yet-deployed entries.
    pub open spec fn rem(self) -> Seq<ServiceEntry> {
        self.remaining@
    }

    /// The names deployed so far, in deployment order.
    pub open spec fn dep(self) -> Seq<Seq<char>> {
        self.deployed.deep_view()
    }

    /// What holds of a run at every wave boundary: the remainder consists of
    /// entries of the graph, names are unique, the deployed order respects
    /// every dependency edge, and deployed and remaining names partition the
    /// declared names reached so far.
    pub open spec fn inv(self) -> bool {
        &&& unique_names(self.graph())
        &&& subgraph(self.rem(), self.graph())
        &&& unique_names(self.rem())
        &&& covers_complement(self.graph(), self.rem(), self.dep())
        &&& forall|t: int|
            0 <= t < self.dep().len() ==> names_of(self.graph()).contains(#[trigger] self.dep()[t])
        &&& forall|t: int|
            0 <= t < self.dep().len() ==> !names_of(self.rem()).contains(#[trigger] self.dep()[t])
        &&& self.dep().no_duplicates()
        &&& topo_sorted(self.graph(), self.dep())
    }

    /// Begin a run: nothing deployed, every declared unit remaining.
    pub fn new(services: Vec<ServiceEntry>) -> (r: DeployState)
        requires
            unique_names(services@),
        ensures
            r.inv(),
            r.graph() == services@,
            r.rem() == services@,
            r.dep() =~= Seq::<Seq<char>>::empty(),
    {
        let ghost gs = services@;
        let r = DeployState { remaining: services, deployed: Vec::new(), initial: Ghost(gs) };
        proof {
            assert(r.dep() =~= Seq::<Seq<char>>::empty());
        }
        r
    }

    /// Resolve the next wave against the current deployed set. An error
    /// means the remainder, if any, can never be completed: the graph is
    /// cyclic or references an undeclared unit.
    pub fn next_wave(&self) -> (r: Result<Vec<String>, DeployError>)
        requires
            self.inv(),
        ensures
            match r {
                Ok(w) => {
                    &&& w.deep_view() == eligible_names(self.rem(), self.dep())
                    &&& w.len() > 0
                },
                Err(e) => {
                    &&& e is GraphError
                    &&& eligible_names(self.rem(), self.dep()).len() == 0
                    &&& self.rem().len() > 0 ==> !(graph_closed(self.graph()) && acyclic(
                        self.graph(),
                    ))
                },
            },
    {
        let r = resolve_this_wave(&self.remaining, &self.deployed);
        proof {
            if r is Err && self.rem().len() > 0 && graph_closed(self.graph()) {
                lemma_stuck_has_cycle(self.graph(), self.rem(), self.dep());
            }
        }
        r
    }

    /// Record one unit as deployed: its entry leaves the remainder and its
    /// name joins the deployed set. The unit must be present and have all
    /// its dependencies deployed — exactly the units a wave lists.
    pub fn complete_unit(&mut self, name: String)
        requires
            old(self).inv(),
            exists|i: int|
                0 <= i < old(self).rem().len() && (#[trigger] old(self).rem()[i]).name@ == name@
                    && all_deps_deployed(old(self).rem()[i], old(self).dep()),
        ensures
            final(self).inv(),
            final(self).graph() == old(self).graph(),
            final(self).dep() =~= old(self).dep().push(name@),
            final(self).rem().len() == old(self).rem().len() - 1,
            exists|i: int|
                0 <= i < old(self).rem().len() && (#[trigger] old(self).rem()[i]).name@ == name@
                    && final(self).rem() == old(self).rem().remove(i),
            forall|m: Seq<char>|
                #[trigger] names_of(final(self).rem()).contains(m) <==> (names_of(
                    old(self).rem(),
                ).contains(m) && m != name@),
    {
        let ghost g = self.graph();
        let ghost rem0 = self.rem();
        let ghost dep0 = self.dep();
        proof {
            let i = choose|i: int|
                0 <= i < rem0.len() && (#[trigger] rem0[i]).name@ == name@ && all_deps_deployed(
                    rem0[i],
                    dep0,
                );
            assert(names_of(rem0)[i] == name@);
            assert(names_of(rem0).contains(name@));
        }
        let idx = find_entry_index(&self.remaining, &name);
        let ghost ready_i = choose|i: int|
            0 <= i < rem0.len() && (#[trigger] rem0[i]).name@ == name@ && all_deps_deployed(
                rem0[i],
                dep0,
            );
        proof {
            if ready_i != idx as int {
                assert(rem0[ready_i].name@ == rem0[idx as int].name@);
                assert(false);
            }
            assert(all_deps_deployed(rem0[idx as int], dep0));
        }
        let entry = self.remaining.remove(idx);
        self.deployed.push(name);
        proof {
            let rem1 = self.rem();
            let dep1 = self.dep();
            assert(dep1 =~= dep0.push(entry.name@));
            lemma_names_remove(rem0, idx as int);
            // the removed entry is an entry of the graph
            let j = choose|j: int| 0 <= j < g.len() && g[j] == rem0[idx as int];
            assert(names_of(g)[j] == entry.name@);
            assert(names_of(g).contains(entry.name@));
            assert(subgraph(rem1, g)) by {
                rem0.remove_ensures(idx as int);
                assert forall|t: int| 0 <= t < rem1.len() implies g.contains(
                    #[trigger] rem1[t],
                ) by {
                    if t < idx as int {
                        assert(rem1[t] == rem0[t]);
                    } else {
                        assert(rem1[t] == rem0[t + 1]);
                    }
                }
            }
            assert(covers_complement(g, rem1, dep1)) by {
                assert forall|n: Seq<char>|
                    names_of(g).contains(n) && !names_of(rem1).contains(n) implies dep1.contains(
                    n,
                ) by {
                    if n == entry.name@ {
                        assert(dep1[dep1.len() - 1] == n);
                    } else {
                        assert(!names_of(rem0).contains(n));
                        assert(dep0.contains(n));
                        let u = choose|u: int| 0 <= u < dep0.len() && dep0[u] == n;
                        assert(dep1[u] == n);
                    }
                }
            }
            assert forall|t: int| 0 <= t < dep1.len() implies names_of(g).contains(
                #[trigger] dep1[t],
            ) by {
                if t < dep0.len() {
                    assert(dep1[t] == dep0[t]);
                } else {
                    assert(dep1[t] == entry.name@);
                }
            }
            assert forall|t: int| 0 <= t < dep1.len() implies !names_of(rem1).contains(
                #[trigger] dep1[t],
            ) by {
                if t < dep0.len() {
                    assert(dep1[t] == dep0[t]);
                    assert(!names_of(rem0).contains(dep0[t]));
                } else {
                    assert(dep1[t] == entry.name@);
                }
            }
            assert(dep1.no_duplicates()) by {
                assert(names_of(rem0)[idx as int] == entry.name@);
                assert(names_of(rem0).contains(entry.name@));
                assert forall|u: int, v: int|
                    0 <= u < dep1.len() && 0 <= v < dep1.len() && u != v implies dep1[u] != dep1[v] by {
                    if u < dep0.len() && v < dep0.len() {
                        assert(dep1[u] == dep0[u] && dep1[v] == dep0[v]);
                    } else if u < dep0.len() {
                        assert(dep1[v] == entry.name@ && dep1[u] == dep0[u]);
                        assert(!names_of(rem0).contains(dep0[u]));
                    } else {
                        assert(dep1[u] == entry.name@ && dep1[v] == dep0[v]);
                        assert(!names_of(rem0).contains(dep0[v]));
                    }
                }
            }
            assert(topo_sorted(g, dep1)) by {
                assert forall|t: int, m: Seq<char>|
                    0 <= t < dep1.len() && #[trigger] dep_edge(g, dep1[t], m) implies dep1.subrange(
                    0,
                    t,
                ).contains(m) by {
                    if t < dep0.len() {
                        assert(dep1[t] == dep0[t]);
                        assert(dep0.subrange(0, t).contains(m));
                        let u = choose|u: int| 0 <= u < t && dep0.subrange(0, t)[u] == m;
                        assert(dep1.subrange(0, t)[u] == m);
                    } else {
                        assert(dep1[t] == entry.name@);
                        let e = choose|e: int|
                            0 <= e < g.len() && (#[trigger] g[e]).name@ == entry.name@ && deps_of(
                                g[e],
                            ).contains(m);
                        if e != j {
                            assert(g[e].name@ == g[j].name@);
                            assert(false);
                        }
                        assert(deps_of(rem0[idx as int]).contains(m));
                        assert(dep0.contains(m));
                        let u = choose|u: int| 0 <= u < dep0.len() && dep0[u] == m;
                        assert(dep1.subrange(0, t)[u] == m);
                    }
                }
            }
            assert(final(self).rem() == rem0.remove(idx as int));
        }
    }
}

/// The position of the entry named `name` in `remaining`.
pub(crate) fn find_entry_index(remaining: &Vec<ServiceEntry>, name: &String) -> (idx: usize)
    requires
        names_of(remaining@).contains(name@),
    ensures
        idx < remaining.len(),
        remaining@[idx as int].name@ == name@,
{
    let mut k: usize = 0;
    while k < remaining.len()
        invariant
            0 <= k <= remaining.len(),
            names_of(remaining@).contains(name@),
            forall|j: int| 0 <= j < k ==> (#[trigger] remaining@[j]).name@ != name@,
        decreases remaining.len() - k,
    {
        if remaining[k].name == *name {
            return k;
        }
        k += 1;
    }
    proof {
        let t = choose|t: int|
            0 <= t < names_of(remaining@).len() && names_of(remaining@)[t] == name@;
        assert(remaining@[t].name@ == name@);
        assert(false);
    }
    0
}

/// Compute the complete wave-by-wave schedule of a run, deploying nothing.
/// Succeeds exactly when the graph is acyclic and every dependency name is
/// declared; the flattened schedule then lists every declared unit once, in
/// an order that puts each unit after all of its dependencies.
pub fn deploy_plan(services: Vec<ServiceEntry>) -> (r: Result<Vec<Vec<String>>, DeployError>)
    requires
        unique_names(services@),
    ensures
        match r {
            Ok(waves) => {
                &&& waves.deep_view() == planned_waves(services@, Seq::empty())
                &&& graph_closed(services@)
                &&& acyclic(services@)
                &&& waves.deep_view().flatten().to_set() == names_of(services@).to_set()
                &&& waves.deep_view().flatten().no_duplicates()
                &&& topo_sorted(services@, waves.deep_view().flatten())
            },
            Err(e) => {
                &&& e is GraphError
                &&& !(graph_closed(services@) && acyclic(services@))
            },
        },
{
    let ghost g = services@;
    let mut st = DeployState::new(services);
    let mut waves: Vec<Vec<String>> = Vec::new();
    proof {
        assert(waves.deep_view().flatten() =~= st.dep());
        assert(planned_waves(g, Seq::empty()) =~= waves.deep_view() + planned_waves(
            st.rem(),
            st.dep(),
        ));
    }
    while st.remaining.len() > 0
        invariant
            st.inv(),
            st.graph() == g,
            g == services@,
            unique_names(g),
            waves.deep_view().flatten() =~= st.dep(),
            planned_waves(g, Seq::empty()) =~= waves.deep_view() + planned_waves(
                st.rem(),
                st.dep(),
            ),
        decreases st.remaining.len(),
    {
        let ghost rem0 = st.rem();
        let ghost dep0 = st.dep();
        let ghost wdv0 = waves.deep_view();
        let wave = match st.next_wave() {
            Ok(w) => w,
            Err(e) => {
                return Err(e);
            },
        };
        let ghost w = wave.deep_view();
        proof {
            lemma_eligible_names_unique(rem0, dep0);
            lemma_wave_entries(rem0, dep0);
            let empty_names = Seq::<Seq<char>>::empty();
            lemma_filter_all(rem0, |e: ServiceEntry| !w.take(0).contains(e.name@));
            assert(st.rem() =~= remove_named(rem0, w.take(0)));
            assert(st.dep() =~= dep0 + w.take(0));
            assert forall|t: int| 0 <= t < w.len() implies has_ready_entry(
                st.rem(),
                dep0,
                #[trigger] w[t],
            ) by {
                assert(eligible_names(rem0, dep0)[t] == w[t]);
            }
        }
        let mut wi: usize = 0;
        while wi < wave.len()
            invariant
                st.inv(),
                st.graph() == g,
                unique_names(g),
                wave.deep_view() == w,
                w == eligible_names(rem0, dep0),
                w.no_duplicates(),
                w.len() > 0,
                0 <= wi <= wave.len(),
                forall|t: int| wi <= t < w.len() ==> has_ready_entry(st.rem(), dep0, #[trigger] w[t]),
                st.dep() =~= dep0 + w.take(wi as int),
                st.rem() =~= remove_named(rem0, w.take(wi as int)),
            decreases wave.len() - wi,
        {
            let name = wave[wi].clone();
            let ghost rem_before = st.rem();
            let ghost dep_before = st.dep();
            proof {
                assert(w[wi as int] == wave.deep_view()[wi as int]);
                assert(has_ready_entry(rem_before, dep0, w[wi as int]));
                let i = choose|i: int|
                    0 <= i < rem_before.len() && (#[trigger] rem_before[i]).name@ == w[wi as int]
                        && all_deps_deployed(rem_before[i], dep0);
                lemma_ready_in_extended(rem_before[i], dep0, w.take(wi as int));
                assert(all_deps_deployed(rem_before[i], dep_before));
            }
            st.complete_unit(name);
            proof {
                let i = choose|i: int|
                    0 <= i < rem_before.len() && (#[trigger] rem_before[i]).name@ == w[wi as int]
                        && st.rem() == rem_before.remove(i);
                lemma_remove_named_extend(rem0, w, wi as int, rem_before, i);
                assert(st.rem() =~= remove_named(rem0, w.take(wi as int + 1)));
                assert(st.dep() =~= dep_before.push(w[wi as int]));
                assert(st.dep() =~= dep0 + w.take(wi as int + 1)) by {
                    assert(w.take(wi as int + 1) =~= w.take(wi as int).push(w[wi as int]));
                }
                lemma_ready_entries_preserved(rem_before, dep0, w, wi as int, i);
            }
            wi += 1;
        }
        waves.push(wave);
        proof {
            assert(waves.deep_view() =~= wdv0.push(w));
            assert(w.take(w.len() as int) =~= w);
            assert(st.dep() =~= dep0 + w);
            assert(st.rem() =~= remove_named(rem0, w));
            assert(planned_waves(rem0, dep0) == seq![w] + planned_waves(
                remove_named(rem0, w),
                dep0 + w,
            ));
            lemma_planned_waves_decrease(rem0, dep0);
            wdv0.lemma_flatten_push(w);
            assert(wdv0.push(w).flatten() =~= wdv0.flatten() + w);
            assert(waves.deep_view().flatten() =~= st.dep());
            assert(planned_waves(g, Seq::empty()) =~= waves.deep_view() + planned_waves(
                st.rem(),
                st.dep(),
            )) by {
                assert(wdv0 + (seq![w] + planned_waves(st.rem(), st.dep())) =~= (wdv0.push(w))
                    + planned_waves(st.rem(), st.dep()));
            }
        }
    }
    proof {
        let order = st.dep();
        assert(planned_waves(st.rem(), st.dep()) =~= Seq::<Seq<Seq<char>>>::empty());
        assert(waves.deep_view() =~= planned_waves(g, Seq::empty()));
        assert forall|i: int| 0 <= i < g.len() implies order.contains(#[trigger] g[i].name@) by {
            assert(names_of(g)[i] == g[i].name@);
            assert(names_of(g).contains(g[i].name@));
            assert(!names_of(st.rem()).contains(g[i].name@));
        }
        lemma_topo_sorted_acyclic(g, order);
        lemma_topo_sorted_closed(g, order);
        assert(order.to_set() =~= names_of(g).to_set()) by {
            assert forall|n: Seq<char>| order.to_set().contains(n) implies names_of(
                g,
            ).to_set().contains(n) by {
                let t = choose|t: int| 0 <= t < order.len() && order[t] == n;
                assert(names_of(g).contains(order[t]));
            }
            assert forall|n: Seq<char>| names_of(g).to_set().contains(n) implies order
                .to_set()
                .contains(n) by {
                assert(!names_of(st.rem()).contains(n));
            }
        }
        assert(waves.deep_view().flatten() =~= order);
    }
    Ok(waves)
}

} // verus!
