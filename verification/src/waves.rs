//! Wave resolution: which of the remaining units are eligible for the next
//! deployment wave, given the set of already-deployed unit names.
//!
//! A unit is eligible when every name on its dependency list is already
//! deployed; a unit with no dependencies is always eligible. An empty wave
//! over a non-empty remainder means the graph can never be completed — a
//! cycle, or a reference to a name that was never declared.

use vstd::prelude::*;

use crate::config::ServiceEntry;
use crate::errors::DeployError;

verus! {

/// The dependency names of one graph entry (empty when none are declared).
pub open spec fn deps_of(e: ServiceEntry) -> Seq<Seq<char>> {
    match e.service.depends_on {
        Some(ds) => ds.deep_view(),
        None => Seq::empty(),
    }
}

/// The unit names of a graph, in graph order.
pub open spec fn names_of(g: Seq<ServiceEntry>) -> Seq<Seq<char>> {
    g.map_values(|e: ServiceEntry| e.name@)
}

/// No two entries share a name: the graph is a map keyed by unit name.
pub open spec fn unique_names(g: Seq<ServiceEntry>) -> bool {
    forall|i: int, j: int| 0 <= i < j < g.len() ==> g[i].name@ != g[j].name@
}

/// Every dependency of every entry names a declared unit.
pub open spec fn graph_closed(g: Seq<ServiceEntry>) -> bool {
    forall|i: int, d: int|
        0 <= i < g.len() && 0 <= d < deps_of(g[i]).len() ==> names_of(g).contains(
            #[trigger] deps_of(g[i])[d],
        )
}

/// Some entry of `g` is named `a` and lists `b` among its dependencies.
pub open spec fn dep_edge(g: Seq<ServiceEntry>, a: Seq<char>, b: Seq<char>) -> bool {
    exists|i: int| 0 <= i < g.len() && (#[trigger] g[i]).name@ == a && deps_of(g[i]).contains(b)
}

/// `c` is a non-empty closed walk along dependency edges of `g`: each node
/// depends on the next, and the last depends on the first.
pub open spec fn is_cycle(g: Seq<ServiceEntry>, c: Seq<Seq<char>>) -> bool {
    &&& c.len() > 0
    &&& forall|k: int| 0 <= k < c.len() - 1 ==> dep_edge(g, #[trigger] c[k], c[k + 1])
    &&& dep_edge(g, c[c.len() - 1], c[0])
}

/// The dependency relation of `g` admits no cycle.
pub open spec fn acyclic(g: Seq<ServiceEntry>) -> bool {
    forall|c: Seq<Seq<char>>| !is_cycle(g, c)
}

/// Every dependency of `e` is present in `deployed`.
pub open spec fn all_deps_deployed(e: ServiceEntry, deployed: Seq<Seq<char>>) -> bool {
    forall|d: int| 0 <= d < deps_of(e).len() ==> deployed.contains(#[trigger] deps_of(e)[d])
}

/// The remaining entries whose every dependency is already deployed.
pub open spec fn eligible_entries(rem: Seq<ServiceEntry>, deployed: Seq<Seq<char>>) -> Seq<
    ServiceEntry,
> {
    rem.filter(|e: ServiceEntry| all_deps_deployed(e, deployed))
}

/// The names of the eligible entries, in graph order: the next wave.
pub open spec fn eligible_names(rem: Seq<ServiceEntry>, deployed: Seq<Seq<char>>) -> Seq<
    Seq<char>,
> {
    eligible_entries(rem, deployed).map_values(|e: ServiceEntry| e.name@)
}

/// Whether no two entries of the graph share a unit name. A run can only
/// be driven over a graph that passes this check.
pub fn unique_names_check(services: &Vec<ServiceEntry>) -> (b: bool)
    ensures
        b == unique_names(services@),
{
    let mut i: usize = 0;
    while i < services.len()
        invariant
            0 <= i <= services.len(),
            forall|a: int, b2: int|
                0 <= a < b2 < i ==> (#[trigger] services@[a]).name@ != (
                #[trigger] services@[b2]).name@,
        decreases services.len() - i,
    {
        let mut j: usize = 0;
        while j < i
            invariant
                0 <= j <= i < services.len(),
                forall|a: int, b2: int|
                    0 <= a < b2 < i ==> (#[trigger] services@[a]).name@ != (
                    #[trigger] services@[b2]).name@,
                forall|a: int|
                    0 <= a < j ==> (#[trigger] services@[a]).name@ != services@[i as int].name@,
            decreases i - j,
        {
            if services[j].name == services[i].name {
                return false;
            }
            j += 1;
        }
        i += 1;
    }
    true
}

/// Whether `names` holds a string whose characters equal `needle`'s.
pub fn contains_name(names: &Vec<String>, needle: &String) -> (b: bool)
    ensures
        b == names.deep_view().contains(needle@),
{
    let mut k: usize = 0;
    while k < names.len()
        invariant
            0 <= k <= names.len(),
            forall|j: int| 0 <= j < k ==> names.deep_view()[j] != needle@,
        decreases names.len() - k,
    {
        if names[k] == *needle {
            assert(names.deep_view()[k as int] == needle@);
            return true;
        }
        k += 1;
    }
    assert(forall|j: int| 0 <= j < names.deep_view().len() ==> names.deep_view()[j] != needle@);
    false
}

/// Whether every dependency of `e` is present in `deployed`.
fn deps_ready(e: &ServiceEntry, deployed: &Vec<String>) -> (b: bool)
    ensures
        b == all_deps_deployed(*e, deployed.deep_view()),
{
    match &e.service.depends_on {
        None => {
            assert(deps_of(*e) =~= Seq::<Seq<char>>::empty());
            true
        },
        Some(ds) => {
            assert(deps_of(*e) =~= ds.deep_view());
            let mut k: usize = 0;
            while k < ds.len()
                invariant
                    0 <= k <= ds.len(),
                    deps_of(*e) =~= ds.deep_view(),
                    forall|j: int| 0 <= j < k ==> deployed.deep_view().contains(
                        #[trigger] ds.deep_view()[j],
                    ),
                decreases ds.len() - k,
            {
                if !contains_name(deployed, &ds[k]) {
                    assert(deps_of(*e)[k as int] == ds.deep_view()[k as int]);
                    return false;
                }
                k += 1;
            }
            true
        },
    }
}

/// Compute the next wave: the names of the remaining units whose every
/// dependency is deployed, in graph order. An empty wave is the fatal
/// unsatisfiable-graph condition and is returned as a `GraphError`.
pub fn resolve_this_wave(services_to_deploy: &Vec<ServiceEntry>, deployed_services: &Vec<String>)
    -> (r: Result<Vec<String>, DeployError>)
    ensures
        match r {
            Ok(wave) => {
                &&& wave.deep_view() == eligible_names(
                    services_to_deploy@,
                    deployed_services.deep_view(),
                )
                &&& wave.len() > 0
            },
            Err(e) => {
                &&& e is GraphError
                &&& eligible_names(services_to_deploy@, deployed_services.deep_view()).len() == 0
            },
        },
{
    let ghost dply = deployed_services.deep_view();
    let mut ready: Vec<String> = Vec::new();
    let mut i: usize = 0;
    proof {
        reveal(Seq::filter);
        assert(ready.deep_view() =~= eligible_names(services_to_deploy@.take(0), dply));
    }
    while i < services_to_deploy.len()
        invariant
            0 <= i <= services_to_deploy.len(),
            dply == deployed_services.deep_view(),
            ready.deep_view() =~= eligible_names(services_to_deploy@.take(i as int), dply),
        decreases services_to_deploy.len() - i,
    {
        let ghost prefix = services_to_deploy@.take(i as int);
        let ghost next_prefix = services_to_deploy@.take(i as int + 1);
        let ghost entry = services_to_deploy@[i as int];
        let ghost ready0 = ready.deep_view();
        let e = &services_to_deploy[i];
        if deps_ready(e, deployed_services) {
            ready.push(e.name.clone());
            proof {
                reveal(Seq::filter);
                assert(next_prefix.drop_last() =~= prefix);
                assert(eligible_entries(next_prefix, dply) == eligible_entries(
                    prefix,
                    dply,
                ).push(entry));
                assert(eligible_names(next_prefix, dply) =~= eligible_names(
                    prefix,
                    dply,
                ).push(entry.name@));
                assert(ready.deep_view() =~= ready0.push(entry.name@));
                assert(ready.deep_view() =~= eligible_names(next_prefix, dply));
            }
        } else {
            proof {
                reveal(Seq::filter);
                assert(next_prefix.drop_last() =~= prefix);
                assert(eligible_entries(next_prefix, dply) == eligible_entries(prefix, dply));
                assert(eligible_names(next_prefix, dply) =~= eligible_names(prefix, dply));
            }
        }
        i += 1;
    }
    proof {
        assert(services_to_deploy@.take(services_to_deploy@.len() as int) =~= services_to_deploy@);
    }
    if ready.len() == 0 {
        Err(
            DeployError::GraphError {
                detail: "cyclic or unsatisfiable dependency among the remaining units".to_owned(),
            },
        )
    } else {
        Ok(ready)
    }
}

} // verus!
