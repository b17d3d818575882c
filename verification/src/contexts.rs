//! The contexts that the forwards name.

use crate::config::{Config, ForwardSpec};
use vstd::prelude::*;

verus! {

/// The context of each forward, in the order of the forwards.
pub open spec fn contexts_of(specs: Seq<ForwardSpec>) -> Seq<Seq<char>> {
    specs.map_values(|spec: ForwardSpec| spec.context)
}

/// The names without their repetitions, each where it occurs first.
pub open spec fn distinct(names: Seq<Seq<char>>) -> Seq<Seq<char>>
    decreases names.len(),
{
    if names.len() == 0 {
        Seq::empty()
    } else {
        let before = distinct(names.drop_last());
        if before.contains(names.last()) {
            before
        } else {
            before.push(names.last())
        }
    }
}

/// Every name is among the distinct names, every distinct name is one of the
/// names, and no distinct name occurs twice.
pub proof fn lemma_distinct(names: Seq<Seq<char>>)
    ensures
        distinct(names).no_duplicates(),
        distinct(names).len() <= names.len(),
        forall|k: int| 0 <= k < names.len() ==> distinct(names).contains(#[trigger] names[k]),
        forall|i: int|
            0 <= i < distinct(names).len() ==> names.contains(#[trigger] distinct(names)[i]),
    decreases names.len(),
{
    if names.len() > 0 {
        let front = names.drop_last();
        lemma_distinct(front);
        let before = distinct(front);
        let all = distinct(names);
        assert forall|k: int| 0 <= k < names.len() implies all.contains(#[trigger] names[k]) by {
            if k < front.len() {
                let at = before.index_of(front[k]);
                assert(all[at] == names[k]);
            } else if !before.contains(names.last()) {
                assert(all[before.len() as int] == names[k]);
            }
        }
        assert forall|i: int| 0 <= i < all.len() implies names.contains(#[trigger] all[i]) by {
            let k = if i < before.len() {
                front.index_of(before[i])
            } else {
                names.len() - 1
            };
            assert(names[k] == all[i]);
        }
    }
}

/// Where a name stands among names of which none occurs twice.
pub proof fn lemma_index_of_unique(names: Seq<Seq<char>>, name: Seq<char>, at: int)
    requires
        names.no_duplicates(),
        0 <= at < names.len(),
        names[at] == name,
    ensures
        names.index_of(name) == at,
{
}

/// Looks a name up among the given names: the first place where it
/// stands, if it stands anywhere.
pub fn find_context(contexts: &Vec<String>, name: &String) -> (found: Option<usize>)
    ensures
        match found {
            Some(at) => {
                &&& at < contexts.len()
                &&& contexts.deep_view()[at as int] == name@
                &&& forall|k: int| 0 <= k < at ==> contexts.deep_view()[k] != name@
            },
            None => !contexts.deep_view().contains(name@),
        },
{
    let mut at: usize = 0;
    while at < contexts.len()
        invariant
            at <= contexts.len(),
            forall|k: int| 0 <= k < at ==> contexts.deep_view()[k] != name@,
        decreases contexts.len() - at,
    {
        if contexts[at] == *name {
            return Some(at);
        }
        at += 1;
    }
    None
}

/// The contexts that the forwards name, each once, in the order in which
/// the forwards name them first. One client is created for each.
pub fn distinct_contexts(configs: &Vec<Config>) -> (contexts: Vec<String>)
    ensures
        contexts.deep_view() == distinct(contexts_of(configs.deep_view())),
{
    let ghost names = contexts_of(configs.deep_view());
    let mut contexts: Vec<String> = Vec::new();
    let mut done: usize = 0;
    while done < configs.len()
        invariant
            done <= configs.len(),
            names == contexts_of(configs.deep_view()),
            names.len() == configs.len(),
            contexts.deep_view() == distinct(names.take(done as int)),
        decreases configs.len() - done,
    {
        let name = &configs[done].0.context;
        let ghost before = contexts.deep_view();
        proof {
            assert(names.take(done + 1).drop_last() =~= names.take(done as int));
        }
        if find_context(&contexts, name).is_none() {
            contexts.push(name.clone());
            assert(contexts.deep_view() =~= before.push(name@));
        }
        done += 1;
    }
    assert(names.take(done as int) =~= names);
    contexts
}

/// The forwards that name a context which is not among the known ones:
/// their numbers, each once, in rising order. Such a forward is no error:
/// each is reported, and its connections will fail one by one.
pub fn setup_configs(configs: &Vec<Config>, known: &Vec<String>) -> (unknown: Vec<usize>)
    ensures
        forall|i: int, j: int| 0 <= i < j < unknown.len() ==> unknown[i] < unknown[j],
        forall|i: int| 0 <= i < unknown.len() ==> #[trigger] unknown[i] < configs.len(),
        forall|k: usize|
            k < configs.len() ==> (#[trigger] unknown@.contains(k) <==> !known.deep_view().contains(
                configs[k as int]@.context,
            )),
{
    let mut unknown: Vec<usize> = Vec::new();
    let mut at: usize = 0;
    while at < configs.len()
        invariant
            at <= configs.len(),
            forall|i: int, j: int| 0 <= i < j < unknown.len() ==> unknown[i] < unknown[j],
            forall|i: int| 0 <= i < unknown.len() ==> #[trigger] unknown[i] < at,
            forall|k: usize|
                k < at ==> (#[trigger] unknown@.contains(k) <==> !known.deep_view().contains(
                    configs[k as int]@.context,
                )),
        decreases configs.len() - at,
    {
        let ghost before = unknown@;
        if find_context(known, &configs[at].0.context).is_none() {
            unknown.push(at);
            proof {
                assert(unknown@[before.len() as int] == at);
                assert forall|k: usize| k < at implies (#[trigger] unknown@.contains(k)
                    <==> before.contains(k)) by {
                    if before.contains(k) {
                        assert(unknown@[before.index_of(k)] == k);
                    }
                }
            }
        } else {
            proof {
                if unknown@.contains(at) {
                    assert(unknown[unknown@.index_of(at)] < at);
                }
            }
        }
        at += 1;
    }
    unknown
}

} // verus!
