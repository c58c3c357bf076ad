//! Who is redrawn when the editor state changes: every component subscribes
//! with a model (all changes, or the changes of one tab), and a write under a
//! model wakes the components that subscribed with that same model.
use vstd::prelude::*;
use std::collections::HashMap;
use vstd::std_specs::hash::spec_hash_map_iter;
use vstd::std_specs::iter::IteratorSpec;

verus! {

/// What a component follows.
#[derive(Clone, Copy, PartialEq, Eq, Debug, Structural)]
pub enum SubscriptionModel {
    All,
    Tab { panel_index: usize, editor_index: usize },
}

impl SubscriptionModel {
    pub fn follow_tab(panel: usize, editor: usize) -> (model: Self)
        ensures
            model == (SubscriptionModel::Tab { panel_index: panel, editor_index: editor }),
    {
        SubscriptionModel::Tab { panel_index: panel, editor_index: editor }
    }
}

/// The components that subscribed, each known by the id of its scope, with
/// the model it follows.
pub struct Subscribers {
    models: HashMap<u64, SubscriptionModel>,
}

/// The scopes that follow `model`.
pub open spec fn followers(models: Map<u64, SubscriptionModel>, model: SubscriptionModel) -> Set<u64> {
    Set::new(|scope: u64| models.contains_key(scope) && models[scope] == model)
}

impl Subscribers {
    /// The model that each subscribed scope follows.
    pub closed spec fn models(&self) -> Map<u64, SubscriptionModel> {
        self.models@
    }

    /// The first subscriber: the scope that owns the state, following everything.
    pub fn new(scope: u64) -> (subscribers: Self)
        ensures
            subscribers.models() == Map::<u64, SubscriptionModel>::empty().insert(
                scope,
                SubscriptionModel::All,
            ),
    {
        broadcast use vstd::std_specs::hash::group_hash_axioms;
        let mut models: HashMap<u64, SubscriptionModel> = HashMap::new();
        models.insert(scope, SubscriptionModel::All);
        Subscribers { models }
    }

    /// The model that a scope follows, if it subscribed.
    pub fn model_of(&self, scope: u64) -> (model: Option<SubscriptionModel>)
        ensures
            model == if self.models().contains_key(scope) {
                Some(self.models()[scope])
            } else {
                None::<SubscriptionModel>
            },
    {
        broadcast use vstd::std_specs::hash::group_hash_axioms;
        match self.models.get(&scope) {
            Some(model) => Some(*model),
            None => None,
        }
    }

    /// A scope subscribes with a model (in place of the model it had).
    pub fn subscribe(&mut self, scope: u64, model: SubscriptionModel)
        ensures
            final(self).models() == old(self).models().insert(scope, model),
    {
        broadcast use vstd::std_specs::hash::group_hash_axioms;
        self.models.insert(scope, model);
    }

    /// A subscribed scope now follows `model`; a scope that did not subscribe
    /// stays out.
    pub fn update_model_if_necessary(&mut self, scope: u64, model: SubscriptionModel)
        ensures
            final(self).models() == if old(self).models().contains_key(scope) {
                old(self).models().insert(scope, model)
            } else {
                old(self).models()
            },
    {
        broadcast use vstd::std_specs::hash::group_hash_axioms;
        match self.model_of(scope) {
            Some(current) => {
                if current != model {
                    self.models.insert(scope, model);
                } else {
                    assert(old(self).models().insert(scope, model) =~= old(self).models());
                }
            },
            None => {},
        }
    }

    /// A scope that goes away stops following anything.
    pub fn unsubscribe(&mut self, scope: u64)
        ensures
            final(self).models() == old(self).models().remove(scope),
    {
        broadcast use vstd::std_specs::hash::group_hash_axioms;
        self.models.remove(&scope);
    }

    /// The scopes that a write under `model` wakes: each scope that follows
    /// that same model, once, in the order in which the map is walked.
    pub fn to_notify(&self, model: SubscriptionModel) -> (scopes: Vec<u64>)
        ensures
            scopes@.no_duplicates(),
            scopes@.to_set() == followers(self.models(), model),
    {
        broadcast use vstd::std_specs::hash::group_hash_axioms;
        let mut scopes: Vec<u64> = Vec::new();
        let ghost m = self.models@;
        let ghost all = spec_hash_map_iter(&self.models).remaining();
        for (scope, scope_model) in it: self.models.iter()
            invariant
                m == self.models@,
                it.seq() == all,
                it.seq().unref().to_set() == m.kv_pairs(),
                it.seq().no_duplicates(),
                scopes@.no_duplicates(),
                forall|s: u64| #[trigger] scopes@.contains(s) <==> exists|i: int|
                    0 <= i < it.index() && *it.seq()[i].0 == s && *it.seq()[i].1 == model,
        {
            let ghost idx = it.index();
            let ghost before = scopes@;
            if *scope_model == model {
                proof {
                    if before.contains(*scope) {
                        let i = choose|i: int|
                            0 <= i < idx && *it.seq()[i].0 == *scope && *it.seq()[i].1 == model;
                        assert(it.seq()[i] == it.seq()[idx]);
                        assert(false);
                    }
                }
                scopes.push(*scope);
                proof {
                    assert forall|s: u64| #[trigger] scopes@.contains(s) <==> exists|i: int|
                        0 <= i < idx + 1 && *it.seq()[i].0 == s && *it.seq()[i].1 == model by {
                        if scopes@.contains(s) {
                            let j = choose|j: int| 0 <= j < scopes@.len() && scopes@[j] == s;
                            if j < before.len() {
                                assert(before[j] == s);
                                assert(before.contains(s));
                            } else {
                                assert(*it.seq()[idx].0 == s);
                            }
                        }
                        if exists|i: int| 0 <= i < idx + 1 && *it.seq()[i].0 == s && *it.seq()[i].1 == model {
                            let i = choose|i: int|
                                0 <= i < idx + 1 && *it.seq()[i].0 == s && *it.seq()[i].1 == model;
                            if i < idx {
                                assert(before.contains(s));
                                let j = choose|j: int| 0 <= j < before.len() && before[j] == s;
                                assert(scopes@[j] == s);
                            } else {
                                assert(scopes@[before.len() as int] == s);
                            }
                        }
                    }
                }
            } else {
                proof {
                    assert forall|s: u64| #[trigger] scopes@.contains(s) <==> exists|i: int|
                        0 <= i < idx + 1 && *it.seq()[i].0 == s && *it.seq()[i].1 == model by {
                        if exists|i: int| 0 <= i < idx + 1 && *it.seq()[i].0 == s && *it.seq()[i].1 == model {
                            let i = choose|i: int|
                                0 <= i < idx + 1 && *it.seq()[i].0 == s && *it.seq()[i].1 == model;
                            assert(i != idx);
                        }
                    }
                }
            }
        }
        proof {
            assert forall|s: u64| #[trigger] scopes@.to_set().contains(s) <==> followers(m, model).contains(s) by {
                let pairs = all.unref();
                if scopes@.contains(s) {
                    let i = choose|i: int| 0 <= i < all.len() && *all[i].0 == s && *all[i].1 == model;
                    assert(pairs[i] == (s, model));
                    assert(pairs.to_set().contains((s, model)));
                }
                if followers(m, model).contains(s) {
                    assert(m.kv_pairs().contains((s, model)));
                    assert(pairs.to_set().contains((s, model)));
                    let i = choose|i: int| 0 <= i < pairs.len() && pairs[i] == (s, model);
                    assert(*all[i].0 == s && *all[i].1 == model);
                    assert(scopes@.contains(s));
                }
            }
            assert(scopes@.to_set() =~= followers(m, model));
        }
        scopes
    }
}

/// A scope that subscribes with a model is woken by writes under that model
/// and by no other; a scope that unsubscribes is woken by none.
pub proof fn law_subscription_decides_notification(
    models: Map<u64, SubscriptionModel>,
    scope: u64,
    model: SubscriptionModel,
    other: SubscriptionModel,
)
    ensures
        followers(models.insert(scope, model), model).contains(scope),
        other != model ==> !followers(models.insert(scope, model), other).contains(scope),
        !followers(models.remove(scope), other).contains(scope),
{
}

} // verus!
