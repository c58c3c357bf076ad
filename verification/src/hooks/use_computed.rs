//! A value computed from dependencies, kept until the dependencies change.
use vstd::prelude::*;
use vstd::std_specs::cmp::PartialEqSpec;

verus! {

/// The last computed value and the dependencies it was computed from.
pub struct Memoized<T, D> {
    pub value: T,
    pub deps: D,
}

impl<T, D: PartialEq + Clone> Memoized<T, D> {
    /// Computes the value from the dependencies and keeps a copy of them.
    pub fn new<F: Fn(&D) -> T>(deps: &D, init: F) -> (memo: Self)
        requires
            call_requires(init, (deps,)),
        ensures
            call_ensures(init, (deps,), memo.value),
            cloned(*deps, memo.deps),
    {
        Memoized { value: init(deps), deps: deps.clone() }
    }

    /// Computes the value again, and keeps a copy of the dependencies, when
    /// they differ from those of the last computation; otherwise keeps all.
    pub fn refresh<F: Fn(&D) -> T>(&mut self, deps: &D, init: F)
        requires
            call_requires(init, (deps,)),
        ensures
            *final(self) == *old(self) || (call_ensures(init, (deps,), final(self).value) && cloned(
                *deps,
                final(self).deps,
            )),
            D::obeys_eq_spec() && old(self).deps.eq_spec(deps) ==> *final(self) == *old(self),
            D::obeys_eq_spec() && !old(self).deps.eq_spec(deps) ==> call_ensures(
                init,
                (deps,),
                final(self).value,
            ) && cloned(*deps, final(self).deps),
    {
        let deps_have_changed = !(self.deps == *deps);
        if deps_have_changed {
            self.value = init(deps);
            self.deps = deps.clone();
        }
    }
}

} // verus!
