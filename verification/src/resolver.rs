//! The decisions of Forge's dependency resolver: a depth-first walk of the
//! dependency graph that refuses a package reached again while it is still
//! being resolved, skips one already resolved, and lists the packages in an
//! order where each comes after its dependencies.
//!
//! Reading manifests, checking version requirements and computing checksums
//! are the caller's part: the caller enters a package before walking its
//! dependencies and finishes it after them.
use vstd::prelude::*;
use crate::text::{chars_eq, dv, extend_chars, extend_lit, join, join_exec, str_chars, string_of};

verus! {

/// What the walk knows: no package is being resolved twice, none is listed
/// twice, and none is both.
pub open spec fn walk_consistent(visiting: Seq<Seq<char>>, order: Seq<Seq<char>>) -> bool {
    &&& visiting.no_duplicates()
    &&& order.no_duplicates()
    &&& forall|i: int, j: int| 0 <= i < visiting.len() && 0 <= j < order.len() ==> #[trigger] visiting[i] != #[trigger] order[j]
}

/// The error for reaching `id` again while `visiting` is being resolved:
/// the path of packages, then `id` closing the cycle.
pub open spec fn cycle_message(visiting: Seq<Seq<char>>, id: Seq<char>) -> Seq<char> {
    "Circular dependency detected: "@ + join(visiting, " -> "@) + " -> "@ + id
}

/// Entering package `id`: a cycle where it is being resolved, nothing to do
/// where it was resolved, else it is being resolved from now on.
pub open spec fn enter_spec(visiting: Seq<Seq<char>>, order: Seq<Seq<char>>, id: Seq<char>) -> (
    Result<bool, Seq<char>>,
    Seq<Seq<char>>,
) {
    if visiting.contains(id) {
        (Err(cycle_message(visiting, id)), visiting)
    } else if order.contains(id) {
        (Ok(false), visiting)
    } else {
        (Ok(true), visiting.push(id))
    }
}

/// The walk: the packages being resolved, innermost last, and the packages
/// resolved, in build order.
pub struct ResolveWalk {
    visiting: Vec<Vec<char>>,
    order: Vec<Vec<char>>,
}

impl ResolveWalk {
    #[verifier::type_invariant]
    spec fn inv(self) -> bool {
        walk_consistent(dv(self.visiting@), dv(self.order@))
    }

    /// The packages being resolved, innermost last.
    pub closed spec fn visiting(&self) -> Seq<Seq<char>> {
        dv(self.visiting@)
    }

    /// The packages resolved, each after its dependencies.
    pub closed spec fn order(&self) -> Seq<Seq<char>> {
        dv(self.order@)
    }

    /// A walk that has entered no package.
    pub fn new() -> (r: Self)
        ensures
            r.visiting() == Seq::<Seq<char>>::empty(),
            r.order() == Seq::<Seq<char>>::empty(),
    {
        let r = ResolveWalk { visiting: Vec::new(), order: Vec::new() };
        assert(dv(r.visiting@) =~= Seq::<Seq<char>>::empty());
        assert(dv(r.order@) =~= Seq::<Seq<char>>::empty());
        r
    }

    /// Whether `names` holds `id`.
    fn holds(names: &Vec<Vec<char>>, id: &[char]) -> (r: bool)
        ensures
            r == dv(names@).contains(id@),
    {
        let mut k: usize = 0;
        while k < names.len()
            invariant
                k <= names@.len(),
                forall|m: int| 0 <= m < k ==> names@[m]@ != id@,
            decreases names@.len() - k,
        {
            if chars_eq(names[k].as_slice(), id) {
                assert(dv(names@)[k as int] == id@);
                return true;
            }
            k = k + 1;
        }
        proof {
            if dv(names@).contains(id@) {
                let i = choose|i: int| 0 <= i < dv(names@).len() && dv(names@)[i] == id@;
                assert(names@[i]@ == id@);
            }
        }
        false
    }

    /// Enters package `id` before its dependencies are walked: `Err` with
    /// the cycle where `id` is being resolved, `Ok(false)` where it was
    /// resolved already, and `Ok(true)` where it is to be resolved now.
    pub fn enter(&mut self, id: &str) -> (r: Result<bool, String>)
        ensures
            (match r {
                Ok(b) => Ok(b),
                Err(m) => Err(m@),
            }, final(self).visiting()) == enter_spec(old(self).visiting(), old(self).order(), id@),
            final(self).order() == old(self).order(),
            walk_consistent(final(self).visiting(), final(self).order()),
    {
        proof {
            use_type_invariant(&*self);
        }
        let idc = str_chars(id);
        if Self::holds(&self.visiting, idc.as_slice()) {
            let path = join_exec(self.visiting.as_slice(), str_chars(" -> ").as_slice());
            let mut msg = str_chars("Circular dependency detected: ");
            extend_chars(&mut msg, path.as_slice());
            extend_lit(&mut msg, " -> ");
            extend_chars(&mut msg, idc.as_slice());
            assert(msg@ =~= cycle_message(self.visiting(), id@));
            return Err(string_of(msg.as_slice()));
        }
        if Self::holds(&self.order, idc.as_slice()) {
            return Ok(false);
        }
        proof {
            assert forall|j: int| 0 <= j < self.order().len() implies self.order()[j] != id@ by {
                if self.order()[j] == id@ {
                    assert(self.order().contains(id@));
                }
            }
            assert forall|j: int| 0 <= j < self.visiting().len() implies self.visiting()[j] != id@ by {
                if self.visiting()[j] == id@ {
                    assert(self.visiting().contains(id@));
                }
            }
        }
        let mut vis: Vec<Vec<char>> = Vec::new();
        std::mem::swap(&mut vis, &mut self.visiting);
        vis.push(idc);
        assert(dv(vis@) =~= dv(old(self).visiting@).push(id@));
        self.visiting = vis;
        Ok(true)
    }

    /// Finishes package `id`, the one entered last, once its dependencies
    /// are resolved: it is resolved, and comes next in the build order.
    pub fn finish(&mut self, id: &str)
        requires
            old(self).visiting().len() > 0,
            old(self).visiting().last() == id@,
        ensures
            final(self).visiting() == old(self).visiting().drop_last(),
            final(self).order() == old(self).order().push(id@),
            walk_consistent(final(self).visiting(), final(self).order()),
    {
        proof {
            use_type_invariant(&*self);
        }
        let ghost vis0 = self.visiting();
        let ghost ord0 = self.order();
        let mut vis: Vec<Vec<char>> = Vec::new();
        std::mem::swap(&mut vis, &mut self.visiting);
        let mut ord: Vec<Vec<char>> = Vec::new();
        std::mem::swap(&mut ord, &mut self.order);
        assert(dv(vis@) == vis0);
        assert(dv(ord@) == ord0);
        let top = vis.pop();
        assert(dv(vis@) =~= vis0.drop_last());
        match top {
            Some(t) => {
                proof {
                    assert forall|j: int| 0 <= j < ord0.len() implies ord0[j] != id@ by {
                        assert(vis0[vis0.len() - 1] != ord0[j]);
                    }
                    assert forall|j: int| 0 <= j < vis0.len() - 1 implies vis0[j] != id@ by {
                        assert(vis0[j] != vis0[vis0.len() - 1]);
                    }
                }
                ord.push(t);
                assert(dv(ord@) =~= ord0.push(id@));
            },
            None => {},
        }
        self.visiting = vis;
        self.order = ord;
    }

    /// The packages resolved, in build order.
    pub fn build_order(&self) -> (r: Vec<String>)
        ensures
            r@.len() == self.order().len(),
            forall|i: int| 0 <= i < r@.len() ==> (#[trigger] r@[i])@ == self.order()[i],
    {
        let mut r: Vec<String> = Vec::new();
        let mut k: usize = 0;
        while k < self.order.len()
            invariant
                k <= self.order@.len(),
                r@.len() == k,
                forall|i: int| 0 <= i < k ==> (#[trigger] r@[i])@ == self.order@[i]@,
            decreases self.order@.len() - k,
        {
            r.push(string_of(self.order[k].as_slice()));
            k = k + 1;
        }
        r
    }
}

/// Entering a package while it is being resolved is refused, whatever was
/// resolved before, and the error names the whole cycle.
pub proof fn law_reentry_is_a_cycle(visiting: Seq<Seq<char>>, order: Seq<Seq<char>>, i: int)
    requires
        0 <= i < visiting.len(),
    ensures
        enter_spec(visiting, order, visiting[i]) == (
            Err::<bool, Seq<char>>(cycle_message(visiting, visiting[i])),
            visiting,
        ),
{
    assert(visiting.contains(visiting[i]));
}

/// Entering a package that was resolved and is not being resolved changes
/// nothing: each package is resolved once.
pub proof fn law_resolved_once(visiting: Seq<Seq<char>>, order: Seq<Seq<char>>, id: Seq<char>)
    requires
        order.contains(id),
        !visiting.contains(id),
    ensures
        enter_spec(visiting, order, id) == (Ok::<bool, Seq<char>>(false), visiting),
{
}

} // verus!
