use vstd::prelude::*;
use crate::text::{str_chars, chars_eq};

verus! {

/// The set of names held by a sequence of strings.
pub open spec fn name_set(v: Seq<String>) -> Set<Seq<char>> {
    Set::new(|n: Seq<char>| exists|i: int| 0 <= i < v.len() && v[i]@ == n)
}

/// No name occurs twice.
pub open spec fn distinct_names(v: Seq<String>) -> bool {
    forall|i: int, j: int| 0 <= i < j < v.len() ==> v[i]@ != v[j]@
}

/// Whether two string slices hold the same characters.
pub fn str_eq(a: &str, b: &str) -> (r: bool)
    ensures
        r == (a@ == b@),
{
    let x = str_chars(a);
    let y = str_chars(b);
    chars_eq(x.as_slice(), y.as_slice())
}

/// Position of `name` among `v`, if it occurs.
fn position_of(v: &Vec<String>, name: &str) -> (r: Option<usize>)
    ensures
        match r {
            Some(i) => i < v@.len() && v@[i as int]@ == name@,
            None => !name_set(v@).contains(name@),
        },
{
    let mut k: usize = 0;
    while k < v.len()
        invariant
            k <= v@.len(),
            forall|m: int| 0 <= m < k ==> v@[m]@ != name@,
        decreases v@.len() - k,
    {
        if str_eq(v[k].as_str(), name) {
            return Some(k);
        }
        k = k + 1;
    }
    None
}

/// A row of algebraic effects: a set of effect names.
#[derive(Debug)]
pub struct EffectRow {
    effects: Vec<String>,
}

impl View for EffectRow {
    type V = Set<Seq<char>>;

    closed spec fn view(&self) -> Set<Seq<char>> {
        name_set(self.effects@)
    }
}

impl EffectRow {
    #[verifier::type_invariant]
    spec fn inv(self) -> bool {
        distinct_names(self.effects@)
    }

    pub fn new() -> (r: Self)
        ensures
            r@ == Set::<Seq<char>>::empty(),
    {
        let r = EffectRow { effects: Vec::new() };
        assert(r@ =~= Set::<Seq<char>>::empty());
        r
    }

    pub fn insert(&mut self, effect: String)
        ensures
            final(self)@ == old(self)@.insert(effect@),
    {
        proof {
            use_type_invariant(&*self);
        }
        let ghost before = self.effects@;
        match position_of(&self.effects, effect.as_str()) {
            Some(_) => {
                assert(name_set(before).insert(effect@) =~= name_set(before));
            },
            None => {
                let mut v: Vec<String> = Vec::new();
                std::mem::swap(&mut v, &mut self.effects);
                v.push(effect);
                assert(distinct_names(v@));
                assert(name_set(v@) =~= name_set(before).insert(effect@)) by {
                    assert forall|n: Seq<char>| name_set(v@).contains(n) implies name_set(before).insert(effect@).contains(n) by {
                        let i = choose|i: int| 0 <= i < v@.len() && v@[i]@ == n;
                        if i < before.len() {
                            assert(before[i]@ == n);
                        }
                    }
                    assert forall|n: Seq<char>| name_set(before).insert(effect@).contains(n) implies name_set(v@).contains(n) by {
                        if n == effect@ {
                            assert(v@[before.len() as int]@ == n);
                        } else {
                            let i = choose|i: int| 0 <= i < before.len() && before[i]@ == n;
                            assert(v@[i]@ == n);
                        }
                    }
                }
                self.effects = v;
            },
        }
    }

    pub fn from_slice(effects: &[String]) -> (r: Self)
        ensures
            r@ == Set::new(|n: Seq<char>| exists|i: int| 0 <= i < effects@.len() && effects@[i]@ == n),
    {
        let mut row = Self::new();
        let mut k: usize = 0;
        while k < effects.len()
            invariant
                k <= effects@.len(),
                row@ == name_set(effects@.subrange(0, k as int)),
            decreases effects@.len() - k,
        {
            let ghost before = row@;
            row.insert(effects[k].clone());
            assert(name_set(effects@.subrange(0, k + 1)) =~= before.insert(effects@[k as int]@)) by {
                let s0 = effects@.subrange(0, k as int);
                let s1 = effects@.subrange(0, k + 1);
                assert forall|n: Seq<char>| name_set(s1).contains(n) implies before.insert(effects@[k as int]@).contains(n) by {
                    let i = choose|i: int| 0 <= i < s1.len() && s1[i]@ == n;
                    if i < k {
                        assert(s0[i]@ == n);
                    }
                }
                assert forall|n: Seq<char>| before.insert(effects@[k as int]@).contains(n) implies name_set(s1).contains(n) by {
                    if n == effects@[k as int]@ {
                        assert(s1[k as int]@ == n);
                    } else {
                        let i = choose|i: int| 0 <= i < s0.len() && s0[i]@ == n;
                        assert(s1[i]@ == n);
                    }
                }
            }
            k = k + 1;
        }
        assert(effects@.subrange(0, effects@.len() as int) =~= effects@);
        row
    }

    /// Removes an effect; returns whether it was present.
    pub fn remove(&mut self, effect: &str) -> (r: bool)
        ensures
            r == old(self)@.contains(effect@),
            final(self)@ == old(self)@.remove(effect@),
    {
        proof {
            use_type_invariant(&*self);
        }
        let ghost before = self.effects@;
        match position_of(&self.effects, effect) {
            Some(i) => {
                let mut v: Vec<String> = Vec::new();
                std::mem::swap(&mut v, &mut self.effects);
                v.remove(i);
                assert(v@ =~= before.remove(i as int));
                assert(distinct_names(v@)) by {
                    assert forall|a: int, b: int| 0 <= a < b < v@.len() implies v@[a]@ != v@[b]@ by {
                        let a0 = if a < i { a } else { a + 1 };
                        let b0 = if b < i { b } else { b + 1 };
                        assert(v@[a] == before[a0]);
                        assert(v@[b] == before[b0]);
                    }
                }
                assert(name_set(v@) =~= name_set(before).remove(effect@)) by {
                    assert forall|n: Seq<char>| name_set(v@).contains(n) implies name_set(before).remove(effect@).contains(n) by {
                        let j = choose|j: int| 0 <= j < v@.len() && v@[j]@ == n;
                        let j0 = if j < i { j } else { j + 1 };
                        assert(before[j0]@ == n);
                        assert(j0 != i);
                    }
                    assert forall|n: Seq<char>| name_set(before).remove(effect@).contains(n) implies name_set(v@).contains(n) by {
                        let j = choose|j: int| 0 <= j < before.len() && before[j]@ == n;
                        assert(j != i);
                        let j1 = if j < i { j } else { j - 1 };
                        assert(v@[j1]@ == n);
                    }
                }
                self.effects = v;
                true
            },
            None => {
                assert(name_set(before).remove(effect@) =~= name_set(before));
                false
            },
        }
    }

    pub fn is_empty(&self) -> (r: bool)
        ensures
            r == (self@ == Set::<Seq<char>>::empty()),
    {
        if self.effects.len() == 0 {
            assert(self@ =~= Set::<Seq<char>>::empty());
            true
        } else {
            assert(self@.contains(self.effects@[0]@));
            false
        }
    }

    /// Whether the row holds `effect`.
    pub fn contains(&self, effect: &str) -> (r: bool)
        ensures
            r == self@.contains(effect@),
    {
        position_of(&self.effects, effect).is_some()
    }

    /// Adds every effect of `other`.
    pub fn union_with(&mut self, other: &EffectRow)
        ensures
            final(self)@ == old(self)@.union(other@),
    {
        let ghost start = self@;
        let mut k: usize = 0;
        while k < other.effects.len()
            invariant
                k <= other.effects@.len(),
                self@ == start.union(name_set(other.effects@.subrange(0, k as int))),
            decreases other.effects@.len() - k,
        {
            let ghost before = self@;
            self.insert(other.effects[k].clone());
            assert(start.union(name_set(other.effects@.subrange(0, k + 1))) =~= before.insert(
                other.effects@[k as int]@,
            )) by {
                let s0 = other.effects@.subrange(0, k as int);
                let s1 = other.effects@.subrange(0, k + 1);
                assert forall|n: Seq<char>| name_set(s1).contains(n) implies name_set(s0).contains(n) || n == other.effects@[k as int]@ by {
                    let i = choose|i: int| 0 <= i < s1.len() && s1[i]@ == n;
                    if i < k {
                        assert(s0[i]@ == n);
                    }
                }
                assert forall|n: Seq<char>| name_set(s0).contains(n) implies name_set(s1).contains(n) by {
                    let i = choose|i: int| 0 <= i < s0.len() && s0[i]@ == n;
                    assert(s1[i]@ == n);
                }
                assert(s1[k as int]@ == other.effects@[k as int]@);
            }
            k = k + 1;
        }
        assert(other.effects@.subrange(0, other.effects@.len() as int) =~= other.effects@);
    }

    /// The effects of this row that `handled` does not name.
    pub fn diff(&self, handled: &[String]) -> (r: EffectRow)
        ensures
            r@ == self@.difference(name_set(handled@)),
    {
        let mut rem = Self::new();
        let mut k: usize = 0;
        while k < self.effects.len()
            invariant
                k <= self.effects@.len(),
                rem@ == name_set(self.effects@.subrange(0, k as int)).difference(name_set(handled@)),
            decreases self.effects@.len() - k,
        {
            let ghost before = rem@;
            let eff = &self.effects[k];
            let mut found = false;
            let mut j: usize = 0;
            while j < handled.len()
                invariant
                    j <= handled@.len(),
                    found == exists|m: int| 0 <= m < j && handled@[m]@ == eff@,
                decreases handled@.len() - j,
            {
                if handled[j] == *eff {
                    found = true;
                }
                j = j + 1;
            }
            if !found {
                rem.insert(eff.clone());
            }
            assert(name_set(self.effects@.subrange(0, k + 1)).difference(name_set(handled@)) =~= (if found {
                before
            } else {
                before.insert(eff@)
            })) by {
                let s0 = self.effects@.subrange(0, k as int);
                let s1 = self.effects@.subrange(0, k + 1);
                assert(s1[k as int]@ == eff@);
                assert forall|n: Seq<char>| name_set(s1).contains(n) implies name_set(s0).contains(n) || n == eff@ by {
                    let i = choose|i: int| 0 <= i < s1.len() && s1[i]@ == n;
                    if i < k {
                        assert(s0[i]@ == n);
                    }
                }
                assert forall|n: Seq<char>| name_set(s0).contains(n) implies name_set(s1).contains(n) by {
                    let i = choose|i: int| 0 <= i < s0.len() && s0[i]@ == n;
                    assert(s1[i]@ == n);
                }
            }
            k = k + 1;
        }
        assert(self.effects@.subrange(0, self.effects@.len() as int) =~= self.effects@);
        rem
    }
}

impl Default for EffectRow {
    fn default() -> (r: Self)
        ensures
            r@ == Set::<Seq<char>>::empty(),
    {
        Self::new()
    }
}

/// Removing an effect that was just inserted gives back the row, when the effect was
/// not in it before.
pub proof fn law_insert_remove(row: Set<Seq<char>>, e: Seq<char>)
    requires
        !row.contains(e),
    ensures
        row.insert(e).remove(e) == row,
{
    assert(row.insert(e).remove(e) =~= row);
}

/// `diff` leaves nothing that `handled` names, and only effects of the row.
pub proof fn law_diff_disjoint(row: Set<Seq<char>>, handled: Set<Seq<char>>, e: Seq<char>)
    ensures
        row.difference(handled).contains(e) <==> (row.contains(e) && !handled.contains(e)),
{
}

/// Union then difference by the same handled set equals difference of each part.
pub proof fn law_union_diff(a: Set<Seq<char>>, b: Set<Seq<char>>, h: Set<Seq<char>>)
    ensures
        a.union(b).difference(h) == a.difference(h).union(b.difference(h)),
{
    assert(a.union(b).difference(h) =~= a.difference(h).union(b.difference(h)));
}

} // verus!
