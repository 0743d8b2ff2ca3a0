use vstd::prelude::*;

verus! {

/// A global binding that a script chunk defines: a name and the engine's
/// function value it refers to.
pub struct Binding {
    pub name: String,
    pub function: u64,
}

/// The globals after a chunk's definitions have run, in order: a later
/// definition of a name overwrites an earlier one, and names the chunk does
/// not touch keep their binding.
pub open spec fn apply_chunk(m: Map<Seq<char>, u64>, defs: Seq<Binding>) -> Map<Seq<char>, u64>
    decreases defs.len(),
{
    if defs.len() == 0 {
        m
    } else {
        apply_chunk(m, defs.drop_last()).insert(defs.last().name@, defs.last().function)
    }
}

/// What a chunk binds, on its own.
pub open spec fn chunk_bindings(defs: Seq<Binding>) -> Map<Seq<char>, u64> {
    apply_chunk(Map::empty(), defs)
}

/// The script-global namespace: the functions that scripts have defined, by
/// name.
pub struct ScriptGlobals {
    bindings: Vec<Binding>,
}

impl ScriptGlobals {
    /// Names are bound at most once.
    pub closed spec fn wf(&self) -> bool {
        forall|i: int, j: int|
            0 <= i < self.bindings@.len() && 0 <= j < self.bindings@.len() && i != j
                ==> self.bindings@[i].name@ != self.bindings@[j].name@
    }

    /// The bound functions by name.
    pub closed spec fn view(&self) -> Map<Seq<char>, u64> {
        Map::new(
            |n: Seq<char>|
                exists|i: int| 0 <= i < self.bindings@.len() && self.bindings@[i].name@ == n,
            |n: Seq<char>|
                self.bindings@[choose|i: int|
                    0 <= i < self.bindings@.len() && self.bindings@[i].name@ == n].function,
        )
    }

    proof fn lemma_view_at(&self, i: int)
        requires
            self.wf(),
            0 <= i < self.bindings@.len(),
        ensures
            self@.contains_key(self.bindings@[i].name@),
            self@[self.bindings@[i].name@] == self.bindings@[i].function,
    {
        let n = self.bindings@[i].name@;
        assert(exists|j: int| 0 <= j < self.bindings@.len() && self.bindings@[j].name@ == n);
        let j = choose|j: int| 0 <= j < self.bindings@.len() && self.bindings@[j].name@ == n;
        assert(j == i);
    }

    /// A namespace with nothing defined.
    pub fn new() -> (r: ScriptGlobals)
        ensures
            r.wf(),
            r@ == Map::<Seq<char>, u64>::empty(),
    {
        let r = ScriptGlobals { bindings: Vec::new() };
        assert(r@ =~= Map::<Seq<char>, u64>::empty());
        r
    }

    fn find(&self, name: &String) -> (r: Option<usize>)
        requires
            self.wf(),
        ensures
            match r {
                Some(i) => i < self.bindings@.len() && self.bindings@[i as int].name@ == name@,
                None => !self@.contains_key(name@),
            },
    {
        let mut i: usize = 0;
        while i < self.bindings.len()
            invariant
                0 <= i <= self.bindings@.len(),
                forall|j: int| 0 <= j < i ==> self.bindings@[j].name@ != name@,
            decreases self.bindings@.len() - i,
        {
            if self.bindings[i].name == *name {
                return Some(i);
            }
            i = i + 1;
        }
        None
    }

    /// The function bound to `name`, if any.
    pub fn lookup(&self, name: &String) -> (r: Option<u64>)
        requires
            self.wf(),
        ensures
            r == (if self@.contains_key(name@) {
                Some(self@[name@])
            } else {
                None::<u64>
            }),
    {
        match self.find(name) {
            Some(i) => {
                proof {
                    self.lemma_view_at(i as int);
                }
                Some(self.bindings[i].function)
            },
            None => None,
        }
    }

    /// Binds `b.name` to `b.function`, replacing any earlier binding.
    pub fn define(&mut self, b: Binding)
        requires
            old(self).wf(),
        ensures
            final(self).wf(),
            final(self)@ == old(self)@.insert(b.name@, b.function),
    {
        let ghost before = *self;
        let ghost name = b.name@;
        let ghost function = b.function;
        match self.find(&b.name) {
            Some(i) => {
                self.bindings[i] = b;
                proof {
                    let after = *self;
                    assert(after.bindings@ == before.bindings@.update(i as int, b));
                    assert(after.wf()) by {
                        assert forall|p: int, q: int|
                            0 <= p < after.bindings@.len() && 0 <= q < after.bindings@.len() && p
                                != q implies after.bindings@[p].name@
                            != after.bindings@[q].name@ by {
                            assert(after.bindings@[p].name@ == before.bindings@[p].name@);
                            assert(after.bindings@[q].name@ == before.bindings@[q].name@);
                        }
                    }
                    lemma_replaced(before, after, i as int);
                }
            },
            None => {
                self.bindings.push(b);
                proof {
                    let after = *self;
                    let n = before.bindings@.len() as int;
                    assert forall|p: int, q: int|
                        0 <= p < after.bindings@.len() && 0 <= q < after.bindings@.len() && p
                            != q implies after.bindings@[p].name@
                        != after.bindings@[q].name@ by {
                        if p == n {
                            assert(after.bindings@[q] == before.bindings@[q]);
                            if before.bindings@[q].name@ == name {
                                before.lemma_view_at(q);
                            }
                        } else if q == n {
                            assert(after.bindings@[p] == before.bindings@[p]);
                            if before.bindings@[p].name@ == name {
                                before.lemma_view_at(p);
                            }
                        } else {
                            assert(after.bindings@[p] == before.bindings@[p]);
                            assert(after.bindings@[q] == before.bindings@[q]);
                        }
                    }
                    lemma_pushed(before, after);
                }
            },
        }
    }

    /// Runs the definitions of a chunk, in order. The namespace passes from
    /// its old bindings to the new ones in this one call.
    pub fn execute_chunk(&mut self, defs: Vec<Binding>)
        requires
            old(self).wf(),
        ensures
            final(self).wf(),
            final(self)@ == apply_chunk(old(self)@, defs@),
    {
        let ghost start = self@;
        let ghost all = defs@;
        let mut rest = defs;
        let total = rest.len();
        let mut k: usize = 0;
        while rest.len() > 0
            invariant
                self.wf(),
                rest@.len() + k == all.len(),
                all.len() == total,
                rest@ == all.skip(k as int),
                self@ == apply_chunk(start, all.take(k as int)),
            decreases rest@.len(),
        {
            let b = rest.remove(0);
            proof {
                assert(b == all[k as int]);
                assert(all.take(k as int + 1).drop_last() =~= all.take(k as int));
                assert(rest@ =~= all.skip(k as int + 1));
            }
            self.define(b);
            k = k + 1;
        }
        proof {
            assert(all.take(k as int) =~= all);
        }
    }
}

proof fn lemma_replaced(a: ScriptGlobals, b: ScriptGlobals, i: int)
    requires
        a.wf(),
        b.wf(),
        0 <= i < a.bindings@.len(),
        a.bindings@.len() == b.bindings@.len(),
        forall|j: int| 0 <= j < a.bindings@.len() ==> a.bindings@[j].name@ == b.bindings@[j].name@,
        forall|j: int| 0 <= j < a.bindings@.len() && j != i ==> a.bindings@[j] == b.bindings@[j],
    ensures
        b@ == a@.insert(b.bindings@[i].name@, b.bindings@[i].function),
{
    let rhs = a@.insert(b.bindings@[i].name@, b.bindings@[i].function);
    assert forall|n: Seq<char>| b@.contains_key(n) == rhs.contains_key(n) by {
        if b@.contains_key(n) {
            let j = choose|j: int| 0 <= j < b.bindings@.len() && b.bindings@[j].name@ == n;
            a.lemma_view_at(j);
        }
        if a@.contains_key(n) {
            let j = choose|j: int| 0 <= j < a.bindings@.len() && a.bindings@[j].name@ == n;
            b.lemma_view_at(j);
        }
        b.lemma_view_at(i);
    }
    assert forall|n: Seq<char>| #[trigger] b@.contains_key(n) implies b@[n] == rhs[n] by {
        let j = choose|j: int| 0 <= j < b.bindings@.len() && b.bindings@[j].name@ == n;
        a.lemma_view_at(j);
        b.lemma_view_at(j);
    }
    assert(b@ =~= rhs);
}

proof fn lemma_pushed(a: ScriptGlobals, b: ScriptGlobals)
    requires
        a.wf(),
        b.wf(),
        b.bindings@.len() == a.bindings@.len() + 1,
        forall|j: int| 0 <= j < a.bindings@.len() ==> a.bindings@[j] == b.bindings@[j],
    ensures
        b@ == a@.insert(
            b.bindings@[a.bindings@.len() as int].name@,
            b.bindings@[a.bindings@.len() as int].function,
        ),
{
    let n = a.bindings@.len() as int;
    let rhs = a@.insert(b.bindings@[n].name@, b.bindings@[n].function);
    assert forall|s: Seq<char>| b@.contains_key(s) == rhs.contains_key(s) by {
        if b@.contains_key(s) {
            let j = choose|j: int| 0 <= j < b.bindings@.len() && b.bindings@[j].name@ == s;
            if j < n {
                a.lemma_view_at(j);
            }
        }
        if a@.contains_key(s) {
            let j = choose|j: int| 0 <= j < a.bindings@.len() && a.bindings@[j].name@ == s;
            b.lemma_view_at(j);
        }
        b.lemma_view_at(n);
    }
    assert forall|s: Seq<char>| #[trigger] b@.contains_key(s) implies b@[s] == rhs[s] by {
        let j = choose|j: int| 0 <= j < b.bindings@.len() && b.bindings@[j].name@ == s;
        b.lemma_view_at(j);
        if j < n {
            a.lemma_view_at(j);
        }
    }
    assert(b@ =~= rhs);
}

} // verus!
