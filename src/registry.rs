use vstd::prelude::*;
use crate::value::{ValueKind, ScriptValue, kinds_of, args_match};

verus! {

/// What a registered method is: its parameter kinds and the identifier of the
/// native implementation that the host runs for it.
pub struct MethodSig {
    pub params: Seq<ValueKind>,
    pub implementation: u64,
}

/// One method of a native type.
pub struct MethodEntry {
    pub name: String,
    pub params: Vec<ValueKind>,
    pub implementation: u64,
}

/// The methods of one native type.
pub struct TypeEntry {
    pub type_key: u64,
    pub methods: Vec<MethodEntry>,
}

#[derive(PartialEq, Eq, Structural, Clone, Copy, Debug)]
pub enum RegistrationError {
    DuplicateMethod,
}

#[derive(PartialEq, Eq, Structural, Clone, Copy, Debug)]
pub enum DispatchError {
    UnknownMethod,
    ArityOrTypeMismatch,
    UnregisteredType,
}

/// Per native type, the table of methods that scripts may call.
pub struct MethodRegistry {
    types: Vec<TypeEntry>,
}

pub open spec fn entry_sig(m: MethodEntry) -> MethodSig {
    MethodSig { params: m.params@, implementation: m.implementation }
}

pub open spec fn methods_unique(ms: Seq<MethodEntry>) -> bool {
    forall|i: int, j: int|
        0 <= i < ms.len() && 0 <= j < ms.len() && i != j ==> ms[i].name@ != ms[j].name@
}

/// The methods of one type as a map from name to signature.
pub open spec fn methods_view(ms: Seq<MethodEntry>) -> Map<Seq<char>, MethodSig> {
    Map::new(
        |n: Seq<char>| exists|j: int| 0 <= j < ms.len() && ms[j].name@ == n,
        |n: Seq<char>| entry_sig(ms[choose|j: int| 0 <= j < ms.len() && ms[j].name@ == n]),
    )
}

/// The registration of `name` with `sig` on a registry model.
pub open spec fn with_method(
    m: Map<u64, Map<Seq<char>, MethodSig>>,
    key: u64,
    name: Seq<char>,
    sig: MethodSig,
) -> Map<u64, Map<Seq<char>, MethodSig>> {
    let old_methods = if m.contains_key(key) { m[key] } else { Map::empty() };
    m.insert(key, old_methods.insert(name, sig))
}

/// What dispatching `name` with `args` on a type of the registry model yields.
pub open spec fn dispatch_spec(
    m: Map<u64, Map<Seq<char>, MethodSig>>,
    key: u64,
    name: Seq<char>,
    args: Seq<ScriptValue>,
) -> Result<u64, DispatchError> {
    if !m.contains_key(key) {
        Err(DispatchError::UnregisteredType)
    } else if !m[key].contains_key(name) {
        Err(DispatchError::UnknownMethod)
    } else if kinds_of(args) != m[key][name].params {
        Err(DispatchError::ArityOrTypeMismatch)
    } else {
        Ok(m[key][name].implementation)
    }
}

proof fn lemma_methods_view_at(ms: Seq<MethodEntry>, j: int)
    requires
        methods_unique(ms),
        0 <= j < ms.len(),
    ensures
        methods_view(ms).contains_key(ms[j].name@),
        methods_view(ms)[ms[j].name@] == entry_sig(ms[j]),
{
    let n = ms[j].name@;
    assert(exists|k: int| 0 <= k < ms.len() && ms[k].name@ == n);
    let k = choose|k: int| 0 <= k < ms.len() && ms[k].name@ == n;
    assert(k == j);
}

proof fn lemma_methods_view_push(ms: Seq<MethodEntry>, e: MethodEntry)
    requires
        methods_unique(ms),
        !methods_view(ms).contains_key(e.name@),
    ensures
        methods_unique(ms.push(e)),
        methods_view(ms.push(e)) == methods_view(ms).insert(e.name@, entry_sig(e)),
{
    let ns = ms.push(e);
    assert forall|i: int, j: int|
        0 <= i < ns.len() && 0 <= j < ns.len() && i != j implies ns[i].name@ != ns[j].name@ by {
        if i == ms.len() {
            assert(ns[j] == ms[j]);
        } else if j == ms.len() {
            assert(ns[i] == ms[i]);
        }
    }
    let lhs = methods_view(ns);
    let rhs = methods_view(ms).insert(e.name@, entry_sig(e));
    assert forall|n: Seq<char>| lhs.contains_key(n) == rhs.contains_key(n) by {
        if n == e.name@ {
            assert(ns[ms.len() as int].name@ == n);
        } else {
            if rhs.contains_key(n) {
                let k = choose|k: int| 0 <= k < ms.len() && ms[k].name@ == n;
                assert(ns[k] == ms[k]);
                assert(ns[k].name@ == n);
            }
            if lhs.contains_key(n) {
                let k = choose|k: int| 0 <= k < ns.len() && ns[k].name@ == n;
                assert(k != ms.len());
                assert(ns[k] == ms[k]);
                assert(ms[k].name@ == n);
            }
        }
    }
    assert forall|n: Seq<char>| #[trigger] lhs.contains_key(n) implies lhs[n] == rhs[n] by {
        if n == e.name@ {
            lemma_methods_view_at(ns, ms.len() as int);
        } else {
            let k = choose|k: int| 0 <= k < ns.len() && ns[k].name@ == n;
            if k < ms.len() {
                assert(ns[k] == ms[k]);
                lemma_methods_view_at(ns, k);
                lemma_methods_view_at(ms, k);
            }
        }
    }
    assert(lhs =~= rhs);
}

impl MethodRegistry {
    /// Type keys are unique, and method names are unique within each type.
    pub closed spec fn wf(&self) -> bool {
        &&& forall|i: int, j: int|
            0 <= i < self.types@.len() && 0 <= j < self.types@.len() && i != j
                ==> self.types@[i].type_key != self.types@[j].type_key
        &&& forall|i: int|
            0 <= i < self.types@.len() ==> methods_unique(#[trigger] self.types@[i].methods@)
    }

    /// Per type key, the registered methods by name.
    pub closed spec fn view(&self) -> Map<u64, Map<Seq<char>, MethodSig>> {
        Map::new(
            |k: u64| exists|i: int| 0 <= i < self.types@.len() && self.types@[i].type_key == k,
            |k: u64|
                methods_view(
                    self.types@[choose|i: int|
                        0 <= i < self.types@.len() && self.types@[i].type_key == k].methods@,
                ),
        )
    }

    proof fn lemma_view_at(&self, i: int)
        requires
            self.wf(),
            0 <= i < self.types@.len(),
        ensures
            self@.contains_key(self.types@[i].type_key),
            self@[self.types@[i].type_key] == methods_view(self.types@[i].methods@),
    {
        let k = self.types@[i].type_key;
        assert(exists|j: int| 0 <= j < self.types@.len() && self.types@[j].type_key == k);
        let j = choose|j: int| 0 <= j < self.types@.len() && self.types@[j].type_key == k;
        assert(j == i);
    }

    /// An empty registry.
    pub fn new() -> (r: MethodRegistry)
        ensures
            r.wf(),
            r@ == Map::<u64, Map<Seq<char>, MethodSig>>::empty(),
    {
        let r = MethodRegistry { types: Vec::new() };
        assert(r@ =~= Map::<u64, Map<Seq<char>, MethodSig>>::empty());
        r
    }

    /// The position of the type `key` in the table, if it is registered.
    fn find_type(&self, key: u64) -> (r: Option<usize>)
        requires
            self.wf(),
        ensures
            match r {
                Some(i) => i < self.types@.len() && self.types@[i as int].type_key == key,
                None => !self@.contains_key(key),
            },
    {
        let mut i: usize = 0;
        while i < self.types.len()
            invariant
                0 <= i <= self.types@.len(),
                forall|j: int| 0 <= j < i ==> self.types@[j].type_key != key,
            decreases self.types@.len() - i,
        {
            if self.types[i].type_key == key {
                return Some(i);
            }
            i = i + 1;
        }
        None
    }

    /// Whether the type `key` has any registration.
    pub fn has_type(&self, key: u64) -> (r: bool)
        requires
            self.wf(),
        ensures
            r == self@.contains_key(key),
    {
        match self.find_type(key) {
            Some(i) => {
                proof {
                    self.lemma_view_at(i as int);
                }
                true
            },
            None => false,
        }
    }
}

impl MethodRegistry {
    /// Registers `name` on the type `key`. Fails with `DuplicateMethod`, and
    /// changes nothing, where the type already has a method of that name.
    pub fn register(
        &mut self,
        key: u64,
        name: String,
        params: Vec<ValueKind>,
        implementation: u64,
    ) -> (r: Result<(), RegistrationError>)
        requires
            old(self).wf(),
        ensures
            final(self).wf(),
            old(self)@.contains_key(key) && old(self)@[key].contains_key(name@) ==> r == Err::<
                (),
                RegistrationError,
            >(RegistrationError::DuplicateMethod) && final(self)@ == old(self)@,
            !(old(self)@.contains_key(key) && old(self)@[key].contains_key(name@)) ==> r == Ok::<
                (),
                RegistrationError,
            >(()) && final(self)@ == with_method(
                old(self)@,
                key,
                name@,
                (MethodSig { params: params@, implementation }),
            ),
    {
        let ghost old_reg = *self;
        let ghost sig = MethodSig { params: params@, implementation };
        let entry = MethodEntry { name, params, implementation };
        assert(entry_sig(entry) == sig);
        match self.find_type(key) {
            Some(i) => {
                proof {
                    old_reg.lemma_view_at(i as int);
                }
                match find_method(&self.types[i].methods, &entry.name) {
                    Some(j) => {
                        proof {
                            lemma_methods_view_at(old_reg.types@[i as int].methods@, j as int);
                        }
                        return Err(RegistrationError::DuplicateMethod);
                    },
                    None => {},
                }
                let mut t = self.types.remove(i);
                proof {
                    lemma_methods_view_push(t.methods@, entry);
                }
                t.methods.push(entry);
                self.types.insert(i, t);
                proof {
                    assert(self.types@ =~= old_reg.types@.update(i as int, t));
                    let new_reg = *self;
                    assert forall|a: int, b: int|
                        0 <= a < new_reg.types@.len() && 0 <= b < new_reg.types@.len() && a
                            != b implies new_reg.types@[a].type_key
                        != new_reg.types@[b].type_key by {
                        assert(old_reg.types@[a].type_key == new_reg.types@[a].type_key);
                        assert(old_reg.types@[b].type_key == new_reg.types@[b].type_key);
                    }
                    assert forall|a: int| 0 <= a < new_reg.types@.len() implies methods_unique(
                        #[trigger] new_reg.types@[a].methods@,
                    ) by {
                        if a != i {
                            assert(new_reg.types@[a] == old_reg.types@[a]);
                        }
                    }
                    assert(new_reg.wf());
                    lemma_same_keys_view(old_reg, new_reg, i as int);
                    assert(new_reg@ =~= with_method(old_reg@, key, entry.name@, sig));
                }
                Ok(())
            },
            None => {
                let ghost ename = entry.name@;
                let mut methods: Vec<MethodEntry> = Vec::new();
                proof {
                    assert(methods_view(methods@) =~= Map::<Seq<char>, MethodSig>::empty());
                    lemma_methods_view_push(methods@, entry);
                }
                methods.push(entry);
                let t = TypeEntry { type_key: key, methods };
                self.types.push(t);
                proof {
                    let new_reg = *self;
                    assert(new_reg.types@ =~= old_reg.types@.push(t));
                    assert forall|a: int, b: int|
                        0 <= a < new_reg.types@.len() && 0 <= b < new_reg.types@.len() && a
                            != b implies new_reg.types@[a].type_key
                        != new_reg.types@[b].type_key by {
                        if a == old_reg.types@.len() {
                            assert(old_reg.types@[b] == new_reg.types@[b]);
                            if old_reg.types@[b].type_key == key {
                                old_reg.lemma_view_at(b);
                            }
                        } else if b == old_reg.types@.len() {
                            assert(old_reg.types@[a] == new_reg.types@[a]);
                            if old_reg.types@[a].type_key == key {
                                old_reg.lemma_view_at(a);
                            }
                        } else {
                            assert(old_reg.types@[a] == new_reg.types@[a]);
                            assert(old_reg.types@[b] == new_reg.types@[b]);
                        }
                    }
                    assert forall|a: int| 0 <= a < new_reg.types@.len() implies methods_unique(
                        #[trigger] new_reg.types@[a].methods@,
                    ) by {
                        if a < old_reg.types@.len() {
                            assert(new_reg.types@[a] == old_reg.types@[a]);
                        }
                    }
                    assert(new_reg.wf());
                    lemma_pushed_type_view(old_reg, new_reg);
                    assert(new_reg@ =~= with_method(old_reg@, key, ename, sig));
                }
                Ok(())
            },
        }
    }

    /// Resolves a call of `name` with `args` on a receiver of the type `key` to
    /// the registered implementation.
    pub fn dispatch(&self, key: u64, name: &String, args: &Vec<ScriptValue>) -> (r: Result<
        u64,
        DispatchError,
    >)
        requires
            self.wf(),
        ensures
            r == dispatch_spec(self@, key, name@, args@),
    {
        match self.find_type(key) {
            None => Err(DispatchError::UnregisteredType),
            Some(i) => {
                proof {
                    self.lemma_view_at(i as int);
                }
                let ms = &self.types[i].methods;
                match find_method(ms, name) {
                    None => Err(DispatchError::UnknownMethod),
                    Some(j) => {
                        proof {
                            lemma_methods_view_at(ms@, j as int);
                        }
                        if args_match(args, &ms[j].params) {
                            Ok(ms[j].implementation)
                        } else {
                            Err(DispatchError::ArityOrTypeMismatch)
                        }
                    },
                }
            },
        }
    }
}

/// Replacing the entry at `i` by one of the same key changes the view at that
/// key only.
proof fn lemma_same_keys_view(a: MethodRegistry, b: MethodRegistry, i: int)
    requires
        a.wf(),
        b.wf(),
        a.types@.len() == b.types@.len(),
        0 <= i < a.types@.len(),
        forall|j: int| 0 <= j < a.types@.len() ==> a.types@[j].type_key == b.types@[j].type_key,
        forall|j: int| 0 <= j < a.types@.len() && j != i ==> a.types@[j] == b.types@[j],
    ensures
        b@ == a@.insert(a.types@[i].type_key, methods_view(b.types@[i].methods@)),
{
    let rhs = a@.insert(a.types@[i].type_key, methods_view(b.types@[i].methods@));
    assert forall|k: u64| b@.contains_key(k) == rhs.contains_key(k) by {
        if b@.contains_key(k) {
            let j = choose|j: int| 0 <= j < b.types@.len() && b.types@[j].type_key == k;
            a.lemma_view_at(j);
        }
        if a@.contains_key(k) {
            let j = choose|j: int| 0 <= j < a.types@.len() && a.types@[j].type_key == k;
            b.lemma_view_at(j);
        }
        if k == a.types@[i].type_key {
            b.lemma_view_at(i);
        }
    }
    assert forall|k: u64| #[trigger] b@.contains_key(k) implies b@[k] == rhs[k] by {
        let j = choose|j: int| 0 <= j < b.types@.len() && b.types@[j].type_key == k;
        a.lemma_view_at(j);
        b.lemma_view_at(j);
    }
    assert(b@ =~= rhs);
}

/// Appending an entry of a new key adds that key only.
proof fn lemma_pushed_type_view(a: MethodRegistry, b: MethodRegistry)
    requires
        a.wf(),
        b.wf(),
        b.types@.len() == a.types@.len() + 1,
        forall|j: int| 0 <= j < a.types@.len() ==> a.types@[j] == b.types@[j],
    ensures
        b@ == a@.insert(
            b.types@[a.types@.len() as int].type_key,
            methods_view(b.types@[a.types@.len() as int].methods@),
        ),
{
    let n = a.types@.len() as int;
    let rhs = a@.insert(b.types@[n].type_key, methods_view(b.types@[n].methods@));
    assert forall|k: u64| b@.contains_key(k) == rhs.contains_key(k) by {
        if b@.contains_key(k) {
            let j = choose|j: int| 0 <= j < b.types@.len() && b.types@[j].type_key == k;
            if j < n {
                a.lemma_view_at(j);
            }
        }
        if a@.contains_key(k) {
            let j = choose|j: int| 0 <= j < a.types@.len() && a.types@[j].type_key == k;
            b.lemma_view_at(j);
        }
        if k == b.types@[n].type_key {
            b.lemma_view_at(n);
        }
    }
    assert forall|k: u64| #[trigger] b@.contains_key(k) implies b@[k] == rhs[k] by {
        let j = choose|j: int| 0 <= j < b.types@.len() && b.types@[j].type_key == k;
        b.lemma_view_at(j);
        if j < n {
            a.lemma_view_at(j);
        }
    }
    assert(b@ =~= rhs);
}

/// The position of the method `name` in `ms`, if it is there.
fn find_method(ms: &Vec<MethodEntry>, name: &String) -> (r: Option<usize>)
    requires
        methods_unique(ms@),
    ensures
        match r {
            Some(j) => j < ms@.len() && ms@[j as int].name@ == name@,
            None => !methods_view(ms@).contains_key(name@),
        },
{
    let mut j: usize = 0;
    while j < ms.len()
        invariant
            0 <= j <= ms@.len(),
            forall|k: int| 0 <= k < j ==> ms@[k].name@ != name@,
        decreases ms@.len() - j,
    {
        if ms[j].name == *name {
            return Some(j);
        }
        j = j + 1;
    }
    None
}

} // verus!
