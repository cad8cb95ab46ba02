//! The material manager: a cache that maps names to shared materials, with a
//! default material fixed when the manager is built.
//!
//! Materials live in the manager's store and are shared through handles. A
//! handle stays valid for the manager's whole life: removing or replacing a
//! name never drops the material that other holders still refer to.

use vstd::prelude::*;
use crate::material::{is_builtin, MaterialKind, Matrixerial};

verus! {

/// A shared reference to a material held by a manager.
#[derive(Clone, Copy, Debug, PartialEq, Eq, Structural)]
pub struct MaterialHandle {
    index: usize,
}

/// One name of the cache and the material it resolves to.
#[derive(Debug)]
struct RegistryEntry {
    name: String,
    material: MaterialHandle,
}

/// A manager as the logic sees it.
pub struct ManagerView {
    /// The material returned as the default.
    pub default: MaterialHandle,
    /// The names of the cache and the materials they resolve to.
    pub registry: Map<Seq<char>, MaterialHandle>,
    /// Every material shared so far, by handle.
    pub store: Map<MaterialHandle, Matrixerial>,
}

impl ManagerView {
    /// The default and every registered name refer to a stored material.
    pub open spec fn wf(self) -> bool {
        &&& self.store.contains_key(self.default)
        &&& forall|n: Seq<char>| #[trigger]
            self.registry.contains_key(n) ==> self.store.contains_key(self.registry[n])
    }

    /// What a lookup of `name` gives.
    pub open spec fn lookup(self, name: Seq<char>) -> Option<MaterialHandle> {
        if self.registry.contains_key(name) {
            Some(self.registry[name])
        } else {
            None
        }
    }

    /// The manager after registering `material` under `name`.
    pub open spec fn added(self, material: MaterialHandle, name: Seq<char>) -> ManagerView {
        ManagerView { registry: self.registry.insert(name, material), ..self }
    }

    /// The manager after forgetting `name`.
    pub open spec fn removed(self, name: Seq<char>) -> ManagerView {
        ManagerView { registry: self.registry.remove(name), ..self }
    }
}

/// Registering a material under a name and then looking the name up gives
/// back the very material registered, not a copy.
pub proof fn lemma_add_then_get(v: ManagerView, material: MaterialHandle, name: Seq<char>)
    ensures
        v.added(material, name).lookup(name) == Some(material),
        v.added(material, name).store == v.store,
{
}

/// Registering a second material under a taken name replaces the first in the
/// registry, while the first stays stored and unchanged for its other holders.
pub proof fn lemma_overwrite(
    v: ManagerView,
    first: MaterialHandle,
    second: MaterialHandle,
    name: Seq<char>,
)
    requires
        v.store.contains_key(first),
        v.store.contains_key(second),
    ensures
        ({
            let w = v.added(first, name).added(second, name);
            &&& w.lookup(name) == Some(second)
            &&& w.store.contains_key(first)
            &&& w.store[first] == v.store[first]
        }),
{
}

/// Removing a registered name makes later lookups of it miss, while a handle
/// obtained before the removal still refers to the same stored material.
pub proof fn lemma_remove_keeps_material(v: ManagerView, material: MaterialHandle, name: Seq<char>)
    requires
        v.store.contains_key(material),
    ensures
        ({
            let w = v.added(material, name);
            let x = w.removed(name);
            &&& w.lookup(name) == Some(material)
            &&& x.lookup(name) is None
            &&& x.store.contains_key(material)
            &&& x.store[material] == v.store[material]
        }),
{
}

/// The default material does not follow the registry: replacing or removing
/// the name it was registered under leaves it as it was.
pub proof fn lemma_default_is_kept(v: ManagerView, material: MaterialHandle, name: Seq<char>)
    ensures
        v.added(material, name).default == v.default,
        v.removed(name).default == v.default,
        v.added(material, name).lookup(name) == Some(material),
{
}

/// Adding and removing names keeps the manager well formed.
pub proof fn lemma_updates_keep_wf(v: ManagerView, material: MaterialHandle, name: Seq<char>)
    requires
        v.wf(),
        v.store.contains_key(material),
    ensures
        v.added(material, name).wf(),
        v.removed(name).wf(),
{
}

/// The material manager.
///
/// Upon construction it holds the built-in `object` material, which is also
/// the default, and the `normals` and `uvs` materials. It is only a cache:
/// materials can be used without registering them.
pub struct MatrixerialManager {
    default_material: MaterialHandle,
    materials: Vec<RegistryEntry>,
    store: Vec<Matrixerial>,
    registry: Ghost<Map<Seq<char>, MaterialHandle>>,
}

impl View for MatrixerialManager {
    type V = ManagerView;

    closed spec fn view(&self) -> ManagerView {
        ManagerView {
            default: self.default_material,
            registry: self.registry@,
            store: Map::new(
                |h: MaterialHandle| h.index < self.store@.len(),
                |h: MaterialHandle| self.store@[h.index as int],
            ),
        }
    }
}

impl MatrixerialManager {
    /// The cache entries agree with the registry, names are unique, and every
    /// handle refers to a stored material.
    pub closed spec fn wf(&self) -> bool {
        let entries = self.materials@;
        &&& self.default_material.index < self.store@.len()
        &&& forall|i: int|
            0 <= i < entries.len() ==> (#[trigger] entries[i]).material.index < self.store@.len()
        &&& forall|i: int, j: int|
            0 <= i < entries.len() && 0 <= j < entries.len() && i != j ==> (#[trigger] entries[i]).name@
                != (#[trigger] entries[j]).name@
        &&& forall|i: int|
            0 <= i < entries.len() ==> self.registry@.contains_key((#[trigger] entries[i]).name@)
                && self.registry@[entries[i].name@] == entries[i].material
        &&& forall|n: Seq<char>| #[trigger]
            self.registry@.contains_key(n) ==> exists|i: int|
                0 <= i < entries.len() && (#[trigger] entries[i]).name@ == n
    }

    /// The position of the entry called `key`, if there is one.
    fn find(&self, key: &String) -> (r: Option<usize>)
        requires
            self.wf(),
        ensures
            r is None <==> !self@.registry.contains_key(key@),
            r matches Some(i) ==> i < self.materials@.len() && self.materials@[i as int].name@ == key@,
    {
        let mut i: usize = 0;
        while i < self.materials.len()
            invariant
                self.wf(),
                i <= self.materials@.len(),
                forall|j: int| 0 <= j < i ==> self.materials@[j].name@ != key@,
            decreases self.materials.len() - i,
        {
            if self.materials[i].name == *key {
                assert(self.registry@.contains_key(self.materials@[i as int].name@));
                return Some(i);
            }
            i = i + 1;
        }
        proof {
            if self.registry@.contains_key(key@) {
                let j = choose|j: int|
                    0 <= j < self.materials@.len() && (#[trigger] self.materials@[j]).name@ == key@;
                assert(self.materials@[j].name@ == key@);
            }
        }
        None
    }

    /// A manager holding the built-in `object`, `normals` and `uvs` materials,
    /// with `object` as the default.
    pub fn new() -> (r: MatrixerialManager)
        ensures
            r.wf(),
            r@.wf(),
            r@.registry.dom() =~= set!["object"@, "normals"@, "uvs"@],
            r@.registry["object"@] == r@.default,
            r@.store.dom() =~= set![
                r@.registry["object"@],
                r@.registry["normals"@],
                r@.registry["uvs"@],
            ],
            is_builtin(r@.store[r@.registry["object"@]], MaterialKind::Object),
            is_builtin(r@.store[r@.registry["normals"@]], MaterialKind::Normals),
            is_builtin(r@.store[r@.registry["uvs"@]], MaterialKind::Uvs),
    {
        let mut store: Vec<Matrixerial> = Vec::new();
        store.push(Matrixerial::builtin(MaterialKind::Object));
        store.push(Matrixerial::builtin(MaterialKind::Normals));
        store.push(Matrixerial::builtin(MaterialKind::Uvs));
        let om = MaterialHandle { index: 0 };
        let nm = MaterialHandle { index: 1 };
        let um = MaterialHandle { index: 2 };
        let mut materials: Vec<RegistryEntry> = Vec::new();
        materials.push(RegistryEntry { name: "object".to_owned(), material: om });
        materials.push(RegistryEntry { name: "normals".to_owned(), material: nm });
        materials.push(RegistryEntry { name: "uvs".to_owned(), material: um });
        let ghost registry = Map::<Seq<char>, MaterialHandle>::empty().insert("object"@, om).insert(
            "normals"@,
            nm,
        ).insert("uvs"@, um);
        proof {
            reveal_strlit("object");
            reveal_strlit("normals");
            reveal_strlit("uvs");
            assert(materials@[0].name@ == "object"@);
            assert(materials@[1].name@ == "normals"@);
            assert(materials@[2].name@ == "uvs"@);
        }
        let r = MatrixerialManager { default_material: om, materials, store, registry: Ghost(registry) };
        proof {
            assert forall|n: Seq<char>| #[trigger] registry.contains_key(n) implies exists|i: int|
                0 <= i < r.materials@.len() && (#[trigger] r.materials@[i]).name@ == n by {
                if n == "object"@ {
                    assert(r.materials@[0].name@ == n);
                } else if n == "normals"@ {
                    assert(r.materials@[1].name@ == n);
                } else {
                    assert(r.materials@[2].name@ == n);
                }
            }
            assert(r@.store.dom() =~= set![om, nm, um]) by {
                assert forall|h: MaterialHandle| r@.store.contains_key(h) implies set![om, nm, um].contains(h) by {
                    if h.index == 0 {
                        assert(h == om);
                    } else if h.index == 1 {
                        assert(h == nm);
                    } else {
                        assert(h == um);
                    }
                }
            }
        }
        r
    }

    /// The default material.
    pub fn get_default(&self) -> (r: MaterialHandle)
        requires
            self.wf(),
        ensures
            r == self@.default,
            self@.store.contains_key(r),
    {
        self.default_material
    }

    /// The material registered under `name`, or `None` if there is none.
    pub fn get(&self, name: &str) -> (r: Option<MaterialHandle>)
        requires
            self.wf(),
        ensures
            r == self@.lookup(name@),
            r matches Some(h) ==> self@.store.contains_key(h),
    {
        let key = name.to_owned();
        match self.find(&key) {
            Some(i) => Some(self.materials[i].material),
            None => None,
        }
    }

    /// Registers `material` under `name`, replacing what was registered there.
    /// The default material is left as it is.
    pub fn add(&mut self, material: MaterialHandle, name: &str)
        requires
            old(self).wf(),
            old(self)@.store.contains_key(material),
        ensures
            final(self).wf(),
            final(self)@ == old(self)@.added(material, name@),
    {
        let key = name.to_owned();
        let entry = RegistryEntry { name: key, material };
        match self.find(&entry.name) {
            Some(i) => {
                self.materials[i] = entry;
            },
            None => {
                self.materials.push(entry);
            },
        }
        self.registry = Ghost(self.registry@.insert(name@, material));
        proof {
            let entries = self.materials@;
            assert forall|n: Seq<char>| #[trigger] self.registry@.contains_key(n) implies exists|i: int|
                0 <= i < entries.len() && (#[trigger] entries[i]).name@ == n by {
                if n == name@ {
                    if old(self).registry@.contains_key(n) {
                    } else {
                        assert(entries[entries.len() - 1].name@ == n);
                    }
                } else {
                    let j = choose|j: int|
                        0 <= j < old(self).materials@.len() && (#[trigger] old(self).materials@[j]).name@ == n;
                    assert(entries[j].name@ == n);
                }
            }
        }
    }

    /// Forgets `name`; nothing happens if it is not registered. Holders of the
    /// material keep it.
    pub fn remove(&mut self, name: &str)
        requires
            old(self).wf(),
        ensures
            final(self).wf(),
            final(self)@ == old(self)@.removed(name@),
    {
        let key = name.to_owned();
        match self.find(&key) {
            Some(i) => {
                let _ = self.materials.remove(i);
                self.registry = Ghost(self.registry@.remove(name@));
                proof {
                    let entries = self.materials@;
                    let prev = old(self).materials@;
                    assert forall|n: Seq<char>| #[trigger] self.registry@.contains_key(n) implies exists|j: int|
                        0 <= j < entries.len() && (#[trigger] entries[j]).name@ == n by {
                        let j = choose|j: int| 0 <= j < prev.len() && (#[trigger] prev[j]).name@ == n;
                        if j < i {
                            assert(entries[j].name@ == n);
                        } else {
                            assert(entries[j - 1].name@ == n);
                        }
                    }
                }
            },
            None => {
                assert(self.registry@.remove(name@) =~= self.registry@);
            },
        }
    }

    /// Shares `material` through this manager and hands out its handle.
    pub fn share(&mut self, material: Matrixerial) -> (r: MaterialHandle)
        requires
            old(self).wf(),
        ensures
            final(self).wf(),
            !old(self)@.store.contains_key(r),
            final(self)@ == (ManagerView { store: old(self)@.store.insert(r, material), ..old(self)@ }),
    {
        let r = MaterialHandle { index: self.store.len() };
        self.store.push(material);
        assert(self.materials@ == old(self).materials@);
        assert forall|i: int| 0 <= i < self.materials@.len() implies (
        #[trigger] self.materials@[i]).material.index < self.store@.len() by {
            assert(old(self).materials@[i].material.index < old(self).store@.len());
        }
        assert(self@.store =~= old(self)@.store.insert(r, material));
        r
    }

    /// The material that `handle` refers to, or `None` if this manager holds
    /// no such material.
    pub fn material(&self, handle: MaterialHandle) -> (r: Option<&Matrixerial>)
        ensures
            r is Some <==> self@.store.contains_key(handle),
            r matches Some(m) ==> *m == self@.store[handle],
    {
        if handle.index < self.store.len() {
            Some(&self.store[handle.index])
        } else {
            None
        }
    }
}

} // verus!
