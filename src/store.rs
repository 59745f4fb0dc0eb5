//! The registry of loaded modules of one engine instance.
use vstd::prelude::*;

use crate::resource::{ImportTarget, Specifier};

verus! {

/// Maps each loaded specifier to the handle of its module. A specifier is
/// registered at most once; the store owns the handles.
pub struct AvModStore<H> {
    keys: Vec<Specifier>,
    handles: Vec<H>,
    model: Ghost<Map<ImportTarget, H>>,
    loading: Vec<Specifier>,
}

/// The store after `register(specifier, handle)`: a specifier already present
/// keeps its first handle.
pub open spec fn registered<H>(m: Map<ImportTarget, H>, key: ImportTarget, handle: H) -> Map<
    ImportTarget,
    H,
> {
    if m.contains_key(key) {
        m
    } else {
        m.insert(key, handle)
    }
}

impl<H> View for AvModStore<H> {
    type V = Map<ImportTarget, H>;

    closed spec fn view(&self) -> Map<ImportTarget, H> {
        self.model@
    }
}

impl<H> AvModStore<H> {
    /// The specifiers whose modules are being loaded, outermost first.
    pub closed spec fn loading(&self) -> Seq<ImportTarget> {
        self.loading@.map_values(|s: Specifier| s@)
    }

    pub closed spec fn wf(&self) -> bool {
        &&& self.keys.len() == self.handles.len()
        &&& self.model@.dom().finite()
        &&& self.model@.len() == self.keys.len()
        &&& forall|i: int, j: int|
            0 <= i < j < self.keys.len() ==> #[trigger] self.keys[i]@ != #[trigger] self.keys[j]@
        &&& forall|i: int|
            0 <= i < self.keys.len() ==> self.model@.contains_key(#[trigger] self.keys[i]@)
                && self.model@[self.keys[i]@] == self.handles[i]
    }

    pub fn new() -> (r: AvModStore<H>)
        ensures
            r.wf(),
            r@ == Map::<ImportTarget, H>::empty(),
            r.loading() == Seq::<ImportTarget>::empty(),
    {
        AvModStore {
            keys: Vec::new(),
            handles: Vec::new(),
            model: Ghost(Map::empty()),
            loading: Vec::new(),
        }
    }

    /// The position of `specifier` among the keys, if it is registered.
    fn position(&self, specifier: &Specifier) -> (r: Option<usize>)
        requires
            self.wf(),
        ensures
            match r {
                Some(i) => i < self.keys.len() && self.keys[i as int]@ == specifier@,
                None => !self@.contains_key(specifier@),
            },
    {
        let mut i: usize = 0;
        while i < self.keys.len()
            invariant
                self.wf(),
                i <= self.keys.len(),
                forall|j: int| 0 <= j < i ==> self.keys[j]@ != specifier@,
            decreases self.keys.len() - i,
        {
            if self.keys[i].same_as(specifier) {
                return Some(i);
            }
            i = i + 1;
        }
        proof {
            if self@.contains_key(specifier@) {
                // every stored key is one of `keys`, as the sizes agree
                let present = Set::new(|k: ImportTarget| exists|j: int| 0 <= j < self.keys.len() && self.keys[j]@ == k);
                assert(present.subset_of(self.model@.dom().remove(specifier@))) by {
                    assert forall|k: ImportTarget| present.contains(k) implies self.model@.dom().remove(specifier@).contains(k) by {
                        let j = choose|j: int| 0 <= j < self.keys.len() && self.keys[j]@ == k;
                        assert(self.model@.contains_key(self.keys[j]@));
                    }
                }
                lemma_keys_distinct_len(self.keys@);
                vstd::set_lib::lemma_len_subset(present, self.model@.dom().remove(specifier@));
            }
        }
        None
    }

    pub fn contains(&self, specifier: &Specifier) -> (r: bool)
        requires
            self.wf(),
        ensures
            r == self@.contains_key(specifier@),
    {
        match self.position(specifier) {
            Some(i) => {
                assert(self.model@.contains_key(self.keys[i as int]@));
                true
            },
            None => false,
        }
    }

    /// The handle registered for `specifier`.
    pub fn get(&self, specifier: &Specifier) -> (r: Option<&H>)
        requires
            self.wf(),
        ensures
            match r {
                Some(h) => self@.contains_key(specifier@) && *h == self@[specifier@],
                None => !self@.contains_key(specifier@),
            },
    {
        match self.position(specifier) {
            Some(i) => {
                assert(self.model@.contains_key(self.keys[i as int]@));
                Some(&self.handles[i])
            },
            None => None,
        }
    }

    /// Records `module` under `specifier`, unless `specifier` is already
    /// registered, in which case the store is left as it was.
    pub fn register(&mut self, specifier: Specifier, module: H)
        requires
            old(self).wf(),
        ensures
            final(self).wf(),
            final(self)@ == registered(old(self)@, specifier@, module),
            final(self).loading() == old(self).loading(),
    {
        match self.position(&specifier) {
            Some(i) => {
                assert(self.model@.contains_key(self.keys[i as int]@));
            },
            None => {
                let ghost key = specifier@;
                self.model = Ghost(self.model@.insert(key, module));
                self.keys.push(specifier);
                self.handles.push(module);
                assert(self.keys[self.keys.len() - 1]@ == key);
            },
        }
    }

    /// Whether the module of `specifier` is being loaded, so that importing
    /// it again would close a cycle.
    pub fn is_loading(&self, specifier: &Specifier) -> (r: bool)
        ensures
            r == self.loading().contains(specifier@),
    {
        let mut i: usize = 0;
        while i < self.loading.len()
            invariant
                i <= self.loading.len(),
                forall|j: int| 0 <= j < i ==> #[trigger] self.loading()[j] != specifier@,
            decreases self.loading.len() - i,
        {
            if self.loading[i].same_as(specifier) {
                assert(self.loading()[i as int] == specifier@);
                return true;
            }
            i = i + 1;
        }
        proof {
            if self.loading().contains(specifier@) {
                let j = choose|j: int| 0 <= j < self.loading().len() && self.loading()[j] == specifier@;
                assert(self.loading()[j] != specifier@);
            }
        }
        false
    }

    /// Notes that the module of `specifier` starts loading its dependencies.
    pub fn begin_load(&mut self, specifier: Specifier)
        requires
            old(self).wf(),
        ensures
            final(self).wf(),
            final(self)@ == old(self)@,
            final(self).loading() == old(self).loading().push(specifier@),
    {
        let ghost before = self.loading();
        let ghost key = specifier@;
        self.loading.push(specifier);
        assert(self.loading() =~= before.push(key));
    }

    /// Notes that the innermost module being loaded is done.
    pub fn end_load(&mut self)
        requires
            old(self).wf(),
        ensures
            final(self).wf(),
            final(self)@ == old(self)@,
            final(self).loading() == if old(self).loading().len() == 0 {
                old(self).loading()
            } else {
                old(self).loading().drop_last()
            },
    {
        let ghost before = self.loading();
        if self.loading.len() > 0 {
            self.loading.pop();
            assert(self.loading() =~= before.drop_last());
        }
    }

    /// The number of registered specifiers.
    pub fn len(&self) -> (r: usize)
        requires
            self.wf(),
        ensures
            r == self@.len(),
    {
        self.keys.len()
    }
}

/// The set of views of a list of distinct specifiers has the list's length.
proof fn lemma_keys_distinct_len(keys: Seq<Specifier>)
    requires
        forall|i: int, j: int| 0 <= i < j < keys.len() ==> #[trigger] keys[i]@ != #[trigger] keys[j]@,
    ensures
        Set::new(|k: ImportTarget| exists|j: int| 0 <= j < keys.len() && keys[j]@ == k).finite(),
        Set::new(|k: ImportTarget| exists|j: int| 0 <= j < keys.len() && keys[j]@ == k).len()
            == keys.len(),
    decreases keys.len(),
{
    let s = Set::new(|k: ImportTarget| exists|j: int| 0 <= j < keys.len() && keys[j]@ == k);
    if keys.len() == 0 {
        assert(s =~= Set::empty());
    } else {
        let init = keys.drop_last();
        lemma_keys_distinct_len(init);
        let t = Set::new(|k: ImportTarget| exists|j: int| 0 <= j < init.len() && init[j]@ == k);
        assert(s =~= t.insert(keys.last()@)) by {
            assert forall|k: ImportTarget| s.contains(k) implies t.insert(keys.last()@).contains(k) by {
                let j = choose|j: int| 0 <= j < keys.len() && keys[j]@ == k;
                if j < init.len() {
                    assert(init[j]@ == k);
                }
            }
            assert forall|k: ImportTarget| t.insert(keys.last()@).contains(k) implies s.contains(k) by {
                if k != keys.last()@ {
                    let j = choose|j: int| 0 <= j < init.len() && init[j]@ == k;
                    assert(keys[j]@ == k);
                } else {
                    assert(keys[keys.len() - 1]@ == k);
                }
            }
        }
        assert(!t.contains(keys.last()@)) by {
            if t.contains(keys.last()@) {
                let j = choose|j: int| 0 <= j < init.len() && init[j]@ == keys.last()@;
                assert(keys[j]@ == keys[keys.len() - 1]@);
            }
        }
    }
}

/// Registering the same specifier twice leaves exactly the entries that the
/// first registration left: one entry for it, holding the first handle.
pub proof fn lemma_register_twice<H>(m: Map<ImportTarget, H>, key: ImportTarget, first: H, second: H)
    requires
        m.dom().finite(),
    ensures
        registered(registered(m, key, first), key, second) == registered(m, key, first),
        registered(m, key, first).contains_key(key),
        registered(m, key, first).dom() == m.dom().insert(key),
        registered(m, key, first).len() == m.len() + if m.contains_key(key) {
            0int
        } else {
            1int
        },
        !m.contains_key(key) ==> registered(registered(m, key, first), key, second)[key] == first,
{
    if m.contains_key(key) {
        assert(m.dom().insert(key) =~= m.dom());
    }
}

} // verus!
