//! The repository: the directory of the tuple spaces, their stores, and the
//! space that holds the permissions.
//!
//! A store is known by its number. A space that leaves the directory keeps
//! its store, so that a connection that is attached to it can go on working
//! on it.

use vstd::prelude::*;
use crate::store::{
    TupleStore, found, outside_elements, put_result, shown_tuple, take_result, taken, tuple_sound,
};
use crate::text::{same_text, texts};
use crate::tuple::{ElementValue, TupleData, tuple_defined};

verus! {

/// The first position from `from` on that holds `name`, or the length of
/// `names` where none does.
pub open spec fn find(names: Seq<Seq<char>>, name: Seq<char>, from: int) -> int
    decreases names.len() - from,
{
    if 0 <= from < names.len() && names[from] != name {
        find(names, name, from + 1)
    } else {
        from
    }
}

/// Whether no name stands twice.
pub open spec fn distinct(names: Seq<Seq<char>>) -> bool {
    forall|i: int, j: int| 0 <= i < j < names.len() ==> names[i] != names[j]
}

/// The search ends inside the sequence, on the name where it is there, and
/// passes over other names only.
pub proof fn lemma_find(names: Seq<Seq<char>>, name: Seq<char>, from: int)
    requires
        0 <= from <= names.len(),
    ensures
        from <= find(names, name, from) <= names.len(),
        find(names, name, from) < names.len() ==> names[find(names, name, from)] == name,
        forall|i: int| from <= i < find(names, name, from) ==> names[i] != name,
    decreases names.len() - from,
{
    if from < names.len() && names[from] != name {
        lemma_find(names, name, from + 1);
    }
}

/// The search ends at the first position that holds the name.
pub proof fn lemma_found_at(names: Seq<Seq<char>>, name: Seq<char>, at: int)
    requires
        0 <= at <= names.len(),
        forall|i: int| 0 <= i < at ==> names[i] != name,
        at == names.len() || names[at] == name,
    ensures
        find(names, name, 0) == at,
{
    lemma_find(names, name, 0);
}

/// The directory of the tuple spaces with their stores.
pub struct Repository {
    stores: Vec<TupleStore>,
    names: Vec<String>,
    handles: Vec<usize>,
}

impl Repository {
    /// Whether the directory names each space once, each name has a store,
    /// the store of the permissions is there and no request waits in any
    /// store.
    pub closed spec fn wf(&self) -> bool {
        &&& self.names@.len() == self.handles@.len()
        &&& self.stores@.len() >= 1
        &&& distinct(texts(self.names@))
        &&& forall|i: int| 0 <= i < self.handles@.len() ==> #[trigger] self.handles@[i] < self.stores@.len()
        &&& forall|k: int| 0 <= k < self.stores@.len() ==> (#[trigger] self.stores@[k]).wf()
    }

    /// The directory: the number of the store of each space, by the name of
    /// the space.
    pub closed spec fn directory(&self) -> Map<Seq<char>, nat> {
        Map::new(
            |name: Seq<char>| find(texts(self.names@), name, 0) < self.names@.len(),
            |name: Seq<char>| self.handles@[find(texts(self.names@), name, 0)] as nat,
        )
    }

    /// The tuples of each store, by the number of the store. The store of the
    /// permissions has the number 0.
    pub closed spec fn contents(&self) -> Seq<Set<Seq<ElementValue>>> {
        Seq::new(self.stores@.len(), |k: int| self.stores@[k].tuples())
    }

    /// A repository with one store, which holds no tuple, and without names.
    pub(crate) fn empty() -> (r: Repository)
        ensures
            r.wf(),
            r.directory() == Map::<Seq<char>, nat>::empty(),
            r.contents() == seq![Set::<Seq<ElementValue>>::empty()],
    {
        let mut stores: Vec<TupleStore> = Vec::new();
        stores.push(TupleStore::new());
        let r = Repository { stores, names: Vec::new(), handles: Vec::new() };
        assert(r.directory() =~= Map::<Seq<char>, nat>::empty());
        assert(r.contents() =~= seq![Set::<Seq<ElementValue>>::empty()]);
        r
    }

    /// The number of stores.
    pub fn stores_len(&self) -> (n: usize)
        ensures
            n == self.contents().len(),
    {
        self.stores.len()
    }

    /// Every store that the directory names is there.
    pub proof fn lemma_directory_in_range(&self)
        requires
            self.wf(),
        ensures
            self.contents().len() >= 1,
            forall|name: Seq<char>|
                self.directory().contains_key(name) ==> #[trigger] self.directory()[name]
                    < self.contents().len(),
    {
        assert forall|name: Seq<char>| self.directory().contains_key(name) implies #[trigger] self.directory()[name]
            < self.contents().len() by {
            let i = find(texts(self.names@), name, 0);
            lemma_find(texts(self.names@), name, 0);
            assert(0 <= i < self.handles@.len());
            assert(self.handles@[i] < self.stores@.len());
        }
    }

    /// The number of the store of the space with this name.
    pub fn lookup(&self, name: &str) -> (handle: Option<usize>)
        requires
            self.wf(),
        ensures
            match handle {
                Some(h) => self.directory().contains_key(name@) && self.directory()[name@] == h
                    && h < self.contents().len(),
                None => !self.directory().contains_key(name@),
            },
    {
        let i = self.index_of(name);
        if i < self.names.len() {
            Some(self.handles[i])
        } else {
            None
        }
    }

    /// Whether the directory holds a space with this name.
    pub fn has_tuple_space(&self, name: &str) -> (b: bool)
        requires
            self.wf(),
        ensures
            b == self.directory().contains_key(name@),
    {
        self.lookup(name).is_some()
    }

    /// The position of the name in the directory.
    fn index_of(&self, name: &str) -> (i: usize)
        requires
            self.names@.len() == self.handles@.len(),
        ensures
            i == find(texts(self.names@), name@, 0),
            i <= self.names@.len(),
    {
        let mut i: usize = 0;
        proof {
            lemma_find(texts(self.names@), name@, 0);
        }
        while i < self.names.len()
            invariant
                i <= self.names.len(),
                find(texts(self.names@), name@, 0) == find(texts(self.names@), name@, i as int),
            decreases self.names.len() - i,
        {
            if same_text(self.names[i].as_str(), name) {
                return i;
            }
            i = i + 1;
        }
        i
    }

    /// Gives the name to the store: a space of this name that was there
    /// gives way.
    pub(crate) fn bind(&mut self, name: &str, handle: usize)
        requires
            old(self).wf(),
            handle < old(self).contents().len(),
        ensures
            final(self).wf(),
            final(self).directory() == old(self).directory().insert(name@, handle as nat),
            final(self).contents() == old(self).contents(),
    {
        let i = self.index_of(name);
        let ghost before = texts(self.names@);
        proof {
            lemma_find(before, name@, 0);
        }
        if i < self.names.len() {
            self.handles.set(i, handle);
            proof {
                assert forall|n: Seq<char>| #[trigger] final(self).directory().contains_key(n)
                    == old(self).directory().insert(name@, handle as nat).contains_key(n) by {}
                assert forall|n: Seq<char>| final(self).directory().contains_key(n) implies #[trigger] final(self).directory()[n]
                    == old(self).directory().insert(name@, handle as nat)[n] by {
                    lemma_find(before, n, 0);
                }
                assert(final(self).directory() =~= old(self).directory().insert(
                    name@,
                    handle as nat,
                ));
            }
        } else {
            self.names.push(name.to_owned());
            self.handles.push(handle);
            proof {
                let after = texts(final(self).names@);
                assert(after =~= before.push(name@));
                assert forall|n: Seq<char>| #[trigger] find(after, n, 0) == (if n == name@ {
                    before.len() as int
                } else if find(before, n, 0) < before.len() {
                    find(before, n, 0)
                } else {
                    after.len() as int
                }) by {
                    lemma_find(before, n, 0);
                    let at = if n == name@ {
                        before.len() as int
                    } else if find(before, n, 0) < before.len() {
                        find(before, n, 0)
                    } else {
                        after.len() as int
                    };
                    lemma_found_at(after, n, at);
                }
                assert(distinct(after));
                let target = old(self).directory().insert(name@, handle as nat);
                assert forall|n: Seq<char>| #[trigger] final(self).directory().contains_key(n)
                    == target.contains_key(n) by {
                    let k = find(after, n, 0);
                    lemma_find(before, n, 0);
                }
                assert forall|n: Seq<char>| final(self).directory().contains_key(n) implies #[trigger] final(self).directory()[n]
                    == target[n] by {
                    let k = find(after, n, 0);
                    lemma_find(before, n, 0);
                    if n != name@ {
                        assert(final(self).handles@[k] == old(self).handles@[k]);
                    }
                }
                assert(final(self).directory() =~= target);
            }
        }
        assert(final(self).contents() =~= old(self).contents());
    }

    /// Takes the name out of the directory. The store stays.
    pub(crate) fn unbind(&mut self, name: &str)
        requires
            old(self).wf(),
        ensures
            final(self).wf(),
            final(self).directory() == old(self).directory().remove(name@),
            final(self).contents() == old(self).contents(),
    {
        let i = self.index_of(name);
        let ghost before = texts(self.names@);
        let ghost handles = self.handles@;
        proof {
            lemma_find(before, name@, 0);
        }
        if i < self.names.len() {
            self.names.remove(i);
            self.handles.remove(i);
            proof {
                let after = texts(final(self).names@);
                assert(after =~= before.remove(i as int));
                assert(distinct(after));
                assert forall|n: Seq<char>| #[trigger] find(after, n, 0) == (if n == name@ {
                    after.len() as int
                } else if find(before, n, 0) < i {
                    find(before, n, 0)
                } else {
                    find(before, n, 0) - 1
                }) by {
                    lemma_find(before, n, 0);
                    let at = if n == name@ {
                        after.len() as int
                    } else if find(before, n, 0) < i {
                        find(before, n, 0)
                    } else {
                        find(before, n, 0) - 1
                    };
                    lemma_found_at(after, n, at);
                }
                let target = old(self).directory().remove(name@);
                assert forall|n: Seq<char>| #[trigger] final(self).directory().contains_key(n)
                    == target.contains_key(n) by {
                    let k = find(after, n, 0);
                    lemma_find(before, n, 0);
                }
                assert forall|n: Seq<char>| final(self).directory().contains_key(n) implies #[trigger] final(self).directory()[n]
                    == target[n] by {
                    let k = find(after, n, 0);
                    let b = find(before, n, 0);
                    lemma_find(before, n, 0);
                    assert(final(self).handles@ =~= handles.remove(i as int));
                    if b < i {
                        assert(final(self).handles@[k] == handles[b]);
                    } else {
                        assert(final(self).handles@[k] == handles[b]);
                    }
                }
                assert(final(self).directory() =~= target);
            }
        } else {
            assert(final(self).directory() =~= old(self).directory().remove(name@));
        }
        assert(final(self).contents() =~= old(self).contents());
    }

    /// Adds a store without tuples and gives its number.
    pub(crate) fn open_store(&mut self) -> (handle: usize)
        requires
            old(self).wf(),
        ensures
            final(self).wf(),
            handle == old(self).contents().len(),
            final(self).directory() == old(self).directory(),
            final(self).contents() == old(self).contents().push(
                Set::<Seq<ElementValue>>::empty(),
            ),
    {
        let handle = self.stores.len();
        self.stores.push(TupleStore::new());
        assert(final(self).contents() =~= old(self).contents().push(
            Set::<Seq<ElementValue>>::empty(),
        ));
        assert(final(self).directory() =~= old(self).directory());
        handle
    }

    /// Hands a tuple to the store with this number.
    pub(crate) fn put(&mut self, handle: usize, t: &TupleData) -> (done: bool)
        requires
            old(self).wf(),
            handle < old(self).contents().len(),
        ensures
            final(self).wf(),
            final(self).directory() == old(self).directory(),
            final(self).contents() == old(self).contents().update(
                handle as int,
                put_result(old(self).contents()[handle as int], t@),
            ),
            done == (tuple_sound(t@) && tuple_defined(t@)),
    {
        let done = self.stores[handle].out(t);
        proof {
            assert(final(self).contents() =~= old(self).contents().update(
                handle as int,
                put_result(old(self).contents()[handle as int], t@),
            ));
            assert(final(self).directory() =~= old(self).directory());
        }
        done
    }

    /// Looks for a tuple in the store with this number and gives it as the
    /// store holds it.
    pub(crate) fn find_at(&mut self, handle: usize, t: &TupleData) -> (r: Option<
        rustupolis::tuple::Tuple,
    >)
        requires
            old(self).wf(),
            handle < old(self).contents().len(),
        ensures
            final(self).wf(),
            final(self).directory() == old(self).directory(),
            final(self).contents() == old(self).contents(),
            match r {
                Some(tuple) => found(old(self).contents()[handle as int], t@).len() > 0
                    && outside_elements(tuple) == found(old(self).contents()[handle as int], t@),
                None => found(old(self).contents()[handle as int], t@).len() == 0,
            },
    {
        let r = self.stores[handle].find(t);
        proof {
            assert(final(self).contents() =~= old(self).contents());
            assert(final(self).directory() =~= old(self).directory());
        }
        r
    }

    /// Looks for a tuple in the store with this number and gives its text.
    pub(crate) fn read_at(&mut self, handle: usize, t: &TupleData) -> (text: Option<String>)
        requires
            old(self).wf(),
            handle < old(self).contents().len(),
        ensures
            final(self).wf(),
            final(self).directory() == old(self).directory(),
            final(self).contents() == old(self).contents(),
            match text {
                Some(text) => found(old(self).contents()[handle as int], t@).len() > 0 && text@
                    == shown_tuple(found(old(self).contents()[handle as int], t@)),
                None => found(old(self).contents()[handle as int], t@).len() == 0,
            },
    {
        let text = self.stores[handle].read(t);
        proof {
            assert(final(self).contents() =~= old(self).contents());
            assert(final(self).directory() =~= old(self).directory());
        }
        text
    }

    /// Takes a tuple out of the store with this number.
    pub(crate) fn take_at(&mut self, handle: usize, t: &TupleData) -> (text: Option<String>)
        requires
            old(self).wf(),
            handle < old(self).contents().len(),
        ensures
            final(self).wf(),
            final(self).directory() == old(self).directory(),
            final(self).contents() == old(self).contents().update(
                handle as int,
                take_result(old(self).contents()[handle as int], t@),
            ),
            match text {
                Some(text) => taken(old(self).contents()[handle as int], t@).len() > 0 && text@
                    == shown_tuple(taken(old(self).contents()[handle as int], t@)),
                None => taken(old(self).contents()[handle as int], t@).len() == 0,
            },
    {
        let text = self.stores[handle].take(t);
        proof {
            assert(final(self).contents() =~= old(self).contents().update(
                handle as int,
                take_result(old(self).contents()[handle as int], t@),
            ));
            assert(final(self).directory() =~= old(self).directory());
        }
        text
    }
}

} // verus!
