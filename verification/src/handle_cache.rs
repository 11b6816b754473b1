//! A cache of the handles that the controller gave out, by variable name.
use vstd::prelude::*;

verus! {

/// A finite map from names to handles. No name is held twice.
pub struct HandleCache {
    names: Vec<String>,
    handles: Vec<u32>,
}

/// Some entry of `names` reads `name`.
pub open spec fn holds_name(names: Seq<String>, name: Seq<char>) -> bool {
    exists|i: int| 0 <= i < names.len() && (#[trigger] names[i])@ == name
}

/// The place of `name` among `names`.
pub open spec fn place_of(names: Seq<String>, name: Seq<char>) -> int {
    choose|i: int| 0 <= i < names.len() && (#[trigger] names[i])@ == name
}

/// No two entries of `names` read the same.
pub open spec fn distinct_names(names: Seq<String>) -> bool {
    forall|i: int, j: int|
        0 <= i < names.len() && 0 <= j < names.len() && (#[trigger] names[i])@ == (
        #[trigger] names[j])@ ==> i == j
}

impl HandleCache {
    #[verifier::type_invariant]
    spec fn well_formed(&self) -> bool {
        &&& self.names@.len() == self.handles@.len()
        &&& distinct_names(self.names@)
    }

    /// The cache as a map from the characters of a name to its handle.
    pub closed spec fn view(&self) -> Map<Seq<char>, u32> {
        Map::new(
            |name: Seq<char>| holds_name(self.names@, name),
            |name: Seq<char>| self.handles@[place_of(self.names@, name)],
        )
    }

    /// An empty cache.
    pub fn new() -> (cache: HandleCache)
        ensures
            cache@ == Map::<Seq<char>, u32>::empty(),
    {
        let cache = HandleCache { names: Vec::new(), handles: Vec::new() };
        assert(cache@ =~= Map::<Seq<char>, u32>::empty());
        cache
    }

    /// The number of names in the cache.
    pub fn len(&self) -> (n: usize)
        ensures
            n == self@.len(),
    {
        proof {
            use_type_invariant(self);
            self.lemma_len();
        }
        self.names.len()
    }

    /// Whether the cache is empty.
    pub fn is_empty(&self) -> (empty: bool)
        ensures
            empty == (self@ == Map::<Seq<char>, u32>::empty()),
    {
        proof {
            use_type_invariant(self);
            if self.names@.len() == 0 {
                assert(self@ =~= Map::<Seq<char>, u32>::empty());
            } else {
                assert(holds_name(self.names@, self.names@[0]@));
                assert(self@.contains_key(self.names@[0]@));
            }
        }
        self.names.len() == 0
    }

    proof fn lemma_len(&self)
        requires
            self.well_formed(),
        ensures
            self@.dom().finite(),
            self@.len() == self.names@.len(),
    {
        Self::lemma_dom_len(self.names@);
        assert(self@.dom() =~= Self::read_names(self.names@));
    }

    spec fn read_names(names: Seq<String>) -> Set<Seq<char>> {
        Set::new(|name: Seq<char>| holds_name(names, name))
    }

    proof fn lemma_dom_len(names: Seq<String>)
        requires
            distinct_names(names),
        ensures
            Self::read_names(names).finite(),
            Self::read_names(names).len() == names.len(),
        decreases names.len(),
    {
        if names.len() == 0 {
            assert(Self::read_names(names) =~= Set::<Seq<char>>::empty());
        } else {
            let front = names.drop_last();
            let last = names.last()@;
            assert forall|i: int, j: int|
                0 <= i < front.len() && 0 <= j < front.len() && (#[trigger] front[i])@ == (
                #[trigger] front[j])@ implies i == j by {
                assert(names[i]@ == names[j]@);
            }
            Self::lemma_dom_len(front);
            assert(!Self::read_names(front).contains(last)) by {
                if holds_name(front, last) {
                    let i = place_of(front, last);
                    assert(names[i]@ == names[names.len() - 1]@);
                }
            }
            assert(Self::read_names(names) =~= Self::read_names(front).insert(last)) by {
                assert forall|name: Seq<char>| holds_name(names, name) implies holds_name(
                    front,
                    name,
                ) || name == last by {
                    let i = place_of(names, name);
                    if i < front.len() {
                        assert(front[i]@ == name);
                    }
                }
                assert forall|name: Seq<char>| holds_name(front, name) implies holds_name(
                    names,
                    name,
                ) by {
                    let i = place_of(front, name);
                    assert(names[i]@ == name);
                }
                assert(holds_name(names, last)) by {
                    assert(names[names.len() - 1]@ == last);
                }
            }
        }
    }

    /// Finds the place of a name.
    fn find(&self, name: &String) -> (place: Option<usize>)
        ensures
            match place {
                Some(i) => i < self.names@.len() && self.names@[i as int]@ == name@,
                None => !holds_name(self.names@, name@),
            },
    {
        let mut i: usize = 0;
        while i < self.names.len()
            invariant
                i <= self.names@.len(),
                forall|j: int| 0 <= j < i ==> (#[trigger] self.names@[j])@ != name@,
            decreases self.names@.len() - i,
        {
            if self.names[i] == *name {
                return Some(i);
            }
            i += 1;
        }
        None
    }

    /// The handle cached under `name`, if there is one.
    pub fn get(&self, name: &str) -> (handle: Option<u32>)
        ensures
            handle == if self@.contains_key(name@) {
                Some(self@[name@])
            } else {
                None
            },
    {
        proof {
            use_type_invariant(self);
        }
        let key = name.to_owned();
        match self.find(&key) {
            Some(i) => {
                assert(holds_name(self.names@, name@));
                assert(place_of(self.names@, name@) == i);
                Some(self.handles[i])
            },
            None => None,
        }
    }

    /// Caches `handle` under `name`, in place of any handle that was cached
    /// under it.
    pub fn insert(&mut self, name: &str, handle: u32)
        ensures
            final(self)@ == old(self)@.insert(name@, handle),
    {
        proof {
            use_type_invariant(&*self);
        }
        let key = name.to_owned();
        let ghost before = *self;
        let found = self.find(&key);
        let (mut names, mut handles) = self.take();
        match found {
            Some(i) => {
                handles.set(i, handle);
                *self = HandleCache { names, handles };
                proof {
                    assert(self.names@ == before.names@);
                    assert forall|other: Seq<char>| holds_name(self.names@, other) implies (
                    #[trigger] self@[other]) == before@.insert(name@, handle)[other] by {
                        let j = place_of(self.names@, other);
                        if other == name@ {
                            assert(j == i);
                        } else {
                            assert(j != i);
                        }
                    }
                    assert(holds_name(self.names@, name@));
                    assert(self@ =~= before@.insert(name@, handle));
                }
            },
            None => {
                names.push(key);
                handles.push(handle);
                proof {
                    assert forall|a: int, b: int|
                        0 <= a < names@.len() && 0 <= b < names@.len() && (#[trigger] names@[a])@
                            == (#[trigger] names@[b])@ implies a == b by {
                        if a < before.names@.len() {
                            assert(before.names@[a]@ == names@[a]@);
                        }
                        if b < before.names@.len() {
                            assert(before.names@[b]@ == names@[b]@);
                        }
                    }
                }
                *self = HandleCache { names, handles };
                proof {
                    let last = before.names@.len() as int;
                    assert(self.names@[last]@ == name@);
                    assert(holds_name(self.names@, name@));
                    assert forall|other: Seq<char>| holds_name(before.names@, other) implies holds_name(
                        self.names@,
                        other,
                    ) by {
                        let j = place_of(before.names@, other);
                        assert(self.names@[j]@ == other);
                    }
                    assert forall|other: Seq<char>| holds_name(self.names@, other) implies other
                        == name@ || holds_name(before.names@, other) by {
                        let j = place_of(self.names@, other);
                        if j < last {
                            assert(before.names@[j]@ == other);
                        }
                    }
                    assert forall|other: Seq<char>| holds_name(self.names@, other) implies (
                    #[trigger] self@[other]) == before@.insert(name@, handle)[other] by {
                        let j = place_of(self.names@, other);
                        if other == name@ {
                            assert(j == last);
                        } else {
                            assert(j < last);
                            assert(before.names@[j]@ == other);
                            assert(place_of(before.names@, other) == j);
                        }
                    }
                    assert(self@ =~= before@.insert(name@, handle));
                }
            },
        }
    }

    /// Takes the handle cached under `name` out of the cache.
    pub fn remove(&mut self, name: &str) -> (handle: Option<u32>)
        ensures
            final(self)@ == old(self)@.remove(name@),
            handle == if old(self)@.contains_key(name@) {
                Some(old(self)@[name@])
            } else {
                None
            },
    {
        proof {
            use_type_invariant(&*self);
        }
        let key = name.to_owned();
        let ghost before = *self;
        match self.find(&key) {
            Some(i) => {
                assert(holds_name(before.names@, name@));
                assert(place_of(before.names@, name@) == i);
                let (mut names, mut handles) = self.take();
                let _ = names.remove(i);
                let handle = handles.remove(i);
                proof {
                    assert forall|a: int, b: int|
                        0 <= a < names@.len() && 0 <= b < names@.len() && (#[trigger] names@[a])@
                            == (#[trigger] names@[b])@ implies a == b by {
                        let a0 = if a < i { a } else { a + 1 };
                        let b0 = if b < i { b } else { b + 1 };
                        assert(before.names@[a0]@ == before.names@[b0]@);
                    }
                }
                *self = HandleCache { names, handles };
                proof {
                    assert forall|other: Seq<char>| holds_name(self.names@, other) implies other
                        != name@ && holds_name(before.names@, other) && (#[trigger] self@[other])
                        == before@[other] by {
                        let j = place_of(self.names@, other);
                        let j0 = if j < i { j } else { j + 1 };
                        assert(before.names@[j0]@ == other);
                        assert(place_of(before.names@, other) == j0);
                    }
                    assert forall|other: Seq<char>|
                        other != name@ && holds_name(before.names@, other) implies holds_name(
                        self.names@,
                        other,
                    ) by {
                        let j0 = place_of(before.names@, other);
                        let j = if j0 < i { j0 } else { j0 - 1 };
                        assert(self.names@[j]@ == other);
                    }
                    assert(self@ =~= before@.remove(name@));
                }
                Some(handle)
            },
            None => {
                assert(self@ =~= before@.remove(name@));
                None
            },
        }
    }

    /// Forgets every handle.
    pub fn clear(&mut self)
        ensures
            final(self)@ == Map::<Seq<char>, u32>::empty(),
    {
        *self = HandleCache::new();
    }

    /// Moves the entries out and leaves the cache empty.
    fn take(&mut self) -> (entries: (Vec<String>, Vec<u32>))
        ensures
            entries.0 == old(self).names,
            entries.1 == old(self).handles,
            final(self).names@.len() == 0,
            final(self).handles@.len() == 0,
    {
        let mut taken = HandleCache { names: Vec::new(), handles: Vec::new() };
        std::mem::swap(self, &mut taken);
        let HandleCache { names, handles } = taken;
        (names, handles)
    }
}

} // verus!
