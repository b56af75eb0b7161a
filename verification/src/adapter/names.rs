//! Numbers for names, and the ports that manage what the names stand for.
use vstd::prelude::*;

use crate::sorted_map::{as_map, increasing, SortedMap};

verus! {

/// The numbers and ports of some names.
#[verifier::ext_equal]
pub struct NamesView {
    pub next_id: u64,
    pub ids: Map<Seq<char>, u64>,
    pub names: Map<u64, Seq<char>>,
    pub ports: Map<u64, u64>,
}

impl NamesView {
    /// Numbers and names belong together one to one, each number in use has a port, and the next
    /// number is free.
    pub open spec fn sound(self) -> bool {
        &&& forall|n: Seq<char>| #[trigger]
            self.ids.contains_key(n) ==> self.names.contains_key(self.ids[n])
                && self.names[self.ids[n]] == n
        &&& forall|i: u64| #[trigger]
            self.names.contains_key(i) ==> self.ids.contains_key(self.names[i])
                && self.ids[self.names[i]] == i && self.ports.contains_key(i) && i < self.next_id
        &&& forall|i: u64| #[trigger] self.ports.contains_key(i) ==> self.names.contains_key(i)
    }

    /// With a name that was not there. It takes the next number.
    pub open spec fn with_name(self, name: Seq<char>, port: u64) -> NamesView {
        NamesView {
            next_id: (self.next_id + 1) as u64,
            ids: self.ids.insert(name, self.next_id),
            names: self.names.insert(self.next_id, name),
            ports: self.ports.insert(self.next_id, port),
        }
    }

    /// Without a name.
    pub open spec fn without_name(self, name: Seq<char>) -> NamesView {
        if self.ids.contains_key(name) {
            NamesView {
                ids: self.ids.remove(name),
                names: self.names.remove(self.ids[name]),
                ports: self.ports.remove(self.ids[name]),
                ..self
            }
        } else {
            self
        }
    }
}

/// Gives each name a number and a port.
pub struct NameTable {
    next_id: u64,
    ids: SortedMap<String, u64>,
    names: SortedMap<u64, String>,
    ports: SortedMap<u64, u64>,
}

impl NameTable {
    pub closed spec fn view(&self) -> NamesView {
        NamesView {
            next_id: self.next_id,
            ids: self.ids@,
            names: self.names@.map_values(|n: String| n@),
            ports: self.ports@,
        }
    }

    /// The names in order, with their numbers.
    pub closed spec fn seq(&self) -> Seq<(String, u64)> {
        self.ids.seq()
    }

    /// The list of names holds the names in use, with their numbers.
    pub proof fn lemma_listed(&self)
        ensures
            self@.ids == as_map(self.seq()),
    {
    }

    /// The next number that is given out.
    pub fn next_id(&self) -> (r: u64)
        ensures
            r == self@.next_id,
    {
        self.next_id
    }

    /// A table without names. The first name gets the number one.
    pub fn new() -> (r: Self)
        ensures
            r@.sound(),
            r@ == (NamesView {
                next_id: 1,
                ids: Map::empty(),
                names: Map::empty(),
                ports: Map::empty(),
            }),
            r.seq() == Seq::<(String, u64)>::empty(),
    {
        let r = NameTable {
            next_id: 1,
            ids: SortedMap::new(),
            names: SortedMap::new(),
            ports: SortedMap::new(),
        };
        assert(r@ =~= NamesView {
            next_id: 1,
            ids: Map::empty(),
            names: Map::empty(),
            ports: Map::empty(),
        });
        r
    }

    /// The number of a name.
    pub fn id_of(&self, name: &String) -> (r: Option<u64>)
        ensures
            r == (if self@.ids.contains_key(name@) {
                Some(self@.ids[name@])
            } else {
                None
            }),
    {
        match self.ids.get(name) {
            Some(i) => Some(*i),
            None => None,
        }
    }

    /// The name of a number.
    pub fn name_of(&self, id: u64) -> (r: Option<&String>)
        ensures
            match r {
                Some(n) => self@.names.contains_key(id) && n@ == self@.names[id],
                None => !self@.names.contains_key(id),
            },
    {
        self.names.get(&id)
    }

    /// The port of a number.
    pub fn port_of(&self, id: u64) -> (r: Option<u64>)
        ensures
            r == (if self@.ports.contains_key(id) {
                Some(self@.ports[id])
            } else {
                None
            }),
    {
        match self.ports.get(&id) {
            Some(p) => Some(*p),
            None => None,
        }
    }

    pub fn len(&self) -> (r: usize)
        ensures
            r == self.seq().len(),
            self@.ids == as_map(self.seq()),
            increasing(self.seq()),
    {
        self.ids.len()
    }

    /// The name at a place in the order, with its number.
    pub fn at(&self, i: usize) -> (r: (&String, u64))
        requires
            i < self.seq().len(),
        ensures
            *r.0 == self.seq()[i as int].0,
            r.1 == self.seq()[i as int].1,
            self@.ids.contains_key(r.0@),
            self@.ids[r.0@] == r.1,
            self@.ids == as_map(self.seq()),
            increasing(self.seq()),
    {
        (self.ids.key_at(i), *self.ids.value_at(i))
    }

    /// Takes in a name that is not there yet.
    pub fn enroll(&mut self, name: &String, port: u64) -> (r: u64)
        requires
            old(self)@.sound(),
            !old(self)@.ids.contains_key(name@),
            old(self)@.next_id < u64::MAX,
        ensures
            final(self)@ == old(self)@.with_name(name@, port),
            final(self)@.sound(),
            r == old(self)@.next_id,
    {
        let id: u64 = self.next_id;
        self.next_id = id + 1;
        self.ids.insert(name.clone(), id);
        self.names.insert(id, name.clone());
        self.ports.insert(id, port);
        assert(self@ =~= old(self)@.with_name(name@, port));
        id
    }

    /// Forgets a name, and gives up its port.
    pub fn dismiss(&mut self, name: &String) -> (r: Option<u64>)
        requires
            old(self)@.sound(),
        ensures
            final(self)@ == old(self)@.without_name(name@),
            final(self)@.sound(),
            r == (if old(self)@.ids.contains_key(name@) {
                Some(old(self)@.ports[old(self)@.ids[name@]])
            } else {
                None
            }),
    {
        match self.ids.remove(name) {
            Some(id) => {
                assert(old(self)@.ids.contains_key(name@));
                let _ = self.names.remove(&id);
                let port: Option<u64> = self.ports.remove(&id);
                assert(self@ =~= old(self)@.without_name(name@));
                port
            },
            None => {
                assert(self@ =~= old(self)@.without_name(name@));
                None
            },
        }
    }
}

} // verus!
