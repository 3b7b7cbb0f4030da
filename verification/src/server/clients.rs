//! The clients that have joined the game, by the proxy's process id of
//! their connection.
use vstd::prelude::*;
use crate::text::str_eq;
use crate::util::version::Version;

verus! {

/// A client in the game.
pub struct ClientRecord {
    pub version: Version,
    pub locale: String,
    pub username: String,
}

/// What a [`ClientRecord`] holds.
pub struct ClientModel {
    pub protocol: u16,
    pub release: Seq<char>,
    pub locale: Seq<char>,
    pub username: Seq<char>,
}

impl ClientRecord {
    pub open spec fn model(&self) -> ClientModel {
        ClientModel {
            protocol: self.version.protocol_view(),
            release: self.version.name_view(),
            locale: self.locale@,
            username: self.username@,
        }
    }
}

/// The clients in the game, each under the process id of its connection.
pub struct Clients {
    entries: Vec<(String, ClientRecord)>,
}

/// The value of a client property: its locale, its name, or nothing for a
/// property that clients do not have.
pub open spec fn property_value(client: ClientModel, property: Seq<char>) -> Seq<char> {
    if property == "locale"@ {
        client.locale
    } else if property == "username"@ {
        client.username
    } else {
        Seq::empty()
    }
}

/// Law: a client put in the game under a process id is there, its locale
/// and name read back as given, any other property reads as nothing, and
/// the clients under other process ids are as they were.
pub proof fn lemma_insert_then_read(
    m: Map<Seq<char>, ClientModel>,
    k: Seq<char>,
    v: ClientModel,
    other: Seq<char>,
    property: Seq<char>,
)
    ensures
        m.insert(k, v).dom().contains(k),
        property_value(m.insert(k, v)[k], "locale"@) == v.locale,
        property_value(m.insert(k, v)[k], "username"@) == v.username,
        property != "locale"@ && property != "username"@ ==> property_value(
            m.insert(k, v)[k],
            property,
        ) == Seq::<char>::empty(),
        other != k ==> (m.insert(k, v).dom().contains(other) <==> m.dom().contains(other)),
        other != k && m.dom().contains(other) ==> m.insert(k, v)[other] == m[other],
{
    reveal_strlit("locale");
    reveal_strlit("username");
    assert("locale"@.len() != "username"@.len());
}

impl Clients {
    /// No process id is there twice.
    spec fn keys_unique(self) -> bool {
        forall|i: int, j: int|
            0 <= i < j < self.entries@.len() ==> (#[trigger] self.entries@[i]).0@
                != (#[trigger] self.entries@[j]).0@
    }

    #[verifier::type_invariant]
    spec fn inv(self) -> bool {
        self.keys_unique()
    }

    spec fn has_key_at(self, k: Seq<char>, i: int) -> bool {
        0 <= i < self.entries@.len() && self.entries@[i].0@ == k
    }

    /// Each client by process id.
    pub closed spec fn model(&self) -> Map<Seq<char>, ClientModel> {
        Map::new(
            |k: Seq<char>| exists|i: int| self.has_key_at(k, i),
            |k: Seq<char>| self.entries@[choose|i: int| self.has_key_at(k, i)].1.model(),
        )
    }

    /// Where `k` is, it is at the one index that holds it.
    proof fn lemma_at(&self, k: Seq<char>, i: int)
        requires
            self.keys_unique(),
            self.has_key_at(k, i),
        ensures
            self.model().dom().contains(k),
            self.model()[k] == self.entries@[i].1.model(),
    {
        let j = choose|j: int| self.has_key_at(k, j);
        if i < j {
            assert(self.entries@[i].0@ != self.entries@[j].0@);
        } else if j < i {
            assert(self.entries@[j].0@ != self.entries@[i].0@);
        }
    }

    /// No client yet.
    pub fn new() -> (c: Self)
        ensures
            c.model() == Map::<Seq<char>, ClientModel>::empty(),
    {
        let c = Clients { entries: Vec::new() };
        assert(c.model() =~= Map::<Seq<char>, ClientModel>::empty());
        c
    }

    /// Where the client with process id `process_id` is.
    fn index_of(&self, process_id: &String) -> (r: Option<usize>)
        ensures
            r matches Some(i) ==> self.has_key_at(process_id@, i as int),
            r is None ==> !self.model().dom().contains(process_id@),
    {
        let mut i: usize = 0;
        while i < self.entries.len()
            invariant
                i <= self.entries@.len(),
                forall|j: int| 0 <= j < i ==> self.entries@[j].0@ != process_id@,
            decreases self.entries@.len() - i,
        {
            if self.entries[i].0 == *process_id {
                return Some(i);
            }
            i += 1;
        }
        None
    }

    /// Whether a client with process id `process_id` is in the game.
    pub fn contains_key(&self, process_id: &String) -> (b: bool)
        ensures
            b == self.model().dom().contains(process_id@),
    {
        match self.index_of(process_id) {
            Some(i) => {
                proof {
                    use_type_invariant(self);
                    self.lemma_at(process_id@, i as int);
                }
                true
            },
            None => false,
        }
    }

    /// Puts `client` in the game under `process_id`, in place of the one
    /// that was there under it, if any.
    pub fn insert(&mut self, process_id: String, client: ClientRecord)
        ensures
            final(self).model() == old(self).model().insert(process_id@, client.model()),
    {
        proof {
            use_type_invariant(&*self);
        }
        let ghost old_self = *self;
        let ghost k = process_id@;
        let ghost v = client.model();
        match self.index_of(&process_id) {
            Some(i) => {
                let mut entries: Vec<(String, ClientRecord)> = Vec::new();
                core::mem::swap(&mut entries, &mut self.entries);
                entries.set(i, (process_id, client));
                proof {
                    assert forall|a: int, b: int|
                        0 <= a < b < entries@.len() implies (#[trigger] entries@[a]).0@
                        != (#[trigger] entries@[b]).0@ by {
                        assert(old_self.entries@[a].0@ != old_self.entries@[b].0@);
                    }
                }
                self.entries = entries;
                proof {
                    use_type_invariant(&*self);
                    assert forall|key: Seq<char>|
                        #![trigger self.model().dom().contains(key)]
                        self.model().dom().contains(key) == old_self.model().insert(
                            k,
                            v,
                        ).dom().contains(key) by {
                        if key == k {
                            assert(self.has_key_at(key, i as int));
                        } else if self.model().dom().contains(key) {
                            let j = choose|j: int| self.has_key_at(key, j);
                            assert(old_self.has_key_at(key, j));
                        } else if old_self.model().dom().contains(key) {
                            let j = choose|j: int| old_self.has_key_at(key, j);
                            assert(self.has_key_at(key, j));
                        }
                    }
                    assert forall|key: Seq<char>|
                        #![trigger self.model()[key]]
                        self.model().dom().contains(key) implies self.model()[key]
                        == old_self.model().insert(k, v)[key] by {
                        let j = choose|j: int| self.has_key_at(key, j);
                        self.lemma_at(key, j);
                        if key != k {
                            old_self.lemma_at(key, j);
                        }
                    }
                    assert(self.model() =~= old_self.model().insert(k, v));
                }
            },
            None => {
                let mut entries: Vec<(String, ClientRecord)> = Vec::new();
                core::mem::swap(&mut entries, &mut self.entries);
                entries.push((process_id, client));
                let ghost n = old_self.entries@.len() as int;
                proof {
                    assert forall|a: int, b: int|
                        0 <= a < b < entries@.len() implies (#[trigger] entries@[a]).0@
                        != (#[trigger] entries@[b]).0@ by {
                        if b < n {
                            assert(old_self.entries@[a].0@ != old_self.entries@[b].0@);
                        } else {
                            assert(!old_self.has_key_at(k, a));
                        }
                    }
                }
                self.entries = entries;
                proof {
                    use_type_invariant(&*self);
                    assert forall|key: Seq<char>|
                        #![trigger self.model().dom().contains(key)]
                        self.model().dom().contains(key) == old_self.model().insert(
                            k,
                            v,
                        ).dom().contains(key) by {
                        if key == k {
                            assert(self.has_key_at(key, n));
                        } else if self.model().dom().contains(key) {
                            let j = choose|j: int| self.has_key_at(key, j);
                            assert(old_self.has_key_at(key, j));
                        } else if old_self.model().dom().contains(key) {
                            let j = choose|j: int| old_self.has_key_at(key, j);
                            assert(self.has_key_at(key, j));
                        }
                    }
                    assert forall|key: Seq<char>|
                        #![trigger self.model()[key]]
                        self.model().dom().contains(key) implies self.model()[key]
                        == old_self.model().insert(k, v)[key] by {
                        let j = choose|j: int| self.has_key_at(key, j);
                        self.lemma_at(key, j);
                        if key != k {
                            old_self.lemma_at(key, j);
                        }
                    }
                    assert(self.model() =~= old_self.model().insert(k, v));
                }
            },
        }
    }

    /// The property `property` of the client under `process_id`; `None`
    /// where no client is under it.
    pub fn property(&self, process_id: &String, property: &str) -> (r: Option<String>)
        ensures
            r is None <==> !self.model().dom().contains(process_id@),
            r matches Some(s) ==> s@ == property_value(self.model()[process_id@], property@),
    {
        match self.index_of(process_id) {
            None => None,
            Some(i) => {
                proof {
                    use_type_invariant(self);
                    self.lemma_at(process_id@, i as int);
                }
                let client = &self.entries[i].1;
                if str_eq(property, "locale") {
                    Some(client.locale.clone())
                } else if str_eq(property, "username") {
                    Some(client.username.clone())
                } else {
                    Some(String::new())
                }
            },
        }
    }

    /// The process ids of the clients in the game, each once.
    pub fn process_ids(&self) -> (r: Vec<String>)
        ensures
            forall|k: Seq<char>|
                self.model().dom().contains(k) <==> exists|i: int|
                    0 <= i < r@.len() && (#[trigger] r@[i])@ == k,
            forall|i: int, j: int| 0 <= i < j < r@.len() ==> (#[trigger] r@[i])@ != (#[trigger] r@[j])@,
    {
        proof {
            use_type_invariant(self);
        }
        let mut r: Vec<String> = Vec::new();
        let mut i: usize = 0;
        while i < self.entries.len()
            invariant
                i <= self.entries@.len(),
                r@.len() == i,
                forall|j: int| 0 <= j < i ==> (#[trigger] r@[j])@ == self.entries@[j].0@,
            decreases self.entries@.len() - i,
        {
            r.push(self.entries[i].0.clone());
            i += 1;
        }
        proof {
            assert forall|k: Seq<char>|
                self.model().dom().contains(k) <==> exists|i: int|
                    0 <= i < r@.len() && (#[trigger] r@[i])@ == k by {
                if self.model().dom().contains(k) {
                    let j = choose|j: int| self.has_key_at(k, j);
                    assert(r@[j]@ == k);
                }
                if exists|i: int| 0 <= i < r@.len() && (#[trigger] r@[i])@ == k {
                    let j = choose|j: int| 0 <= j < r@.len() && (#[trigger] r@[j])@ == k;
                    assert(self.has_key_at(k, j));
                }
            }
            assert forall|a: int, b: int| 0 <= a < b < r@.len() implies (#[trigger] r@[a])@
                != (#[trigger] r@[b])@ by {
                assert(self.entries@[a].0@ != self.entries@[b].0@);
            }
        }
        r
    }
}

} // verus!
