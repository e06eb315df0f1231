//! The key store and the ciphertext store.
//!
//! Both stores are maps from opaque string handles to values, partitioned in
//! two: key material by role (client, server), ciphertexts by kind (boolean,
//! integer). Entries are only ever inserted, never updated or removed, and
//! every insert draws a handle that is fresh for both partitions, so a handle
//! never refers to more than one entry.

use vstd::prelude::*;
use vstd::string::StringExecFns;

use crate::error::FheError;
use crate::handle::random_identifier;

verus! {

/// The map described by a sequence of handle/value entries.
spec fn map_of<V>(s: Seq<(String, V)>) -> Map<Seq<char>, V>
    decreases s.len(),
{
    if s.len() == 0 {
        Map::empty()
    } else {
        map_of(s.drop_last()).insert(s.last().0@, s.last().1)
    }
}

/// No two entries share a handle.
spec fn distinct_keys<V>(s: Seq<(String, V)>) -> bool {
    forall|i: int, j: int| 0 <= i < j < s.len() ==> s[i].0@ != s[j].0@
}

proof fn lemma_map_of_dom<V>(s: Seq<(String, V)>, k: Seq<char>)
    ensures
        map_of(s).contains_key(k) <==> exists|i: int| 0 <= i < s.len() && s[i].0@ == k,
    decreases s.len(),
{
    if s.len() > 0 {
        lemma_map_of_dom(s.drop_last(), k);
        if s.last().0@ == k {
            assert(s[s.len() - 1].0@ == k);
        } else if map_of(s).contains_key(k) {
            let i = choose|i: int| 0 <= i < s.drop_last().len() && s.drop_last()[i].0@ == k;
            assert(s[i].0@ == k);
        } else if exists|i: int| 0 <= i < s.len() && s[i].0@ == k {
            let i = choose|i: int| 0 <= i < s.len() && s[i].0@ == k;
            assert(s.drop_last()[i].0@ == k);
        }
    }
}

proof fn lemma_map_of_index<V>(s: Seq<(String, V)>, i: int)
    requires
        distinct_keys(s),
        0 <= i < s.len(),
    ensures
        map_of(s).contains_key(s[i].0@),
        map_of(s)[s[i].0@] == s[i].1,
    decreases s.len(),
{
    if i < s.len() - 1 {
        assert(distinct_keys(s.drop_last())) by {
            assert(forall|x: int, y: int|
                0 <= x < y < s.drop_last().len() ==> s.drop_last()[x].0@ != s.drop_last()[y].0@);
        }
        lemma_map_of_index(s.drop_last(), i);
        assert(s.last().0@ != s[i].0@);
    }
}

proof fn lemma_map_of_push<V>(s: Seq<(String, V)>, p: (String, V))
    ensures
        map_of(s.push(p)) == map_of(s).insert(p.0@, p.1),
{
    assert(s.push(p).drop_last() =~= s);
    assert(s.push(p).last() == p);
}

/// A write-once map from opaque string handles to values.
///
/// Handles are drawn at insert time and checked for freshness, so distinct
/// entries always carry distinct handles.
pub struct HandleMap<V> {
    entries: Vec<(String, V)>,
}

impl<V> View for HandleMap<V> {
    type V = Map<Seq<char>, V>;

    closed spec fn view(&self) -> Map<Seq<char>, V> {
        map_of(self.entries@)
    }
}

impl<V> HandleMap<V> {
    #[verifier::type_invariant]
    spec fn inv(&self) -> bool {
        distinct_keys(self.entries@)
    }

    /// An empty map.
    pub fn new() -> (r: Self)
        ensures
            r@ == Map::<Seq<char>, V>::empty(),
    {
        HandleMap { entries: Vec::new() }
    }

    /// Whether a handle resolves in this map.
    pub fn contains(&self, id: &str) -> (r: bool)
        ensures
            r == self@.contains_key(id@),
    {
        let key = id.to_owned();
        let n = self.entries.len();
        let mut i: usize = 0;
        while i < n
            invariant
                n == self.entries.len(),
                i <= n,
                key@ == id@,
                forall|j: int| 0 <= j < i ==> self.entries@[j].0@ != id@,
            decreases n - i,
        {
            let e = &self.entries[i];
            if e.0 == key {
                proof {
                    lemma_map_of_dom(self.entries@, id@);
                }
                return true;
            }
            i += 1;
        }
        proof {
            lemma_map_of_dom(self.entries@, id@);
        }
        false
    }

    /// The value a handle resolves to, if any. Absence is a normal outcome.
    pub fn get(&self, id: &str) -> (r: Option<&V>)
        ensures
            match r {
                Some(v) => self@.contains_key(id@) && *v == self@[id@],
                None => !self@.contains_key(id@),
            },
    {
        let key = id.to_owned();
        let n = self.entries.len();
        let mut i: usize = 0;
        while i < n
            invariant
                n == self.entries.len(),
                i <= n,
                key@ == id@,
                forall|j: int| 0 <= j < i ==> self.entries@[j].0@ != id@,
            decreases n - i,
        {
            let e = &self.entries[i];
            if e.0 == key {
                proof {
                    use_type_invariant(&*self);
                    lemma_map_of_dom(self.entries@, id@);
                    lemma_map_of_index(self.entries@, i as int);
                }
                return Some(&e.1);
            }
            i += 1;
        }
        proof {
            lemma_map_of_dom(self.entries@, id@);
        }
        None
    }

    /// Append every handle of this map to `base`, so that the result is at
    /// least as long as any one of them.
    fn append_keys(&self, base: String) -> (r: String)
        ensures
            r@.len() >= base@.len(),
            forall|k: Seq<char>| self@.contains_key(k) ==> k.len() <= r@.len(),
    {
        let mut acc = base;
        let ghost start_len = acc@.len();
        let n = self.entries.len();
        let mut i: usize = 0;
        while i < n
            invariant
                n == self.entries.len(),
                i <= n,
                acc@.len() >= start_len,
                forall|j: int| 0 <= j < i ==> self.entries@[j].0@.len() <= acc@.len(),
            decreases n - i,
        {
            let e = &self.entries[i];
            acc.append(e.0.as_str());
            i += 1;
        }
        proof {
            assert forall|k: Seq<char>| self@.contains_key(k) implies k.len() <= acc@.len() by {
                lemma_map_of_dom(self.entries@, k);
                let j = choose|j: int| 0 <= j < self.entries@.len() && self.entries@[j].0@ == k;
                assert(self.entries@[j].0@.len() <= acc@.len());
            }
        }
        acc
    }

    /// Insert a value under a handle that does not resolve yet.
    fn insert_with(&mut self, id: String, value: V)
        requires
            !old(self)@.contains_key(id@),
        ensures
            final(self)@ == old(self)@.insert(id@, value),
    {
        proof {
            use_type_invariant(&*self);
            lemma_map_of_dom(self.entries@, id@);
            lemma_map_of_push(self.entries@, (id, value));
        }
        let ghost prior = self.entries@;
        let mut entries: Vec<(String, V)> = Vec::new();
        core::mem::swap(&mut entries, &mut self.entries);
        entries.push((id, value));
        proof {
            assert forall|i: int, j: int| 0 <= i < j < entries@.len() implies entries@[i].0@
                != entries@[j].0@ by {
                if j < prior.len() {
                    assert(prior[i].0@ != prior[j].0@);
                } else {
                    assert(entries@[i] == prior[i]);
                }
            }
        }
        self.entries = entries;
    }
}

/// An identifier that is fresh for both given maps.
///
/// One random draw all but surely suffices. Should it collide, the fallback
/// is deterministic: an identifier strictly longer than every stored handle,
/// which neither map can hold yet.
fn fresh_id_for<V, W>(a: &HandleMap<V>, b: &HandleMap<W>) -> (id: String)
    ensures
        !a@.contains_key(id@),
        !b@.contains_key(id@),
        id@.len() >= 36,
{
    let id = random_identifier();
    if !a.contains(id.as_str()) && !b.contains(id.as_str()) {
        return id;
    }
    let base = b.append_keys(a.append_keys(String::new()));
    let suffix = random_identifier();
    base.concat(suffix.as_str())
}

/// The parameter sets that key generation recognizes.
pub open spec fn valid_parameter_set(ps: Seq<char>) -> bool {
    ps == "DEFAULT"@ || ps == "FAST"@ || ps == "SECURE"@
}

/// Whether a parameter-set name is one of the recognized values.
pub fn parameter_set_is_valid(parameter_set: &str) -> (r: bool)
    ensures
        r == valid_parameter_set(parameter_set@),
{
    let ps = parameter_set.to_owned();
    ps == "DEFAULT".to_owned() || ps == "FAST".to_owned() || ps == "SECURE".to_owned()
}

/// Key material by role: a client partition and a server partition.
///
/// A handle resolves in at most one partition, and a handle accepted by one
/// partition is never accepted by the other.
pub struct KeyStore<CK, SK> {
    client_keys: HandleMap<CK>,
    server_keys: HandleMap<SK>,
}

impl<CK, SK> KeyStore<CK, SK> {
    /// The client-key partition.
    pub closed spec fn clients(&self) -> Map<Seq<char>, CK> {
        self.client_keys@
    }

    /// The server-key partition.
    pub closed spec fn servers(&self) -> Map<Seq<char>, SK> {
        self.server_keys@
    }

    /// An empty key store.
    pub fn new() -> (r: Self)
        ensures
            r.clients() == Map::<Seq<char>, CK>::empty(),
            r.servers() == Map::<Seq<char>, SK>::empty(),
    {
        KeyStore { client_keys: HandleMap::new(), server_keys: HandleMap::new() }
    }

    /// Validate the parameter set, derive one key pair through `keygen`, and
    /// store the pair under two fresh, distinct handles.
    ///
    /// Fails exactly on an unrecognized parameter set, and then changes
    /// nothing.
    pub fn generate_keys<F: FnOnce() -> (CK, SK)>(
        &mut self,
        parameter_set: &str,
        keygen: F,
    ) -> (r: Result<(String, String), FheError>)
        requires
            call_requires(keygen, ()),
        ensures
            r is Err <==> !valid_parameter_set(parameter_set@),
            r matches Err(e) ==> {
                &&& e == FheError::InvalidParameterSet
                &&& final(self).clients() == old(self).clients()
                &&& final(self).servers() == old(self).servers()
            },
            r matches Ok(ids) ==> {
                &&& ids.0@.len() >= 36
                &&& ids.1@.len() >= 36
                &&& ids.0@ != ids.1@
                &&& !old(self).clients().contains_key(ids.0@)
                &&& !old(self).servers().contains_key(ids.0@)
                &&& !old(self).clients().contains_key(ids.1@)
                &&& !old(self).servers().contains_key(ids.1@)
                &&& final(self).clients().contains_key(ids.0@)
                &&& final(self).servers().contains_key(ids.1@)
                &&& exists|p: (CK, SK)|
                    {
                        &&& #[trigger] call_ensures(keygen, (), p)
                        &&& final(self).clients() == old(self).clients().insert(ids.0@, p.0)
                        &&& final(self).servers() == old(self).servers().insert(ids.1@, p.1)
                    }
            },
    {
        if !parameter_set_is_valid(parameter_set) {
            return Err(FheError::InvalidParameterSet);
        }
        let (client_key, server_key) = keygen();
        let client_key_id = fresh_id_for(&self.client_keys, &self.server_keys);
        self.client_keys.insert_with(client_key_id.clone(), client_key);
        let server_key_id = fresh_id_for(&self.client_keys, &self.server_keys);
        self.server_keys.insert_with(server_key_id.clone(), server_key);
        Ok((client_key_id, server_key_id))
    }

    /// The client key a handle resolves to, if any.
    pub fn get_client_key(&self, key_id: &str) -> (r: Option<&CK>)
        ensures
            match r {
                Some(k) => self.clients().contains_key(key_id@) && *k == self.clients()[key_id@],
                None => !self.clients().contains_key(key_id@),
            },
    {
        self.client_keys.get(key_id)
    }

    /// The server key a handle resolves to, if any.
    pub fn get_server_key(&self, key_id: &str) -> (r: Option<&SK>)
        ensures
            match r {
                Some(k) => self.servers().contains_key(key_id@) && *k == self.servers()[key_id@],
                None => !self.servers().contains_key(key_id@),
            },
    {
        self.server_keys.get(key_id)
    }
}

/// Ciphertexts by kind: a boolean partition and an integer partition.
///
/// A stored ciphertext is write-once: entries are only ever added, and an
/// insert never touches an existing entry.
pub struct CiphertextStore<B, I> {
    boolean_ciphertexts: HandleMap<B>,
    integer_ciphertexts: HandleMap<I>,
}

impl<B, I> CiphertextStore<B, I> {
    /// The boolean partition.
    pub closed spec fn booleans(&self) -> Map<Seq<char>, B> {
        self.boolean_ciphertexts@
    }

    /// The integer partition.
    pub closed spec fn integers(&self) -> Map<Seq<char>, I> {
        self.integer_ciphertexts@
    }

    /// An empty ciphertext store.
    pub fn new() -> (r: Self)
        ensures
            r.booleans() == Map::<Seq<char>, B>::empty(),
            r.integers() == Map::<Seq<char>, I>::empty(),
    {
        CiphertextStore {
            boolean_ciphertexts: HandleMap::new(),
            integer_ciphertexts: HandleMap::new(),
        }
    }

    /// Store a boolean ciphertext under a fresh handle and return the handle.
    pub fn store_boolean(&mut self, ciphertext: B) -> (id: String)
        ensures
            id@.len() >= 36,
            !old(self).booleans().contains_key(id@),
            !old(self).integers().contains_key(id@),
            final(self).booleans() == old(self).booleans().insert(id@, ciphertext),
            final(self).integers() == old(self).integers(),
    {
        let id = fresh_id_for(&self.boolean_ciphertexts, &self.integer_ciphertexts);
        self.boolean_ciphertexts.insert_with(id.clone(), ciphertext);
        id
    }

    /// Store an integer ciphertext under a fresh handle and return the handle.
    pub fn store_integer(&mut self, ciphertext: I) -> (id: String)
        ensures
            id@.len() >= 36,
            !old(self).booleans().contains_key(id@),
            !old(self).integers().contains_key(id@),
            final(self).integers() == old(self).integers().insert(id@, ciphertext),
            final(self).booleans() == old(self).booleans(),
    {
        let id = fresh_id_for(&self.boolean_ciphertexts, &self.integer_ciphertexts);
        self.integer_ciphertexts.insert_with(id.clone(), ciphertext);
        id
    }

    /// The boolean ciphertext a handle resolves to, if any.
    pub fn get_boolean(&self, id: &str) -> (r: Option<&B>)
        ensures
            match r {
                Some(c) => self.booleans().contains_key(id@) && *c == self.booleans()[id@],
                None => !self.booleans().contains_key(id@),
            },
    {
        self.boolean_ciphertexts.get(id)
    }

    /// The integer ciphertext a handle resolves to, if any.
    pub fn get_integer(&self, id: &str) -> (r: Option<&I>)
        ensures
            match r {
                Some(c) => self.integers().contains_key(id@) && *c == self.integers()[id@],
                None => !self.integers().contains_key(id@),
            },
    {
        self.integer_ciphertexts.get(id)
    }
}

/// Handles are never reused: a handle drawn fresh against a store that
/// already holds an earlier handle differs from that earlier handle. In
/// particular, any number of consecutive inserts return pairwise distinct
/// handles.
pub proof fn lemma_fresh_handles_distinct<V>(
    before: Map<Seq<char>, V>,
    first: Seq<char>,
    value: V,
    second: Seq<char>,
)
    requires
        !before.insert(first, value).contains_key(second),
    ensures
        first != second,
{
}

} // verus!
