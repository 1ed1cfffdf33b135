//! The registry of open sessions, keyed by logical database name.
use vstd::prelude::*;
use crate::error::Error;

verus! {

/// The map that a list of distinct-named entries stands for.
pub open spec fn entries_map<T>(e: Seq<(String, T)>) -> Map<Seq<char>, T> {
    Map::new(
        |k: Seq<char>| exists|i: int| 0 <= i < e.len() && e[i].0@ == k,
        |k: Seq<char>| e[choose|i: int| 0 <= i < e.len() && e[i].0@ == k].1,
    )
}

pub open spec fn distinct_names<T>(e: Seq<(String, T)>) -> bool {
    forall|i: int, j: int| 0 <= i < j < e.len() ==> (#[trigger] e[i]).0@ != (#[trigger] e[j]).0@
}

/// The registry after opening `name` with the session `v`: an open name
/// keeps its session.
pub open spec fn open_of<T>(m: Map<Seq<char>, T>, name: Seq<char>, v: T) -> Map<Seq<char>, T> {
    if m.contains_key(name) {
        m
    } else {
        m.insert(name, v)
    }
}

/// The open sessions, keyed by name, with the directories that their
/// files and the storage extension are looked up in.
pub struct DatabaseManager<T> {
    databases: Vec<(String, T)>,
    app_data_dir: String,
    resource_dir: Option<String>,
}

impl<T> View for DatabaseManager<T> {
    type V = Map<Seq<char>, T>;

    closed spec fn view(&self) -> Map<Seq<char>, T> {
        entries_map(self.databases@)
    }
}

impl<T> DatabaseManager<T> {
    #[verifier::type_invariant]
    closed spec fn wf(&self) -> bool {
        distinct_names(self.databases@)
    }

    pub closed spec fn spec_app_data_dir(&self) -> Seq<char> {
        self.app_data_dir@
    }

    /// An empty registry.
    pub fn new(app_data_dir: String, resource_dir: Option<String>) -> (r: Self)
        ensures
            r@ == Map::<Seq<char>, T>::empty(),
            r.spec_app_data_dir() == app_data_dir@,
            r.spec_resource_dir() == resource_dir,
    {
        let r = DatabaseManager { databases: Vec::new(), app_data_dir, resource_dir };
        assert(r@ =~= Map::<Seq<char>, T>::empty());
        r
    }

    /// The directory that database files live in.
    pub fn app_data_dir(&self) -> (r: &String)
        ensures
            r@ == self.spec_app_data_dir(),
    {
        &self.app_data_dir
    }

    pub closed spec fn spec_resource_dir(&self) -> Option<String> {
        self.resource_dir
    }

    /// The directory searched for the storage extension, if any.
    pub fn resource_dir(&self) -> (r: &Option<String>)
        ensures
            *r == self.spec_resource_dir(),
    {
        &self.resource_dir
    }

    /// The file name, inside the data directory, of the database `name`.
    pub fn database_file(name: &str) -> (r: String)
        ensures
            r@ == name@ + ".db"@,
    {
        let mut f = String::from_str(name);
        f.append(".db");
        f
    }

    fn position(&self, name: &str) -> (r: Option<usize>)
        ensures
            r is Some ==> r->Some_0 < self.databases@.len() && self.databases@[r->Some_0 as int].0@
                == name@,
            r is None <==> !self@.contains_key(name@),
    {
        proof {
            use_type_invariant(self);
        }
        let key = String::from_str(name);
        let mut i: usize = 0;
        while i < self.databases.len()
            invariant
                key@ == name@,
                i <= self.databases@.len(),
                forall|k: int| 0 <= k < i ==> (#[trigger] self.databases@[k]).0@ != name@,
            decreases self.databases@.len() - i,
        {
            if self.databases[i].0 == key {
                return Some(i);
            }
            i = i + 1;
        }
        None
    }

    /// How many sessions are open.
    pub fn len(&self) -> (r: usize)
        ensures
            r == self@.len(),
    {
        proof {
            use_type_invariant(self);
            let e = self.databases@;
            let names = e.map_values(|p: (String, T)| p.0@);
            assert(names.no_duplicates()) by {
                assert forall|i: int, j: int| 0 <= i < names.len() && 0 <= j < names.len() && i != j
                    implies names[i] != names[j] by {
                    if i < j {
                        assert(e[i].0@ != e[j].0@);
                    } else {
                        assert(e[j].0@ != e[i].0@);
                    }
                }
            }
            names.unique_seq_to_set();
            assert forall|k: Seq<char>| #[trigger] self@.dom().contains(k) == names.to_set().contains(k) by {
                if self@.dom().contains(k) {
                    let i = choose|i: int| 0 <= i < e.len() && e[i].0@ == k;
                    assert(names[i] == k);
                }
                if names.to_set().contains(k) {
                    let i = choose|i: int| 0 <= i < names.len() && names[i] == k;
                    assert(e[i].0@ == k);
                }
            }
            assert(self@.dom() =~= names.to_set());
        }
        self.databases.len()
    }

    /// Whether a session is open under `name`.
    pub fn contains(&self, name: &str) -> (r: bool)
        ensures
            r == self@.contains_key(name@),
    {
        self.position(name).is_some()
    }

    /// Registers `session` under `name` unless a session is open under it
    /// already, in which case nothing changes and `session` is dropped.
    pub fn open(&mut self, name: &str, session: T)
        ensures
            final(self)@ == open_of(old(self)@, name@, session),
            final(self).spec_app_data_dir() == old(self).spec_app_data_dir(),
            final(self).spec_resource_dir() == old(self).spec_resource_dir(),
    {
        proof {
            use_type_invariant(&*self);
        }
        if self.position(name).is_some() {
            return;
        }
        let ghost before = self.databases@;
        let mut entries: Vec<(String, T)> = Vec::new();
        std::mem::swap(&mut entries, &mut self.databases);
        entries.push((String::from_str(name), session));
        proof {
            let after = entries@;
            let n = before.len() as int;
            assert(after[n].0@ == name@);
            assert forall|i: int, j: int| 0 <= i < j < after.len() implies (#[trigger] after[i]).0@
                != (#[trigger] after[j]).0@ by {
                if j == n {
                    assert(after[i] == before[i]);
                } else {
                    assert(after[i] == before[i] && after[j] == before[j]);
                }
            }
            assert forall|k: Seq<char>| #[trigger] entries_map(after).contains_key(k) == old(self)@.insert(
                name@,
                session,
            ).contains_key(k) by {
                if old(self)@.contains_key(k) {
                    let i = choose|i: int| 0 <= i < before.len() && before[i].0@ == k;
                    assert(after[i] == before[i]);
                }
                if entries_map(after).contains_key(k) && k != name@ {
                    let i = choose|i: int| 0 <= i < after.len() && after[i].0@ == k;
                    assert(i < n);
                    assert(after[i] == before[i]);
                }
            }
            assert forall|k: Seq<char>| #[trigger] entries_map(after).contains_key(k) implies entries_map(after)[k] == old(
                self,
            )@.insert(name@, session)[k] by {
                let i = choose|i: int| 0 <= i < after.len() && after[i].0@ == k;
                if k == name@ {
                    assert(i == n);
                } else {
                    assert(i < n);
                    assert(after[i] == before[i]);
                    let j = choose|j: int| 0 <= j < before.len() && before[j].0@ == k;
                    assert(after[j] == before[j]);
                    assert(i == j);
                }
            }
            assert(entries_map(after) =~= old(self)@.insert(name@, session));
        }
        std::mem::swap(&mut entries, &mut self.databases);
    }

    /// Drops the session open under `name`, if there is one. Closing a name
    /// that is not open is no error.
    pub fn close(&mut self, name: &str) -> (r: Result<(), Error>)
        ensures
            r is Ok,
            final(self)@ == old(self)@.remove(name@),
            final(self).spec_app_data_dir() == old(self).spec_app_data_dir(),
            final(self).spec_resource_dir() == old(self).spec_resource_dir(),
    {
        proof {
            use_type_invariant(&*self);
        }
        match self.position(name) {
            None => {
                assert(self@ =~= old(self)@.remove(name@));
                Ok(())
            },
            Some(i) => {
                let ghost before = self.databases@;
                let mut entries: Vec<(String, T)> = Vec::new();
                std::mem::swap(&mut entries, &mut self.databases);
                let _ = entries.remove(i);
                proof {
                    let after = entries@;
                    let ix = i as int;
                    assert forall|a: int, b: int| 0 <= a < b < after.len() implies (
                    #[trigger] after[a]).0@ != (#[trigger] after[b]).0@ by {
                        let a2 = if a < ix { a } else { a + 1 };
                        let b2 = if b < ix { b } else { b + 1 };
                        assert(after[a] == before[a2]);
                        assert(after[b] == before[b2]);
                    }
                    assert forall|k: Seq<char>| #[trigger] entries_map(after).contains_key(k) == old(
                        self,
                    )@.remove(name@).contains_key(k) by {
                        if entries_map(after).contains_key(k) {
                            let a = choose|a: int| 0 <= a < after.len() && after[a].0@ == k;
                            let a2 = if a < ix { a } else { a + 1 };
                            assert(after[a] == before[a2]);
                            assert(k != name@);
                        }
                        if old(self)@.contains_key(k) && k != name@ {
                            let j = choose|j: int| 0 <= j < before.len() && before[j].0@ == k;
                            assert(j != ix);
                            let j2 = if j < ix { j } else { j - 1 };
                            assert(after[j2] == before[j]);
                        }
                    }
                    assert forall|k: Seq<char>| #[trigger] entries_map(after).contains_key(k) implies entries_map(after)[k]
                        == old(self)@.remove(name@)[k] by {
                        let a = choose|a: int| 0 <= a < after.len() && after[a].0@ == k;
                        let a2 = if a < ix { a } else { a + 1 };
                        assert(after[a] == before[a2]);
                        let j = choose|j: int| 0 <= j < before.len() && before[j].0@ == k;
                        if j != a2 {
                            if j < a2 {
                                assert(before[j].0@ != before[a2].0@);
                            } else {
                                assert(before[a2].0@ != before[j].0@);
                            }
                        }
                    }
                    assert(entries_map(after) =~= old(self)@.remove(name@));
                }
                std::mem::swap(&mut entries, &mut self.databases);
                Ok(())
            },
        }
    }

    /// The session open under `name`, or a not-found error naming it.
    pub fn get(&self, name: &str) -> (r: Result<&T, Error>)
        ensures
            r is Ok <==> self@.contains_key(name@),
            r is Ok ==> *r->Ok_0 == self@[name@],
            r is Err ==> r->Err_0 is DatabaseNotFound && r->Err_0->DatabaseNotFound_0@ == name@,
    {
        proof {
            use_type_invariant(self);
        }
        match self.position(name) {
            None => Err(Error::DatabaseNotFound(String::from_str(name))),
            Some(i) => {
                proof {
                    let e = self.databases@;
                    let j = choose|j: int| 0 <= j < e.len() && e[j].0@ == name@;
                    if j != i {
                        if j < i {
                            assert(e[j].0@ != e[i as int].0@);
                        } else {
                            assert(e[i as int].0@ != e[j].0@);
                        }
                    }
                }
                Ok(&self.databases[i].1)
            },
        }
    }
}

/// Opening a name twice registers one session, the first; once the name is
/// closed, looking it up finds nothing.
pub proof fn lemma_open_is_idempotent<T>(m: Map<Seq<char>, T>, name: Seq<char>, a: T, b: T)
    ensures
        open_of(open_of(m, name, a), name, b) == open_of(m, name, a),
        open_of(m, name, a).contains_key(name),
        open_of(m, name, a).dom() == m.dom().insert(name),
        !m.contains_key(name) ==> open_of(m, name, a)[name] == a,
        !open_of(open_of(m, name, a), name, b).remove(name).contains_key(name),
{
    assert(open_of(m, name, a).dom() =~= m.dom().insert(name));
}

} // verus!
