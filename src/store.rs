//! An in-memory store of records keyed by identifier, with the operations a
//! persistence layer offers: insert, update, delete, get and list.
use vstd::prelude::*;
use crate::entry::{PasswordEntry, EntryView, entry_wf};

verus! {

/// Why a store operation failed.
#[derive(Clone, Copy, Debug, PartialEq, Eq, Structural)]
pub enum PersistenceError {
    /// A record with that identifier is already stored.
    DuplicateId,
    /// No record with that identifier is stored.
    NotFound,
}

/// Index of the record with identifier `id` in `rows`, or -1 if there is none.
pub open spec fn position(rows: Seq<EntryView>, id: Seq<char>) -> int
    decreases rows.len(),
{
    if rows.len() == 0 {
        -1
    } else if rows.last().id == id {
        rows.len() - 1
    } else {
        position(rows.drop_last(), id)
    }
}

/// The record with identifier `id`, if one is stored.
pub open spec fn lookup(rows: Seq<EntryView>, id: Seq<char>) -> Option<EntryView> {
    if position(rows, id) >= 0 {
        Some(rows[position(rows, id)])
    } else {
        None
    }
}

/// No two records share an identifier.
pub open spec fn ids_unique(rows: Seq<EntryView>) -> bool {
    forall|i: int, j: int| 0 <= i < j < rows.len() ==> rows[i].id != rows[j].id
}

pub proof fn lemma_position_bounds(rows: Seq<EntryView>, id: Seq<char>)
    ensures
        -1 <= position(rows, id) < rows.len(),
        position(rows, id) >= 0 ==> rows[position(rows, id)].id == id,
        position(rows, id) < 0 ==> forall|i: int| 0 <= i < rows.len() ==> rows[i].id != id,
    decreases rows.len(),
{
    if rows.len() > 0 {
        lemma_position_bounds(rows.drop_last(), id);
        assert forall|i: int| 0 <= i < rows.len() - 1 implies rows[i] == rows.drop_last()[i] by {}
    }
}

/// A store of records, each under its own identifier.
pub struct EntryStore {
    rows: Vec<PasswordEntry>,
}

impl View for EntryStore {
    type V = Seq<EntryView>;

    closed spec fn view(&self) -> Seq<EntryView> {
        self.rows@.map_values(|e: PasswordEntry| e@)
    }
}

fn copy_entry(e: &PasswordEntry) -> (r: PasswordEntry)
    ensures
        r@ == e@,
{
    PasswordEntry {
        id: e.id.clone(),
        title: e.title.clone(),
        username: e.username.clone(),
        password: e.password.clone(),
        website: match &e.website {
            Some(s) => Some(s.clone()),
            None => None,
        },
        email: match &e.email {
            Some(s) => Some(s.clone()),
            None => None,
        },
        created_at: e.created_at.clone(),
        updated_at: e.updated_at.clone(),
    }
}

impl EntryStore {
    /// Identifiers are unique and every stored record keeps the record rules.
    pub open spec fn wf(&self) -> bool {
        &&& ids_unique(self@)
        &&& forall|i: int| 0 <= i < self@.len() ==> entry_wf(#[trigger] self@[i])
    }

    /// An empty store.
    pub fn new() -> (s: EntryStore)
        ensures
            s@ == Seq::<EntryView>::empty(),
            s.wf(),
    {
        let s = EntryStore { rows: Vec::new() };
        assert(s@ =~= Seq::<EntryView>::empty());
        s
    }

    /// Number of stored records.
    pub fn len(&self) -> (n: usize)
        ensures
            n == self@.len(),
    {
        self.rows.len()
    }

    /// Index of the record with identifier `id`.
    fn find(&self, id: &String) -> (r: Option<usize>)
        ensures
            match r {
                Some(i) => position(self@, id@) == i,
                None => position(self@, id@) == -1,
            },
    {
        let mut i: usize = self.rows.len();
        assert(self@.take(i as int) =~= self@);
        while i > 0
            invariant
                i <= self.rows.len(),
                self@.len() == self.rows.len(),
                position(self@, id@) == position(self@.take(i as int), id@),
            decreases i,
        {
            let ghost prefix = self@.take(i as int);
            assert(prefix.last() == self@[i - 1]);
            assert(prefix.drop_last() =~= self@.take(i - 1));
            if self.rows[i - 1].id == *id {
                return Some(i - 1);
            }
            i = i - 1;
        }
        None
    }

    /// The record stored under `id`, if any.
    pub fn get(&self, id: &String) -> (r: Option<PasswordEntry>)
        ensures
            match r {
                Some(e) => lookup(self@, id@) == Some(e@),
                None => lookup(self@, id@) is None,
            },
    {
        proof {
            lemma_position_bounds(self@, id@);
        }
        match self.find(id) {
            Some(i) => Some(copy_entry(&self.rows[i])),
            None => None,
        }
    }

    /// Adds `entry`; fails if its identifier is already stored.
    pub fn insert(&mut self, entry: PasswordEntry) -> (r: Result<(), PersistenceError>)
        requires
            old(self).wf(),
            entry_wf(entry@),
        ensures
            final(self).wf(),
            r is Err <==> lookup(old(self)@, entry@.id) is Some,
            r matches Err(e) ==> e == PersistenceError::DuplicateId && final(self)@ == old(self)@,
            r is Ok ==> final(self)@ == old(self)@.push(entry@),
    {
        match self.find(&entry.id) {
            Some(_) => Err(PersistenceError::DuplicateId),
            None => {
                proof {
                    lemma_position_bounds(self@, entry@.id);
                }
                self.rows.push(entry);
                assert(self@ =~= old(self)@.push(entry@));
                Ok(())
            },
        }
    }

    /// Replaces the record with the identifier of `entry`; fails if none is stored.
    pub fn update(&mut self, entry: PasswordEntry) -> (r: Result<(), PersistenceError>)
        requires
            old(self).wf(),
            entry_wf(entry@),
        ensures
            final(self).wf(),
            r is Err <==> lookup(old(self)@, entry@.id) is None,
            r matches Err(e) ==> e == PersistenceError::NotFound && final(self)@ == old(self)@,
            r is Ok ==> final(self)@ == old(self)@.update(position(old(self)@, entry@.id), entry@),
    {
        match self.find(&entry.id) {
            Some(i) => {
                proof {
                    lemma_position_bounds(self@, entry@.id);
                }
                self.rows.set(i, entry);
                assert(self@ =~= old(self)@.update(i as int, entry@));
                Ok(())
            },
            None => Err(PersistenceError::NotFound),
        }
    }

    /// Removes the record stored under `id`; fails if none is stored.
    pub fn delete(&mut self, id: &String) -> (r: Result<(), PersistenceError>)
        requires
            old(self).wf(),
        ensures
            final(self).wf(),
            r is Err <==> lookup(old(self)@, id@) is None,
            r matches Err(e) ==> e == PersistenceError::NotFound && final(self)@ == old(self)@,
            r is Ok ==> final(self)@ == old(self)@.remove(position(old(self)@, id@)),
    {
        match self.find(id) {
            Some(i) => {
                proof {
                    lemma_position_bounds(self@, id@);
                }
                self.rows.remove(i);
                assert(self@ =~= old(self)@.remove(i as int));
                Ok(())
            },
            None => Err(PersistenceError::NotFound),
        }
    }

    /// Copies of all stored records, in the order they were inserted.
    pub fn list(&self) -> (r: Vec<PasswordEntry>)
        ensures
            r@.map_values(|e: PasswordEntry| e@) == self@,
    {
        let mut out: Vec<PasswordEntry> = Vec::new();
        let mut i: usize = 0;
        while i < self.rows.len()
            invariant
                i <= self.rows.len(),
                self@.len() == self.rows.len(),
                out@.map_values(|e: PasswordEntry| e@) =~= self@.take(i as int),
            decreases self.rows.len() - i,
        {
            let e = copy_entry(&self.rows[i]);
            let ghost before = out@;
            out.push(e);
            assert(out@ =~= before.push(e));
            assert(self@.take(i + 1) =~= self@.take(i as int).push(self@[i as int]));
            i = i + 1;
        }
        assert(self@.take(i as int) =~= self@);
        out
    }
}

/// Inserting a record and then looking up its identifier gives back a
/// record equal to it in every field.
pub proof fn lemma_insert_then_get(rows: Seq<EntryView>, e: EntryView)
    requires
        lookup(rows, e.id) is None,
    ensures
        lookup(rows.push(e), e.id) == Some(e),
{
    assert(rows.push(e).last() == e);
}

} // verus!
