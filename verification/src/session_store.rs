//! The chat memory of sessions: each session keeps its latest records (at
//! most a hundred), knows how many of them are already written to its file,
//! and asks for a write once fifty records are waiting. Written records can
//! no longer be changed or removed.
use crate::record::{record_views, Record, RecordView};
use vstd::prelude::*;
use vstd::string::StringExecFns;

verus! {

/// Records a session keeps at most.
pub const SESSION_CAPACITY: usize = 100;

/// Unwritten records that make a session ask to be written.
pub const FLUSH_THRESHOLD: usize = 50;

/// The abstract state of a session's memory.
pub struct LogView {
    /// The records kept, oldest first.
    pub items: Seq<RecordView>,
    /// How many of the first records are written to the session's file.
    pub flushed: nat,
}

/// The memory of one session.
pub struct SessionLog {
    flushed: usize,
    items: Vec<Record>,
}

impl View for SessionLog {
    type V = LogView;

    closed spec fn view(&self) -> LogView {
        LogView { items: record_views(self.items@), flushed: self.flushed as nat }
    }
}

/// A well-formed session memory: no more than a hundred records, and no
/// more written than kept.
pub open spec fn well_formed(v: LogView) -> bool {
    v.flushed <= v.items.len() <= 100
}

/// The memory after a record is added: the record goes last, the oldest
/// records beyond a hundred are dropped, and the written count shrinks by
/// as many.
pub open spec fn pushed(v: LogView, x: RecordView) -> LogView {
    let items = v.items.push(x);
    if items.len() > 100 {
        let excess = items.len() - 100;
        LogView {
            items: items.skip(excess),
            flushed: if v.flushed >= excess {
                (v.flushed - excess) as nat
            } else {
                0
            },
        }
    } else {
        LogView { items, flushed: v.flushed }
    }
}

/// Whether enough records wait to be written.
pub open spec fn wants_flush(v: LogView) -> bool {
    v.items.len() - v.flushed >= 50
}

/// The records from `offset`, at most `limit` of them.
pub open spec fn window(items: Seq<RecordView>, offset: nat, limit: nat) -> Seq<RecordView> {
    let start = if offset < items.len() {
        offset
    } else {
        items.len()
    };
    let end = if offset + limit < items.len() {
        offset + limit
    } else {
        items.len()
    };
    items.subrange(start as int, end as int)
}

/// Index of the first record with the id, or -1.
pub open spec fn position(items: Seq<RecordView>, id: Seq<char>) -> int
    decreases items.len(),
{
    if items.len() == 0 {
        -1
    } else {
        let k = position(items.drop_last(), id);
        if k >= 0 {
            k
        } else if items.last().id == id {
            items.len() - 1
        } else {
            -1
        }
    }
}

pub proof fn lemma_position(items: Seq<RecordView>, id: Seq<char>)
    ensures
        -1 <= position(items, id) < items.len(),
        position(items, id) >= 0 ==> items[position(items, id)].id == id,
        forall|j: int|
            0 <= j < items.len() && (position(items, id) < 0 || j < position(items, id)) ==> (
            #[trigger] items[j]).id != id,
    decreases items.len(),
{
    if items.len() > 0 {
        lemma_position(items.drop_last(), id);
        assert forall|j: int|
            0 <= j < items.len() && (position(items, id) < 0 || j < position(items, id)) implies (
            #[trigger] items[j]).id != id by {
            if j < items.len() - 1 {
                assert(items[j] == items.drop_last()[j]);
            }
        }
    }
}

/// The refusal to change a written record.
pub open spec fn update_refusal() -> Seq<char> {
    "Cannot update an item that has already been flushed to file"@
}

/// The refusal to remove a written record.
pub open spec fn delete_refusal() -> Seq<char> {
    "Cannot delete an item that has already been flushed to file"@
}

fn find_id(items: &Vec<Record>, id: &str) -> (r: Option<usize>)
    ensures
        match r {
            Some(k) => k as int == position(record_views(items@), id@) && k < items@.len(),
            None => position(record_views(items@), id@) < 0,
        },
{
    proof {
        lemma_position(record_views(items@), id@);
    }
    let ghost v = record_views(items@);
    let wanted = String::from_str(id);
    let mut i: usize = 0;
    while i < items.len()
        invariant
            i <= items@.len(),
            v == record_views(items@),
            wanted@ == id@,
            -1 <= position(v, id@) < v.len(),
            position(v, id@) >= 0 ==> v[position(v, id@)].id == id@,
            forall|j: int| 0 <= j < v.len() && (position(v, id@) < 0 || j < position(v, id@)) ==> (#[trigger] v[j]).id != id@,
            forall|j: int| 0 <= j < i ==> (#[trigger] v[j]).id != id@,
        decreases items@.len() - i,
    {
        assert(v[i as int] == items@[i as int]@);
        if items[i].id == wanted {
            return Some(i);
        }
        i = i + 1;
    }
    None
}

impl SessionLog {
    #[verifier::type_invariant]
    spec fn inv(self) -> bool {
        self.flushed <= self.items@.len() <= 100
    }

    /// An empty session.
    pub fn new() -> (r: SessionLog)
        ensures
            r@ == (LogView { items: Seq::empty(), flushed: 0 }),
    {
        let r = SessionLog { flushed: 0, items: Vec::new() };
        assert(record_views(r.items@) =~= Seq::<RecordView>::empty());
        r
    }

    /// A session read back from its file: its latest hundred records, all written.
    pub fn from_file(items: Vec<Record>) -> (r: SessionLog)
        ensures
            ({
                let all = record_views(items@);
                let kept = if all.len() > 100 {
                    all.skip(all.len() - 100)
                } else {
                    all
                };
                r@ == (LogView { items: kept, flushed: kept.len() })
            }),
    {
        let n = items.len();
        let start = if n > SESSION_CAPACITY {
            n - SESSION_CAPACITY
        } else {
            0
        };
        let ghost all = record_views(items@);
        let mut items = items;
        let ghost orig = items@;
        let rest = items.split_off(start);
        assert(rest@ =~= orig.skip(start as int));
        let flushed = rest.len();
        let r = SessionLog { flushed, items: rest };
        assert(record_views(r.items@) =~= if all.len() > 100 {
            all.skip(all.len() - 100)
        } else {
            all
        });
        r
    }

    /// The records kept, oldest first.
    pub fn items(&self) -> (r: &Vec<Record>)
        ensures
            record_views(r@) == self@.items,
            well_formed(self@),
    {
        proof {
            use_type_invariant(self);
        }
        &self.items
    }

    /// How many of the first records are written.
    pub fn flushed(&self) -> (r: usize)
        ensures
            r == self@.flushed,
            well_formed(self@),
    {
        proof {
            use_type_invariant(self);
        }
        self.flushed
    }

    /// Adds a record; tells whether enough records now wait to be written.
    pub fn push(&mut self, item: Record) -> (should_flush: bool)
        ensures
            final(self)@ == pushed(old(self)@, item@),
            should_flush == wants_flush(final(self)@),
            well_formed(final(self)@),
    {
        proof {
            use_type_invariant(&*self);
        }
        let ghost x = item@;
        let flushed = self.flushed;
        self.flushed = 0;
        let mut items: Vec<Record> = Vec::new();
        std::mem::swap(&mut items, &mut self.items);
        let ghost before = record_views(items@);
        items.push(item);
        assert(record_views(items@) =~= before.push(x));
        let mut new_flushed = flushed;
        if items.len() > SESSION_CAPACITY {
            let excess = items.len() - SESSION_CAPACITY;
            let ghost all = items@;
            let tail = items.split_off(excess);
            assert(tail@ =~= all.skip(excess as int));
            assert(record_views(tail@) =~= record_views(all).skip(excess as int));
            items = tail;
            new_flushed = flushed.saturating_sub(excess);
        }
        self.items = items;
        self.flushed = new_flushed;
        self.items.len() - self.flushed >= FLUSH_THRESHOLD
    }

    /// The records from `offset`, at most `limit` of them.
    pub fn load(&self, offset: usize, limit: usize) -> (r: Vec<Record>)
        ensures
            record_views(r@) == window(self@.items, offset as nat, limit as nat),
    {
        let n = self.items.len();
        let start = if offset < n {
            offset
        } else {
            n
        };
        let end = if offset <= n && limit < n - offset {
            offset + limit
        } else {
            n
        };
        let mut r: Vec<Record> = Vec::new();
        let mut i = start;
        while i < end
            invariant
                start <= i <= end <= n,
                n == self.items@.len(),
                record_views(r@) == record_views(self.items@).subrange(start as int, i as int),
            decreases end - i,
        {
            let x = self.items[i].copy();
            let ghost before = record_views(r@);
            r.push(x);
            assert(record_views(r@) =~= before.push(x@));
            assert(record_views(self.items@).subrange(start as int, i + 1) =~= record_views(self.items@).subrange(start as int, i as int).push(self.items@[i as int]@));
            i = i + 1;
        }
        r
    }

    /// Replaces the record with the item's id. `Ok(None)` when there is no
    /// such record; refused when that record is written; otherwise tells
    /// whether enough records now wait to be written.
    pub fn update(&mut self, item: Record) -> (r: Result<Option<bool>, String>)
        ensures
            ({
                let k = position(old(self)@.items, item@.id);
                &&& k < 0 ==> r == Ok::<Option<bool>, String>(None) && final(self)@ == old(self)@
                &&& 0 <= k < old(self)@.flushed ==> (r matches Err(m) && m@ == update_refusal()) && final(self)@ == old(self)@
                &&& k >= old(self)@.flushed ==> final(self)@ == (LogView { items: old(self)@.items.update(k, item@), ..old(self)@ })
                    && r == Ok::<Option<bool>, String>(Some(wants_flush(final(self)@)))
            }),
            well_formed(final(self)@),
    {
        proof {
            use_type_invariant(&*self);
        }
        let ghost x = item@;
        match find_id(&self.items, item.id.as_str()) {
            None => Ok(None),
            Some(k) => {
                if k < self.flushed {
                    return Err(String::from_str("Cannot update an item that has already been flushed to file"));
                }
                let ghost before = self.items@;
                let flushed = self.flushed;
                self.flushed = 0;
                let mut items: Vec<Record> = Vec::new();
                std::mem::swap(&mut items, &mut self.items);
                items.set(k, item);
                assert(record_views(items@) =~= record_views(before).update(k as int, x));
                self.items = items;
                self.flushed = flushed;
                Ok(Some(self.items.len() - self.flushed >= FLUSH_THRESHOLD))
            },
        }
    }

    /// Removes the record with the id. `Ok(false)` when there is none;
    /// refused when it is written; otherwise tells whether enough records
    /// now wait to be written.
    pub fn delete(&mut self, id: &str) -> (r: Result<bool, String>)
        ensures
            ({
                let k = position(old(self)@.items, id@);
                &&& k < 0 ==> r == Ok::<bool, String>(false) && final(self)@ == old(self)@
                &&& 0 <= k < old(self)@.flushed ==> (r matches Err(m) && m@ == delete_refusal()) && final(self)@ == old(self)@
                &&& k >= old(self)@.flushed ==> final(self)@ == (LogView { items: old(self)@.items.remove(k), ..old(self)@ })
                    && r == Ok::<bool, String>(wants_flush(final(self)@))
            }),
            well_formed(final(self)@),
    {
        proof {
            use_type_invariant(&*self);
        }
        match find_id(&self.items, id) {
            None => Ok(false),
            Some(k) => {
                if k < self.flushed {
                    return Err(String::from_str("Cannot delete an item that has already been flushed to file"));
                }
                let ghost before = self.items@;
                let flushed = self.flushed;
                self.flushed = 0;
                let mut items: Vec<Record> = Vec::new();
                std::mem::swap(&mut items, &mut self.items);
                items.remove(k);
                assert(record_views(items@) =~= record_views(before).remove(k as int));
                self.items = items;
                self.flushed = flushed;
                Ok(self.items.len() - self.flushed >= FLUSH_THRESHOLD)
            },
        }
    }

    /// Hands out the records not yet written, in order, and counts them as written.
    pub fn take_unflushed(&mut self) -> (r: Vec<Record>)
        ensures
            record_views(r@) == old(self)@.items.skip(old(self)@.flushed as int),
            final(self)@ == (LogView { items: old(self)@.items, flushed: old(self)@.items.len() }),
            well_formed(final(self)@),
    {
        proof {
            use_type_invariant(&*self);
        }
        let r = self.load(self.flushed, self.items.len() - self.flushed);
        assert(window(self@.items, self.flushed as nat, (self.items@.len() - self.flushed) as nat) =~= self@.items.skip(self.flushed as int));
        self.flushed = self.items.len();
        r
    }
}

/// The memory of one session of one user.
struct StoreEntry {
    user_id: String,
    session_id: String,
    log: SessionLog,
}

/// The chat memory of all sessions, by user and session.
pub struct MemoryStore {
    entries: Vec<StoreEntry>,
}

/// A user and a session, by their characters.
spec fn key_of(e: StoreEntry) -> (Seq<char>, Seq<char>) {
    (e.user_id@, e.session_id@)
}

spec fn has_entry(e: Seq<StoreEntry>, k: (Seq<char>, Seq<char>)) -> bool {
    exists|i: int| 0 <= i < e.len() && key_of(#[trigger] e[i]) == k
}

spec fn entry_at(e: Seq<StoreEntry>, k: (Seq<char>, Seq<char>)) -> int {
    choose|i: int| 0 <= i < e.len() && key_of(#[trigger] e[i]) == k
}

spec fn unique_entries(e: Seq<StoreEntry>) -> bool {
    forall|i: int, j: int|
        0 <= i < e.len() && 0 <= j < e.len() && i != j ==> key_of(#[trigger] e[i]) != key_of(#[trigger] e[j])
}

proof fn lemma_entry_at(e: Seq<StoreEntry>, i: int)
    requires
        unique_entries(e),
        0 <= i < e.len(),
    ensures
        has_entry(e, key_of(e[i])),
        entry_at(e, key_of(e[i])) == i,
{
    assert(has_entry(e, key_of(e[i])));
}

spec fn store_map(e: Seq<StoreEntry>) -> Map<(Seq<char>, Seq<char>), LogView> {
    Map::new(|k: (Seq<char>, Seq<char>)| has_entry(e, k), |k: (Seq<char>, Seq<char>)| e[entry_at(e, k)].log@)
}

impl View for MemoryStore {
    type V = Map<(Seq<char>, Seq<char>), LogView>;

    closed spec fn view(&self) -> Map<(Seq<char>, Seq<char>), LogView> {
        store_map(self.entries@)
    }
}

/// The memory of a session (an empty one when it has none).
pub open spec fn log_of(m: Map<(Seq<char>, Seq<char>), LogView>, k: (Seq<char>, Seq<char>)) -> LogView {
    if m.contains_key(k) {
        m[k]
    } else {
        LogView { items: Seq::empty(), flushed: 0 }
    }
}

/// Changing the entry at `i` (same key) maps to a map insert.
proof fn lemma_replace_entry(old_e: Seq<StoreEntry>, new_e: Seq<StoreEntry>, i: int)
    requires
        unique_entries(old_e),
        0 <= i < old_e.len(),
        new_e.len() == old_e.len(),
        key_of(new_e[i]) == key_of(old_e[i]),
        forall|j: int| 0 <= j < old_e.len() && j != i ==> #[trigger] new_e[j] == old_e[j],
    ensures
        unique_entries(new_e),
        store_map(new_e) == store_map(old_e).insert(key_of(old_e[i]), new_e[i].log@),
{
    lemma_entry_at(old_e, i);
    assert forall|a: int, b: int| 0 <= a < new_e.len() && 0 <= b < new_e.len() && a != b implies key_of(#[trigger] new_e[a]) != key_of(#[trigger] new_e[b]) by {
        assert(key_of(new_e[a]) == key_of(old_e[a]));
        assert(key_of(new_e[b]) == key_of(old_e[b]));
    }
    assert forall|k: (Seq<char>, Seq<char>)| has_entry(new_e, k) == has_entry(old_e, k) by {
        if has_entry(old_e, k) {
            let j = entry_at(old_e, k);
            assert(key_of(new_e[j]) == k);
        }
        if has_entry(new_e, k) {
            let j = entry_at(new_e, k);
            assert(key_of(old_e[j]) == k);
        }
    }
    assert forall|k: (Seq<char>, Seq<char>)| #[trigger] has_entry(new_e, k) implies entry_at(new_e, k) == entry_at(old_e, k) by {
        let j = entry_at(old_e, k);
        lemma_entry_at(new_e, j);
        assert(key_of(new_e[j]) == k);
    }
    assert(store_map(new_e) =~= store_map(old_e).insert(key_of(old_e[i]), new_e[i].log@));
}

impl MemoryStore {
    #[verifier::type_invariant]
    spec fn inv(self) -> bool {
        unique_entries(self.entries@)
    }

    /// No memory at all.
    pub fn new() -> (r: MemoryStore)
        ensures
            r@ == Map::<(Seq<char>, Seq<char>), LogView>::empty(),
    {
        let r = MemoryStore { entries: Vec::new() };
        assert(r@ =~= Map::<(Seq<char>, Seq<char>), LogView>::empty());
        r
    }

    fn find(&self, user_id: &str, session_id: &str) -> (r: Option<usize>)
        ensures
            match r {
                Some(i) => i < self.entries@.len() && key_of(self.entries@[i as int]) == (user_id@, session_id@),
                None => !has_entry(self.entries@, (user_id@, session_id@)),
            },
    {
        let u = String::from_str(user_id);
        let s = String::from_str(session_id);
        let mut i: usize = 0;
        while i < self.entries.len()
            invariant
                i <= self.entries@.len(),
                u@ == user_id@,
                s@ == session_id@,
                forall|j: int| 0 <= j < i ==> key_of(#[trigger] self.entries@[j]) != (user_id@, session_id@),
            decreases self.entries@.len() - i,
        {
            if self.entries[i].user_id == u && self.entries[i].session_id == s {
                return Some(i);
            }
            i = i + 1;
        }
        None
    }

    /// Gives a session its memory (as read back from its file).
    pub fn insert_log(&mut self, user_id: String, session_id: String, log: SessionLog)
        ensures
            final(self)@ == old(self)@.insert((user_id@, session_id@), log@),
    {
        proof {
            use_type_invariant(&*self);
        }
        let ghost old_e = self.entries@;
        let ghost k = (user_id@, session_id@);
        let ghost lv = log@;
        match self.find(user_id.as_str(), session_id.as_str()) {
            Some(i) => {
                let mut e: Vec<StoreEntry> = Vec::new();
                std::mem::swap(&mut e, &mut self.entries);
                e.set(i, StoreEntry { user_id, session_id, log });
                proof {
                    lemma_replace_entry(old_e, e@, i as int);
                }
                self.entries = e;
            },
            None => {
                let mut e: Vec<StoreEntry> = Vec::new();
                std::mem::swap(&mut e, &mut self.entries);
                e.push(StoreEntry { user_id, session_id, log });
                proof {
                    let n = old_e.len() as int;
                    assert forall|a: int, b: int| 0 <= a < e@.len() && 0 <= b < e@.len() && a != b implies key_of(#[trigger] e@[a]) != key_of(#[trigger] e@[b]) by {
                        if a < n && b < n {
                            assert(e@[a] == old_e[a]);
                            assert(e@[b] == old_e[b]);
                        } else if a == n {
                            assert(e@[b] == old_e[b]);
                        } else {
                            assert(e@[a] == old_e[a]);
                        }
                    }
                    lemma_entry_at(e@, n);
                    assert forall|id: (Seq<char>, Seq<char>)| id != k implies has_entry(e@, id) == has_entry(old_e, id) by {
                        if has_entry(old_e, id) {
                            let j = entry_at(old_e, id);
                            assert(e@[j] == old_e[j]);
                        }
                        if has_entry(e@, id) {
                            let j = entry_at(e@, id);
                            assert(old_e[j] == e@[j]);
                        }
                    }
                    assert forall|id: (Seq<char>, Seq<char>)| id != k && #[trigger] has_entry(e@, id) implies entry_at(e@, id) == entry_at(old_e, id) by {
                        let j = entry_at(old_e, id);
                        lemma_entry_at(e@, j);
                        assert(e@[j] == old_e[j]);
                    }
                    assert(store_map(e@) =~= store_map(old_e).insert(k, lv));
                }
                self.entries = e;
            },
        }
    }

    /// Adds a record to a session (creating its memory); tells whether
    /// enough of its records now wait to be written.
    pub fn push(&mut self, user_id: &str, session_id: &str, item: Record) -> (should_flush: bool)
        ensures
            final(self)@ == old(self)@.insert((user_id@, session_id@), pushed(log_of(old(self)@, (user_id@, session_id@)), item@)),
            should_flush == wants_flush(pushed(log_of(old(self)@, (user_id@, session_id@)), item@)),
    {
        proof {
            use_type_invariant(&*self);
        }
        let ghost old_e = self.entries@;
        match self.find(user_id, session_id) {
            Some(i) => {
                proof {
                    lemma_entry_at(old_e, i as int);
                }
                let mut e: Vec<StoreEntry> = Vec::new();
                std::mem::swap(&mut e, &mut self.entries);
                let StoreEntry { user_id: u, session_id: s, log } = e.remove(i);
                let mut log = log;
                let flag = log.push(item);
                e.insert(i, StoreEntry { user_id: u, session_id: s, log });
                proof {
                    assert forall|j: int| 0 <= j < old_e.len() && j != i implies #[trigger] e@[j] == old_e[j] by {}
                    lemma_replace_entry(old_e, e@, i as int);
                }
                self.entries = e;
                flag
            },
            None => {
                let mut log = SessionLog::new();
                let flag = log.push(item);
                self.insert_log(String::from_str(user_id), String::from_str(session_id), log);
                flag
            },
        }
    }

    /// Records of a session from `offset`, at most `limit` (none for an
    /// unknown session).
    pub fn load(&self, user_id: &str, session_id: &str, offset: usize, limit: usize) -> (r: Vec<Record>)
        ensures
            record_views(r@) == window(log_of(self@, (user_id@, session_id@)).items, offset as nat, limit as nat),
    {
        proof {
            use_type_invariant(self);
        }
        match self.find(user_id, session_id) {
            Some(i) => {
                proof {
                    lemma_entry_at(self.entries@, i as int);
                }
                self.entries[i].log.load(offset, limit)
            },
            None => {
                let r: Vec<Record> = Vec::new();
                assert(record_views(r@) =~= window(Seq::<RecordView>::empty(), offset as nat, limit as nat));
                r
            },
        }
    }

    /// Removes a record of a session (see `SessionLog::delete`); an unknown
    /// session has nothing to remove.
    pub fn delete(&mut self, user_id: &str, session_id: &str, id: &str) -> (r: Result<bool, String>)
        ensures
            ({
                let k = (user_id@, session_id@);
                let v = log_of(old(self)@, k);
                let p = position(v.items, id@);
                &&& !old(self)@.contains_key(k) ==> r == Ok::<bool, String>(false) && final(self)@ == old(self)@
                &&& old(self)@.contains_key(k) && p < 0 ==> r == Ok::<bool, String>(false) && final(self)@ == old(self)@
                &&& old(self)@.contains_key(k) && 0 <= p < v.flushed ==> (r matches Err(m) && m@ == delete_refusal())
                    && final(self)@ == old(self)@
                &&& old(self)@.contains_key(k) && p >= v.flushed ==> final(self)@ == old(self)@.insert(
                    k,
                    LogView { items: v.items.remove(p), ..v },
                ) && r == Ok::<bool, String>(wants_flush(LogView { items: v.items.remove(p), ..v }))
            }),
    {
        proof {
            use_type_invariant(&*self);
        }
        let ghost old_e = self.entries@;
        match self.find(user_id, session_id) {
            Some(i) => {
                proof {
                    lemma_entry_at(old_e, i as int);
                }
                let mut e: Vec<StoreEntry> = Vec::new();
                std::mem::swap(&mut e, &mut self.entries);
                let StoreEntry { user_id: u, session_id: s, log } = e.remove(i);
                let mut log = log;
                let r = log.delete(id);
                e.insert(i, StoreEntry { user_id: u, session_id: s, log });
                proof {
                    assert forall|j: int| 0 <= j < old_e.len() && j != i implies #[trigger] e@[j] == old_e[j] by {}
                    lemma_replace_entry(old_e, e@, i as int);
                    let lv = old_e[i as int].log@;
                    if position(lv.items, id@) < lv.flushed {
                        assert(e@[i as int].log@ == lv);
                        assert(store_map(old_e).insert(key_of(old_e[i as int]), lv) =~= store_map(old_e));
                    }
                }
                self.entries = e;
                r
            },
            None => Ok(false),
        }
    }

    /// Forgets a session.
    pub fn reset(&mut self, user_id: &str, session_id: &str)
        ensures
            final(self)@ == old(self)@.remove((user_id@, session_id@)),
    {
        proof {
            use_type_invariant(&*self);
        }
        let ghost old_e = self.entries@;
        let ghost key = (user_id@, session_id@);
        match self.find(user_id, session_id) {
            Some(i) => {
                proof {
                    lemma_entry_at(old_e, i as int);
                }
                let mut e: Vec<StoreEntry> = Vec::new();
                std::mem::swap(&mut e, &mut self.entries);
                e.remove(i);
                proof {
                    assert forall|a: int, b: int| 0 <= a < e@.len() && 0 <= b < e@.len() && a != b implies key_of(#[trigger] e@[a]) != key_of(#[trigger] e@[b]) by {
                        let a0 = if a < i { a } else { a + 1 };
                        let b0 = if b < i { b } else { b + 1 };
                        assert(e@[a] == old_e[a0]);
                        assert(e@[b] == old_e[b0]);
                    }
                    assert forall|k: (Seq<char>, Seq<char>)| k != key implies has_entry(e@, k) == has_entry(old_e, k) by {
                        if has_entry(old_e, k) {
                            let j = entry_at(old_e, k);
                            let j2 = if j < i { j } else { j - 1 };
                            assert(e@[j2] == old_e[j]);
                        }
                        if has_entry(e@, k) {
                            let j = entry_at(e@, k);
                            let j0 = if j < i { j } else { j + 1 };
                            assert(e@[j] == old_e[j0]);
                        }
                    }
                    if has_entry(e@, key) {
                        let j = entry_at(e@, key);
                        let j0 = if j < i { j } else { j + 1 };
                        assert(e@[j] == old_e[j0]);
                    }
                    assert forall|k: (Seq<char>, Seq<char>)| k != key && #[trigger] has_entry(e@, k) implies e@[entry_at(e@, k)] == old_e[entry_at(old_e, k)] by {
                        let j = entry_at(e@, k);
                        let j0 = if j < i { j } else { j + 1 };
                        assert(e@[j] == old_e[j0]);
                        lemma_entry_at(old_e, j0);
                    }
                    assert(store_map(e@) =~= store_map(old_e).remove(key));
                }
                self.entries = e;
            },
            None => {
                assert(old(self)@.remove(key) =~= old(self)@);
            },
        }
    }

    /// Hands out a session's records not yet written, and counts them as written.
    pub fn take_unflushed(&mut self, user_id: &str, session_id: &str) -> (r: Vec<Record>)
        ensures
            ({
                let k = (user_id@, session_id@);
                let v = log_of(old(self)@, k);
                &&& record_views(r@) == v.items.skip(v.flushed as int)
                &&& old(self)@.contains_key(k) ==> final(self)@ == old(self)@.insert(k, LogView { flushed: v.items.len(), ..v })
                &&& !old(self)@.contains_key(k) ==> final(self)@ == old(self)@
            }),
    {
        proof {
            use_type_invariant(&*self);
        }
        let ghost old_e = self.entries@;
        match self.find(user_id, session_id) {
            Some(i) => {
                proof {
                    lemma_entry_at(old_e, i as int);
                }
                let mut e: Vec<StoreEntry> = Vec::new();
                std::mem::swap(&mut e, &mut self.entries);
                let StoreEntry { user_id: u, session_id: s, log } = e.remove(i);
                let mut log = log;
                let r = log.take_unflushed();
                e.insert(i, StoreEntry { user_id: u, session_id: s, log });
                proof {
                    assert forall|j: int| 0 <= j < old_e.len() && j != i implies #[trigger] e@[j] == old_e[j] by {}
                    lemma_replace_entry(old_e, e@, i as int);
                }
                self.entries = e;
                r
            },
            None => {
                let r: Vec<Record> = Vec::new();
                assert(record_views(r@) =~= Seq::<RecordView>::empty().skip(0));
                r
            },
        }
    }

    /// The users and sessions that have memory.
    pub fn sessions(&self) -> (r: Vec<(String, String)>)
        ensures
            forall|k: (Seq<char>, Seq<char>)| self@.contains_key(k) <==> exists|i: int| 0 <= i < r@.len() && (#[trigger] r@[i]).0@ == k.0 && r@[i].1@ == k.1,
    {
        proof {
            use_type_invariant(self);
        }
        let mut r: Vec<(String, String)> = Vec::new();
        let mut i: usize = 0;
        while i < self.entries.len()
            invariant
                i <= self.entries@.len(),
                r@.len() == i,
                forall|j: int| 0 <= j < i ==> (#[trigger] r@[j]).0@ == self.entries@[j].user_id@ && r@[j].1@ == self.entries@[j].session_id@,
            decreases self.entries@.len() - i,
        {
            r.push((self.entries[i].user_id.clone(), self.entries[i].session_id.clone()));
            i = i + 1;
        }
        proof {
            assert forall|k: (Seq<char>, Seq<char>)| self@.contains_key(k) <==> exists|i: int| 0 <= i < r@.len() && (#[trigger] r@[i]).0@ == k.0 && r@[i].1@ == k.1 by {
                if self@.contains_key(k) {
                    let j = entry_at(self.entries@, k);
                    assert(r@[j].0@ == k.0 && r@[j].1@ == k.1);
                }
                if exists|i: int| 0 <= i < r@.len() && (#[trigger] r@[i]).0@ == k.0 && r@[i].1@ == k.1 {
                    let j = choose|i: int| 0 <= i < r@.len() && (#[trigger] r@[i]).0@ == k.0 && r@[i].1@ == k.1;
                    assert(key_of(self.entries@[j]) == k);
                }
            }
        }
        r
    }
}

} // verus!

verus! {

/// Whether some session of the user holds a record with the id.
pub open spec fn user_holds(m: Map<(Seq<char>, Seq<char>), LogView>, user: Seq<char>, id: Seq<char>) -> bool {
    exists|s: Seq<char>| #[trigger] m.contains_key((user, s)) && position(m[(user, s)].items, id) >= 0
}

impl MemoryStore {
    /// Replaces a record of the user, in whichever of the user's sessions
    /// holds its id: `Ok(None)` when none does; refused when that record is
    /// written; otherwise the session changed, and whether enough of its
    /// records now wait to be written.
    pub fn update(&mut self, user_id: &str, item: Record) -> (r: Result<Option<(String, bool)>, String>)
        ensures
            !user_holds(old(self)@, user_id@, item@.id) ==> r == Ok::<Option<(String, bool)>, String>(None) && final(self)@ == old(self)@,
            user_holds(old(self)@, user_id@, item@.id) ==> !(r == Ok::<Option<(String, bool)>, String>(None)),
            r matches Err(m) ==> m@ == update_refusal() && final(self)@ == old(self)@ && exists|s: Seq<char>|
                #[trigger] old(self)@.contains_key((user_id@, s)) && 0 <= position(old(self)@[(user_id@, s)].items, item@.id) < old(self)@[(user_id@, s)].flushed,
            r matches Ok(Some(p)) ==> ({
                let k = (user_id@, p.0@);
                let v = old(self)@[k];
                let j = position(v.items, item@.id);
                let nv = LogView { items: v.items.update(j, item@), ..v };
                &&& old(self)@.contains_key(k)
                &&& v.flushed <= j
                &&& final(self)@ == old(self)@.insert(k, nv)
                &&& p.1 == wants_flush(nv)
            }),
    {
        proof {
            use_type_invariant(&*self);
        }
        let ghost old_e = self.entries@;
        let ghost id = item@.id;
        let u = String::from_str(user_id);
        let mut i: usize = 0;
        while i < self.entries.len()
            invariant
                i <= self.entries@.len(),
                self.entries@ == old_e,
                old(self)@ == store_map(old_e),
                unique_entries(old_e),
                u@ == user_id@,
                id == item@.id,
                forall|j: int| 0 <= j < i && (#[trigger] old_e[j]).user_id@ == user_id@ ==> position(old_e[j].log@.items, id) < 0,
            decreases self.entries@.len() - i,
        {
            if self.entries[i].user_id == u {
                let hit = find_id(&self.entries[i].log.items, item.id.as_str());
                if hit.is_some() {
                    proof {
                        lemma_entry_at(old_e, i as int);
                    }
                    let mut e: Vec<StoreEntry> = Vec::new();
                    std::mem::swap(&mut e, &mut self.entries);
                    let StoreEntry { user_id: uid, session_id: sid, log } = e.remove(i);
                    let mut log = log;
                    let sid2 = sid.clone();
                    let res = log.update(item);
                    e.insert(i, StoreEntry { user_id: uid, session_id: sid, log });
                    proof {
                        assert forall|j: int| 0 <= j < old_e.len() && j != i implies #[trigger] e@[j] == old_e[j] by {}
                        lemma_replace_entry(old_e, e@, i as int);
                        let lv = old_e[i as int].log@;
                        let k = key_of(old_e[i as int]);
                        assert(old(self)@.contains_key(k));
                        assert(old(self)@[k] == lv);
                        assert(k == (user_id@, old_e[i as int].session_id@));
                        assert(position(lv.items, id) >= 0);
                        assert(user_holds(old(self)@, user_id@, id));
                        if position(lv.items, id) < lv.flushed {
                            assert(e@[i as int].log@ == lv);
                            assert(store_map(old_e).insert(k, lv) =~= store_map(old_e));
                        }
                    }
                    self.entries = e;
                    return match res {
                        Err(m) => Err(m),
                        Ok(Some(f)) => Ok(Some((sid2, f))),
                        Ok(None) => Ok(None),
                    };
                }
            }
            i = i + 1;
        }
        proof {
            assert forall|s: Seq<char>| #[trigger] old(self)@.contains_key((user_id@, s)) implies position(old(self)@[(user_id@, s)].items, id) < 0 by {
                let j = entry_at(old_e, (user_id@, s));
                assert(key_of(old_e[j]) == (user_id@, s));
            }
        }
        Ok(None)
    }
}

} // verus!

verus! {

/// What the model is told of the user's memory file and what it holds.
pub open spec fn user_memory_text(user_file: Seq<char>, recorded: Seq<char>) -> Seq<char> {
    "\n---\n## About user memory:"@
        + "  - You must update your memory once you have a clear understanding of some user attributes or preferences."@
        + "\nStorage file path: `"@ + user_file + "`."@ + "\nRecorded content: \n"@ + recorded
}

/// What the model is told of the current session and where its description lives.
pub open spec fn memory_metadata_text(memory_dir: Seq<char>, user_id: Seq<char>, session_id: Seq<char>) -> Seq<char> {
    "\n## Your memory Metadata:"@ + "\n - This dialogue identifier $SESSION_ID: `"@ + session_id + "`"@
        + "\n - session description file path: "@ + memory_dir + "/"@ + user_id + "/"@ + session_id + ".desc"@
}

/// The user-memory section of the prompt, from the memory file's path and its content.
pub fn user_memory_info(user_file: &str, recorded: &str) -> (r: String)
    ensures
        r@ == user_memory_text(user_file@, recorded@),
{
    let mut info = String::from_str("\n---\n## About user memory:");
    info.append("  - You must update your memory once you have a clear understanding of some user attributes or preferences.");
    info.append("\nStorage file path: `");
    info.append(user_file);
    info.append("`.");
    info.append("\nRecorded content: \n");
    info.append(recorded);
    info
}

/// The session section of the prompt.
pub fn memory_metadata(memory_dir: &str, user_id: &str, session_id: &str) -> (r: String)
    ensures
        r@ == memory_metadata_text(memory_dir@, user_id@, session_id@),
{
    let mut info = String::from_str("\n## Your memory Metadata:");
    info.append("\n - This dialogue identifier $SESSION_ID: `");
    info.append(session_id);
    info.append("`");
    info.append("\n - session description file path: ");
    info.append(memory_dir);
    info.append("/");
    info.append(user_id);
    info.append("/");
    info.append(session_id);
    info.append(".desc");
    info
}

} // verus!

verus! {

/// Sessions, newest first: `s` is sorted by last update, newest first, and
/// `x` goes after every session updated at the same time or later (so that
/// sessions updated at the same time keep their order).
pub open spec fn insert_by_update(s: Seq<crate::memory::SessionMeta>, x: crate::memory::SessionMeta) -> Seq<crate::memory::SessionMeta>
    decreases s.len(),
{
    if s.len() == 0 {
        seq![x]
    } else if s[0].updated_at >= x.updated_at {
        seq![s[0]] + insert_by_update(s.skip(1), x)
    } else {
        seq![x] + s
    }
}

/// Sessions ordered by last update, newest first; sessions updated at the
/// same time keep the order they came in.
pub open spec fn newest_first(s: Seq<crate::memory::SessionMeta>) -> Seq<crate::memory::SessionMeta>
    decreases s.len(),
{
    if s.len() == 0 {
        Seq::empty()
    } else {
        insert_by_update(newest_first(s.drop_last()), s.last())
    }
}

/// Where `insert_by_update` puts `x`: before the first session updated earlier.
proof fn lemma_insert_at(s: Seq<crate::memory::SessionMeta>, x: crate::memory::SessionMeta, p: int)
    requires
        0 <= p <= s.len(),
        forall|j: int| 0 <= j < p ==> (#[trigger] s[j]).updated_at >= x.updated_at,
        p < s.len() ==> s[p].updated_at < x.updated_at,
    ensures
        insert_by_update(s, x) == s.take(p) + seq![x] + s.skip(p),
    decreases s.len(),
{
    if s.len() == 0 {
        assert(s.take(p) + seq![x] + s.skip(p) =~= seq![x]);
    } else if p == 0 {
        assert(s.take(0) + seq![x] + s.skip(0) =~= seq![x] + s);
    } else {
        let t = s.skip(1);
        assert forall|j: int| 0 <= j < p - 1 implies (#[trigger] t[j]).updated_at >= x.updated_at by {
            assert(t[j] == s[j + 1]);
        }
        if p - 1 < t.len() {
            assert(t[p - 1] == s[p]);
        }
        lemma_insert_at(t, x, p - 1);
        assert(seq![s[0]] + (t.take(p - 1) + seq![x] + t.skip(p - 1)) =~= s.take(p) + seq![x] + s.skip(p));
    }
}

/// Sessions newest first.
pub fn sort_newest_first(metas: Vec<crate::memory::SessionMeta>) -> (r: Vec<crate::memory::SessionMeta>)
    ensures
        r@ == newest_first(metas@),
{
    let mut r: Vec<crate::memory::SessionMeta> = Vec::new();
    let mut i: usize = 0;
    let ghost all = metas@;
    let mut metas = metas;
    while i < metas.len()
        invariant
            i <= metas@.len(),
            metas@ == all,
            r@ == newest_first(all.take(i as int)),
        decreases metas@.len() - i,
    {
        assert(all.take(i + 1).drop_last() =~= all.take(i as int));
        let x = crate::memory::SessionMeta {
            id: metas[i].id.clone(),
            title: metas[i].title.clone(),
            created_at: metas[i].created_at,
            updated_at: metas[i].updated_at,
        };
        assert(x == all[i as int]);
        let mut p: usize = 0;
        while p < r.len() && r[p].updated_at >= x.updated_at
            invariant
                p <= r@.len(),
                forall|j: int| 0 <= j < p ==> (#[trigger] r@[j]).updated_at >= x.updated_at,
            decreases r@.len() - p,
        {
            p = p + 1;
        }
        proof {
            lemma_insert_at(r@, x, p as int);
        }
        let ghost before = r@;
        r.insert(p, x);
        assert(r@ =~= before.take(p as int) + seq![x] + before.skip(p as int));
        i = i + 1;
    }
    assert(all.take(metas@.len() as int) =~= all);
    r
}

/// The sessions of one page of the list, newest first: those from `offset`,
/// at most `limit` of them.
pub open spec fn session_page_of(metas: Seq<crate::memory::SessionMeta>, offset: nat, limit: nat) -> Seq<crate::memory::SessionMeta> {
    let s = newest_first(metas);
    let start = if offset < s.len() {
        offset
    } else {
        s.len()
    };
    let end = if offset + limit < s.len() {
        offset + limit
    } else {
        s.len()
    };
    s.subrange(start as int, end as int)
}

/// Sessions sorted by last update, newest first.
pub open spec fn sorted_by_update(s: Seq<crate::memory::SessionMeta>) -> bool {
    forall|i: int, j: int| 0 <= i < j < s.len() ==> (#[trigger] s[i]).updated_at >= (#[trigger] s[j]).updated_at
}

/// Inserting a session keeps every session, adds it, and keeps the order.
pub proof fn law_insert_by_update(s: Seq<crate::memory::SessionMeta>, x: crate::memory::SessionMeta)
    requires
        sorted_by_update(s),
    ensures
        insert_by_update(s, x).to_multiset() == s.to_multiset().insert(x),
        sorted_by_update(insert_by_update(s, x)),
        insert_by_update(s, x).len() == s.len() + 1,
        insert_by_update(s, x)[0] == (if s.len() > 0 && s[0].updated_at >= x.updated_at {
            s[0]
        } else {
            x
        }),
    decreases s.len(),
{
    broadcast use vstd::seq_lib::group_to_multiset_ensures;
    broadcast use vstd::multiset::group_multiset_axioms;
    let r = insert_by_update(s, x);
    if s.len() == 0 {
        assert(seq![x] =~= Seq::<crate::memory::SessionMeta>::empty().push(x));
        assert(s.to_multiset() =~= vstd::multiset::Multiset::empty());
    } else if s[0].updated_at >= x.updated_at {
        let t = s.skip(1);
        assert forall|i: int, j: int| 0 <= i < j < t.len() implies (#[trigger] t[i]).updated_at >= (#[trigger] t[j]).updated_at by {
            assert(t[i] == s[i + 1] && t[j] == s[j + 1]);
        }
        law_insert_by_update(t, x);
        let it = insert_by_update(t, x);
        assert(s =~= seq![s[0]] + t);
        vstd::seq_lib::lemma_multiset_commutative(seq![s[0]], it);
        vstd::seq_lib::lemma_multiset_commutative(seq![s[0]], t);
        assert(seq![s[0]] =~= Seq::<crate::memory::SessionMeta>::empty().push(s[0]));
        assert(r.to_multiset() =~= s.to_multiset().insert(x));
        if t.len() > 0 {
            assert(t[0] == s[1]);
        }
        assert forall|i: int, j: int| 0 <= i < j < r.len() implies (#[trigger] r[i]).updated_at >= (#[trigger] r[j]).updated_at by {
            if i == 0 {
                assert(r[j] == it[j - 1]);
                assert(it[0].updated_at <= s[0].updated_at);
                if j - 1 > 0 {
                    assert(it[0].updated_at >= it[j - 1].updated_at);
                }
            } else {
                assert(r[i] == it[i - 1] && r[j] == it[j - 1]);
            }
        }
    } else {
        assert(r =~= seq![x] + s);
        vstd::seq_lib::lemma_multiset_commutative(seq![x], s);
        assert(seq![x] =~= Seq::<crate::memory::SessionMeta>::empty().push(x));
        assert(r.to_multiset() =~= s.to_multiset().insert(x));
        assert forall|i: int, j: int| 0 <= i < j < r.len() implies (#[trigger] r[i]).updated_at >= (#[trigger] r[j]).updated_at by {
            if i == 0 {
                assert(r[j] == s[j - 1]);
                if j - 1 > 0 {
                    assert(s[0].updated_at >= s[j - 1].updated_at);
                }
            } else {
                assert(r[i] == s[i - 1] && r[j] == s[j - 1]);
            }
        }
    }
}

/// Sorting keeps every session, and orders them newest first.
pub proof fn law_newest_first(s: Seq<crate::memory::SessionMeta>)
    ensures
        newest_first(s).to_multiset() == s.to_multiset(),
        sorted_by_update(newest_first(s)),
        newest_first(s).len() == s.len(),
    decreases s.len(),
{
    broadcast use vstd::seq_lib::group_to_multiset_ensures;
    if s.len() == 0 {
        assert(newest_first(s).to_multiset() =~= s.to_multiset());
    } else {
        law_newest_first(s.drop_last());
        law_insert_by_update(newest_first(s.drop_last()), s.last());
        assert(s.drop_last().push(s.last()) =~= s);
    }
}

/// One page of the session list, newest first.
pub fn session_page(metas: Vec<crate::memory::SessionMeta>, offset: usize, limit: usize) -> (r: Vec<crate::memory::SessionMeta>)
    ensures
        r@ == session_page_of(metas@, offset as nat, limit as nat),
{
    let s = sort_newest_first(metas);
    let n = s.len();
    let start = if offset < n {
        offset
    } else {
        n
    };
    let end = if offset <= n && limit < n - offset {
        offset + limit
    } else {
        n
    };
    let mut s = s;
    let ghost all = s@;
    let mut tail = s.split_off(start);
    assert(tail@ =~= all.skip(start as int));
    tail.truncate(end - start);
    assert(tail@ =~= all.subrange(start as int, end as int));
    tail
}

} // verus!

verus! {

/// Session descriptions kept as files, one directory per user.
#[derive(Debug, Clone, PartialEq, Eq)]
pub struct FileSessionMetaManager {
    pub dir_path: String,
}

impl FileSessionMetaManager {
    pub fn new(dir_path: String) -> (r: FileSessionMetaManager)
        ensures
            r.dir_path == dir_path,
    {
        FileSessionMetaManager { dir_path }
    }

    /// The file that describes a user's session: `<dir>/<user>/<session>.desc`.
    pub fn get_file_path(&self, user_id: &str, session_id: &str) -> (r: String)
        ensures
            r@ == crate::session_command::path_join(
                crate::session_command::path_join(self.dir_path@, user_id@),
                session_id@ + ".desc"@,
            ),
    {
        let user_dir = crate::session_command::join_path(self.dir_path.as_str(), user_id);
        let mut name = String::from_str(session_id);
        name.append(".desc");
        crate::session_command::join_path(user_dir.as_str(), name.as_str())
    }

    /// One page of a user's sessions, newest first.
    pub fn session_list(&self, metas: Vec<crate::memory::SessionMeta>, offset: usize, limit: usize) -> (r: Vec<crate::memory::SessionMeta>)
        ensures
            r@ == session_page_of(metas@, offset as nat, limit as nat),
    {
        session_page(metas, offset, limit)
    }
}

} // verus!
