//! The schema/dedup store: tracks, per event category, which identifiers
//! have already been dispatched, and the schema version.
//!
//! An identifier present in a table has been dispatched exactly once; absence
//! means not yet dispatched. Rows are created once, never updated and never
//! deleted.

use vstd::prelude::*;
use crate::fault::Fault;

verus! {

/// The event categories the store tracks, one table each.
#[derive(Clone, Copy, Debug, PartialEq, Eq, Structural)]
pub enum Category {
    Messages,
    CallLogs,
}

/// One dedup row: an identifier and its first-seen timestamp.
#[derive(Debug)]
pub struct DedupRecord {
    pub identifier: String,
    pub timestamp: i64,
}

/// The schema version this library writes on initialization.
pub const SCHEMA_VERSION: u64 = 1;

/// The mathematical content of one table: identifier to first-seen timestamp.
pub open spec fn table_of(recs: Seq<DedupRecord>) -> Map<Seq<char>, int>
    decreases recs.len(),
{
    if recs.len() == 0 {
        Map::empty()
    } else {
        table_of(recs.drop_last()).insert(
            recs.last().identifier@,
            recs.last().timestamp as int,
        )
    }
}

/// Whether some row of `recs` carries `id`.
pub open spec fn has_identifier(recs: Seq<DedupRecord>, id: Seq<char>) -> bool {
    exists|i: int| 0 <= i < recs.len() && (#[trigger] recs[i]).identifier@ == id
}

/// A table contains a key exactly when some row carries it.
pub proof fn lemma_table_of_contains(recs: Seq<DedupRecord>, id: Seq<char>)
    ensures
        table_of(recs).contains_key(id) <==> has_identifier(recs, id),
    decreases recs.len(),
{
    if recs.len() > 0 {
        let prefix = recs.drop_last();
        lemma_table_of_contains(prefix, id);
        if table_of(recs).contains_key(id) {
            if id == recs.last().identifier@ {
                assert(recs[recs.len() - 1].identifier@ == id);
            } else {
                let i = choose|i: int|
                    0 <= i < prefix.len() && (#[trigger] prefix[i]).identifier@ == id;
                assert(recs[i].identifier@ == id);
            }
        }
        if has_identifier(recs, id) {
            let i = choose|i: int| 0 <= i < recs.len() && (#[trigger] recs[i]).identifier@ == id;
            if i < recs.len() - 1 {
                assert(prefix[i].identifier@ == id);
            }
        }
    }
}

/// Appending a row inserts its pair into the table.
pub proof fn lemma_table_of_push(recs: Seq<DedupRecord>, r: DedupRecord)
    ensures
        table_of(recs.push(r)) == table_of(recs).insert(r.identifier@, r.timestamp as int),
{
    assert(recs.push(r).drop_last() =~= recs);
    assert(recs.push(r).last() == r);
}

/// No two rows of a table carry the same identifier.
pub open spec fn unique_identifiers(recs: Seq<DedupRecord>) -> bool {
    forall|i: int, j: int|
        #![trigger recs[i], recs[j]]
        0 <= i < j < recs.len() ==> recs[i].identifier@ != recs[j].identifier@
}

/// With unique identifiers, a table holds exactly one pair per row.
pub proof fn lemma_unique_table_len(recs: Seq<DedupRecord>)
    requires
        unique_identifiers(recs),
    ensures
        table_of(recs).dom().finite(),
        table_of(recs).len() == recs.len(),
    decreases recs.len(),
{
    if recs.len() > 0 {
        let prefix = recs.drop_last();
        lemma_unique_table_len(prefix);
        lemma_table_of_contains(prefix, recs.last().identifier@);
        assert(!has_identifier(prefix, recs.last().identifier@)) by {
            assert(forall|i: int|
                0 <= i < prefix.len() ==> (#[trigger] prefix[i]).identifier@ != recs.last().identifier@);
        }
        vstd::set::axiom_set_insert_len(
            table_of(prefix).dom(),
            recs.last().identifier@,
        );
    }
}

/// Appending a row with a fresh identifier keeps the identifiers unique.
proof fn lemma_unique_push(recs: Seq<DedupRecord>, row: DedupRecord)
    requires
        unique_identifiers(recs),
        !has_identifier(recs, row.identifier@),
    ensures
        unique_identifiers(recs.push(row)),
{
    let recs1 = recs.push(row);
    assert forall|i: int, j: int| 0 <= i < j < recs1.len() implies (#[trigger] recs1[i]).identifier@
        != (#[trigger] recs1[j]).identifier@ by {
        if j == recs.len() {
            if recs1[i].identifier@ == row.identifier@ {
                assert(recs[i].identifier@ == row.identifier@);
                assert(has_identifier(recs, row.identifier@));
            }
        } else {
            assert(recs1[i] == recs[i]);
            assert(recs1[j] == recs[j]);
        }
    }
}

/// The in-memory dedup store: one table per category and the schema version.
/// A durable mirror can replay the same operations; their contracts here are
/// the store's specification.
#[derive(Debug)]
pub struct DedupStore {
    messages: Vec<DedupRecord>,
    call_logs: Vec<DedupRecord>,
    version: Option<u64>,
}

impl DedupStore {
    /// Each table's rows carry pairwise distinct identifiers: a row is
    /// created at most once per identifier.
    #[verifier::type_invariant]
    spec fn wf(self) -> bool {
        unique_identifiers(self.messages@) && unique_identifiers(self.call_logs@)
    }
    /// The content of one category's table.
    pub closed spec fn spec_table(&self, category: Category) -> Map<Seq<char>, int> {
        match category {
            Category::Messages => table_of(self.messages@),
            Category::CallLogs => table_of(self.call_logs@),
        }
    }

    /// The schema version on record, if any.
    pub closed spec fn spec_version(&self) -> Option<u64> {
        self.version
    }

    /// A store is initialized once its schema version is on record.
    pub open spec fn spec_is_initialized(&self) -> bool {
        self.spec_version() is Some
    }

    /// A fresh store: no schema, empty tables.
    pub fn new() -> (r: DedupStore)
        ensures
            !r.spec_is_initialized(),
            r.spec_table(Category::Messages) == Map::<Seq<char>, int>::empty(),
            r.spec_table(Category::CallLogs) == Map::<Seq<char>, int>::empty(),
    {
        DedupStore { messages: Vec::new(), call_logs: Vec::new(), version: None }
    }

    pub fn is_initialized(&self) -> (r: bool)
        ensures
            r == self.spec_is_initialized(),
    {
        self.version.is_some()
    }

    pub fn version(&self) -> (r: Option<u64>)
        ensures
            r == self.spec_version(),
    {
        self.version
    }

    /// Creates the schema and writes the version row. Only valid on a store
    /// that is not yet initialized: re-applying a version is a programming
    /// error, which keeps migrations monotonic.
    pub fn initialize(&mut self)
        requires
            !old(self).spec_is_initialized(),
        ensures
            final(self).spec_version() == Some(SCHEMA_VERSION),
            final(self).spec_table(Category::Messages) == old(self).spec_table(Category::Messages),
            final(self).spec_table(Category::CallLogs) == old(self).spec_table(Category::CallLogs),
    {
        proof {
            use_type_invariant(&*self);
        }
        self.version = Some(SCHEMA_VERSION);
    }

    /// The number of identifiers recorded in a category.
    pub fn count(&self, category: Category) -> (r: usize)
        ensures
            r == self.spec_table(category).len(),
    {
        proof {
            use_type_invariant(&*self);
            lemma_unique_table_len(self.messages@);
            lemma_unique_table_len(self.call_logs@);
        }
        match category {
            Category::Messages => self.messages.len(),
            Category::CallLogs => self.call_logs.len(),
        }
    }

    /// Whether an identifier was already recorded in a category. A well-formed
    /// miss returns false, never an error.
    #[verifier::loop_isolation(false)]
    pub fn contains(&self, category: Category, identifier: &String) -> (r: bool)
        ensures
            r == self.spec_table(category).contains_key(identifier@),
    {
        let recs: &Vec<DedupRecord> = match category {
            Category::Messages => &self.messages,
            Category::CallLogs => &self.call_logs,
        };
        proof {
            lemma_table_of_contains(recs@, identifier@);
        }
        let mut i: usize = 0;
        while i < recs.len()
            invariant
                i <= recs@.len(),
                forall|j: int| 0 <= j < i ==> (#[trigger] recs@[j]).identifier@ != identifier@,
            decreases recs@.len() - i,
        {
            if *identifier == recs[i].identifier {
                proof {
                    assert((recs@[i as int]).identifier@ == identifier@);
                    assert(has_identifier(recs@, identifier@));
                }
                return true;
            }
            i = i + 1;
        }
        false
    }

    /// Records an identifier as dispatched. A duplicate insert fails with a
    /// storage fault and changes nothing; the tables only ever grow.
    pub fn record(&mut self, category: Category, identifier: String, timestamp: i64) -> (r: Result<
        (),
        Fault,
    >)
        ensures
            final(self).spec_version() == old(self).spec_version(),
            final(self).spec_table(other_category(category)) == old(self).spec_table(
                other_category(category),
            ),
            old(self).spec_table(category).contains_key(identifier@) ==> {
                &&& r == Result::<(), Fault>::Err(Fault::Storage)
                &&& final(self).spec_table(category) == old(self).spec_table(category)
            },
            !old(self).spec_table(category).contains_key(identifier@) ==> {
                &&& r is Ok
                &&& final(self).spec_table(category) == old(self).spec_table(category).insert(
                    identifier@,
                    timestamp as int,
                )
            },
    {
        if self.contains(category, &identifier) {
            return Err(Fault::Storage);
        }
        let row = DedupRecord { identifier, timestamp };
        proof {
            use_type_invariant(&*self);
            match category {
                Category::Messages => {
                    lemma_table_of_contains(self.messages@, row.identifier@);
                    lemma_table_of_push(self.messages@, row);
                    lemma_unique_push(self.messages@, row);
                },
                Category::CallLogs => {
                    lemma_table_of_contains(self.call_logs@, row.identifier@);
                    lemma_table_of_push(self.call_logs@, row);
                    lemma_unique_push(self.call_logs@, row);
                },
            }
        }
        let mut rows: Vec<DedupRecord> = Vec::new();
        match category {
            Category::Messages => {
                core::mem::swap(&mut rows, &mut self.messages);
                rows.push(row);
                core::mem::swap(&mut rows, &mut self.messages);
            },
            Category::CallLogs => {
                core::mem::swap(&mut rows, &mut self.call_logs);
                rows.push(row);
                core::mem::swap(&mut rows, &mut self.call_logs);
            },
        }
        Ok(())
    }
}

/// The category the other table belongs to.
pub open spec fn other_category(category: Category) -> Category {
    match category {
        Category::Messages => Category::CallLogs,
        Category::CallLogs => Category::Messages,
    }
}

/// Round-trip law of the dedup table: a recorded identifier is contained
/// immediately after the insert, and an identifier never recorded stays
/// uncontained.
pub proof fn lemma_record_round_trip(
    t: Map<Seq<char>, int>,
    id: Seq<char>,
    ts: int,
    other: Seq<char>,
)
    ensures
        t.insert(id, ts).contains_key(id),
        other != id && !t.contains_key(other) ==> !t.insert(id, ts).contains_key(other),
{
}

} // verus!
