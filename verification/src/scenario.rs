//! The catalogue of load tests that can be run.

use crate::text::same_text;
use vstd::prelude::*;

verus! {

/// One entry of the catalogue.
#[derive(Clone, Copy, Debug)]
pub struct TestDef {
    /// The identifier by which the test is selected.
    pub id: &'static str,
    /// The name shown to people.
    pub name: &'static str,
    /// The program that runs the test.
    pub binary: &'static str,
    /// Default duration, in seconds.
    pub duration: u64,
    /// Default number of virtual users.
    pub vus: u64,
}

/// Default duration of a test, in seconds.
pub const DEFAULT_DURATION_SECS: u64 = 30;

/// Default number of virtual users of a test.
pub const DEFAULT_VUS: u64 = 50;

/// An entry with the default duration and number of virtual users.
pub open spec fn entry(id: &'static str, name: &'static str, binary: &'static str) -> TestDef {
    TestDef { id, name, binary, duration: DEFAULT_DURATION_SECS, vus: DEFAULT_VUS }
}

/// Every test that can be run.
pub open spec fn catalogue() -> Seq<TestDef> {
    seq![
        entry("rest-read", "REST Reads", "load-rest"),
        entry("rest-write", "REST Writes", "load-rest"),
        entry("rest-update", "REST Update", "load-rest"),
        entry("rest-join", "REST Join", "load-rest"),
        entry("graphql-read", "GraphQL Reads", "load-graphql"),
        entry("graphql-mutation", "GraphQL Mutations", "load-graphql"),
        entry("graphql-join", "GraphQL Join", "load-graphql"),
        entry("vector-embed", "Vector Embed", "load-vector"),
        entry("vector-search", "Vector Search", "load-vector"),
        entry("ws", "WebSocket", "load-realtime"),
        entry("sse", "SSE Streaming", "load-realtime"),
        entry("blob-retrieval", "150k Blob Retrieval", "load-blob"),
    ]
}

/// The first entry at or after position `from` whose identifier is `id`.
pub open spec fn lookup_from(id: Seq<char>, from: int) -> Option<TestDef>
    decreases catalogue().len() - from,
{
    if from < 0 || from >= catalogue().len() {
        None
    } else if catalogue()[from].id@ == id {
        Some(catalogue()[from])
    } else {
        lookup_from(id, from + 1)
    }
}

/// The entry whose identifier is `id`, if the catalogue has one.
pub open spec fn lookup(id: Seq<char>) -> Option<TestDef> {
    lookup_from(id, 0)
}

/// `id` names a test of the catalogue.
pub open spec fn is_known(id: Seq<char>) -> bool {
    lookup(id) is Some
}

fn make_entry(id: &'static str, name: &'static str, binary: &'static str) -> (def: TestDef)
    ensures
        def == entry(id, name, binary),
{
    TestDef { id, name, binary, duration: DEFAULT_DURATION_SECS, vus: DEFAULT_VUS }
}

/// The catalogue, in its fixed order.
pub fn test_catalogue() -> (all: Vec<TestDef>)
    ensures
        all@ == catalogue(),
{
    let mut all: Vec<TestDef> = Vec::new();
    all.push(make_entry("rest-read", "REST Reads", "load-rest"));
    all.push(make_entry("rest-write", "REST Writes", "load-rest"));
    all.push(make_entry("rest-update", "REST Update", "load-rest"));
    all.push(make_entry("rest-join", "REST Join", "load-rest"));
    all.push(make_entry("graphql-read", "GraphQL Reads", "load-graphql"));
    all.push(make_entry("graphql-mutation", "GraphQL Mutations", "load-graphql"));
    all.push(make_entry("graphql-join", "GraphQL Join", "load-graphql"));
    all.push(make_entry("vector-embed", "Vector Embed", "load-vector"));
    all.push(make_entry("vector-search", "Vector Search", "load-vector"));
    all.push(make_entry("ws", "WebSocket", "load-realtime"));
    all.push(make_entry("sse", "SSE Streaming", "load-realtime"));
    all.push(make_entry("blob-retrieval", "150k Blob Retrieval", "load-blob"));
    all
}

/// Finds the test named `id`.
pub fn find_test(id: &str) -> (found: Option<TestDef>)
    ensures
        found == lookup(id@),
        found matches Some(def) ==> def.id@ == id@,
{
    let all = test_catalogue();
    let mut i: usize = 0;
    while i < all.len()
        invariant
            all@ == catalogue(),
            i <= all@.len(),
            lookup(id@) == lookup_from(id@, i as int),
        decreases all@.len() - i,
    {
        if same_text(all[i].id, id) {
            return Some(all[i]);
        }
        i += 1;
    }
    None
}

/// `name` is the name of a program of the catalogue at or after position
/// `from`.
pub open spec fn names_program_from(name: Seq<char>, from: int) -> bool
    decreases catalogue().len() - from,
{
    if from < 0 || from >= catalogue().len() {
        false
    } else {
        catalogue()[from].binary@ == name || names_program_from(name, from + 1)
    }
}

/// A program serves a test when the test is in the catalogue and the
/// catalogue gives the test to that program. A program that runs under a name
/// the catalogue does not know serves every test of the catalogue.
pub open spec fn serves(program: Seq<char>, test_id: Seq<char>) -> bool {
    match lookup(test_id) {
        Some(def) => def.binary@ == program || !names_program_from(program, 0),
        None => false,
    }
}

/// Whether the program that runs under the name `program` serves the test
/// `test_id`.
pub fn program_serves(program: &str, test_id: &str) -> (yes: bool)
    ensures
        yes == serves(program@, test_id@),
{
    match find_test(test_id) {
        None => false,
        Some(def) => {
            if same_text(def.binary, program) {
                return true;
            }
            let all = test_catalogue();
            let mut i: usize = 0;
            while i < all.len()
                invariant
                    all@ == catalogue(),
                    i <= all@.len(),
                    lookup(test_id@) == Some(def),
                    def.binary@ != program@,
                    names_program_from(program@, 0) == names_program_from(program@, i as int),
                decreases all@.len() - i,
            {
                if same_text(all[i].binary, program) {
                    return false;
                }
                i += 1;
            }
            true
        },
    }
}

/// Number of records that the read workloads cycle through.
pub const RECORD_CYCLE: u64 = 100;

/// The record that the worker `vu_id` reads: workers are dealt the records 1
/// to 100 in turn.
pub fn book_id(vu_id: u64) -> (id: u64)
    ensures
        id == vu_id % RECORD_CYCLE + 1,
        1 <= id <= RECORD_CYCLE,
{
    vu_id % RECORD_CYCLE + 1
}

/// The entry of a pool of `len` entries that the worker `vu_id` uses: workers
/// are dealt the entries in turn.
pub fn pool_slot(vu_id: u64, len: usize) -> (slot: usize)
    requires
        len > 0,
    ensures
        slot == vu_id % (len as u64),
        slot < len,
{
    (vu_id % (len as u64)) as usize
}

} // verus!
