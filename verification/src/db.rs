//! The in-memory database: its tables and indexes, their abstract view, and
//! the effect of each write operation on that view.

use std::collections::{BTreeMap, BTreeSet};

use vstd::prelude::*;

use crate::model::{
    ApiError, ApplicationRecord, BountyApplication, BountyRecord, BountyRequest, FreelancerRecord,
    FreelancerRegistration,
};
use crate::str_map::{Snapshot, StrMap, StrSet};

verus! {

impl View for FreelancerRecord {
    type V = FreelancerRecord;

    open spec fn view(&self) -> FreelancerRecord {
        *self
    }
}

impl Snapshot for FreelancerRecord {
    fn snapshot(&self) -> (r: Self) {
        self.clone()
    }
}

impl Snapshot for BTreeSet<u64> {
    fn snapshot(&self) -> (r: Self) {
        self.clone()
    }
}

/// All tables and indexes of the store.
#[derive(Debug)]
pub struct InMemoryDb {
    pub next_bounty_id: u64,
    pub next_application_id: u64,
    pub bounties: BTreeMap<u64, BountyRecord>,
    /// Bounty ids by creator address.
    pub creator_bounties: StrMap<BTreeSet<u64>>,
    pub applications: BTreeMap<u64, ApplicationRecord>,
    /// Application ids by bounty id.
    pub bounty_applications: BTreeMap<u64, BTreeSet<u64>>,
    /// Freelancer profiles by address.
    pub freelancers: StrMap<FreelancerRecord>,
    /// Freelancer addresses by discipline.
    pub discipline_index: StrMap<StrSet>,
}

/// The abstract content of an [`InMemoryDb`].
pub struct DbView {
    pub next_bounty_id: u64,
    pub next_application_id: u64,
    pub bounties: Map<u64, BountyRecord>,
    pub creator_bounties: Map<Seq<char>, Set<u64>>,
    pub applications: Map<u64, ApplicationRecord>,
    pub bounty_applications: Map<u64, Set<u64>>,
    pub freelancers: Map<Seq<char>, FreelancerRecord>,
    pub discipline_index: Map<Seq<char>, Set<Seq<char>>>,
}

impl View for InMemoryDb {
    type V = DbView;

    open spec fn view(&self) -> DbView {
        DbView {
            next_bounty_id: self.next_bounty_id,
            next_application_id: self.next_application_id,
            bounties: self.bounties@,
            creator_bounties: self.creator_bounties@,
            applications: self.applications@,
            bounty_applications: self.bounty_applications@.map_values(|s: BTreeSet<u64>| s@),
            freelancers: self.freelancers@,
            discipline_index: self.discipline_index@.map_values(
                |m: Map<Seq<char>, ()>| m.dom(),
            ),
        }
    }
}

/// An empty database.
pub open spec fn empty_db() -> DbView {
    DbView {
        next_bounty_id: 0,
        next_application_id: 0,
        bounties: Map::empty(),
        creator_bounties: Map::empty(),
        applications: Map::empty(),
        bounty_applications: Map::empty(),
        freelancers: Map::empty(),
        discipline_index: Map::empty(),
    }
}

impl Default for InMemoryDb {
    fn default() -> (r: Self)
        ensures
            r@ == empty_db(),
    {
        let r = InMemoryDb {
            next_bounty_id: 0,
            next_application_id: 0,
            bounties: BTreeMap::new(),
            creator_bounties: StrMap::new(),
            applications: BTreeMap::new(),
            bounty_applications: BTreeMap::new(),
            freelancers: StrMap::new(),
            discipline_index: StrMap::new(),
        };
        assert(r@.bounty_applications =~= Map::empty());
        assert(r@.discipline_index =~= Map::empty());
        r
    }
}

impl Clone for InMemoryDb {
    fn clone(&self) -> (r: Self)
        ensures
            r@ == self@,
    {
        InMemoryDb {
            next_bounty_id: self.next_bounty_id,
            next_application_id: self.next_application_id,
            bounties: self.bounties.clone(),
            creator_bounties: self.creator_bounties.snapshot(),
            applications: self.applications.clone(),
            bounty_applications: self.bounty_applications.clone(),
            freelancers: self.freelancers.snapshot(),
            discipline_index: self.discipline_index.snapshot(),
        }
    }
}

/// `idx` with `item` added to the set stored under `key` (an absent key
/// counts as an empty set).
pub open spec fn index_add<K, T>(idx: Map<K, Set<T>>, key: K, item: T) -> Map<K, Set<T>> {
    idx.insert(
        key,
        if idx.contains_key(key) {
            idx[key].insert(item)
        } else {
            Set::empty().insert(item)
        },
    )
}

/// A write budget that makes the transaction abort at one of its first
/// `writes` writes.
pub open spec fn aborts_within(fail_after_write: Option<usize>, writes: nat) -> bool {
    fail_after_write matches Some(k) && 1 <= k <= writes
}

/// The message of an aborted transaction.
pub open spec fn abort_text() -> Seq<char> {
    "transaction aborted before commit"@
}

/// `r` is the error of an aborted transaction.
pub open spec fn is_abort<T>(r: Result<T, ApiError>) -> bool {
    r matches Err(ApiError::Internal(m)) && m@ == abort_text()
}

/// `b` is the bounty that `request` creates in `old`, and `new` is `old`
/// with it stored and indexed under its creator.
pub open spec fn bounty_created(
    old: DbView,
    request: BountyRequest,
    b: BountyRecord,
    new: DbView,
) -> bool {
    &&& b.id == old.next_bounty_id + 1
    &&& b.creator == request.creator
    &&& b.title == request.title
    &&& b.description == request.description
    &&& b.budget == request.budget
    &&& b.deadline == request.deadline
    &&& b.status@ == "open"@
    &&& b.application_count == 0
    &&& new == DbView {
        next_bounty_id: b.id,
        bounties: old.bounties.insert(b.id, b),
        creator_bounties: index_add(old.creator_bounties, b.creator@, b.id),
        ..old
    }
}

/// `a` is the application that `request` files in `old`, and `new` is `old`
/// with it stored, indexed under its bounty, and counted on that bounty.
pub open spec fn application_submitted(
    old: DbView,
    request: BountyApplication,
    a: ApplicationRecord,
    new: DbView,
) -> bool {
    let bid = request.bounty_id;
    let bounty = old.bounties[bid];
    &&& old.bounties.contains_key(bid)
    &&& a.id == old.next_application_id + 1
    &&& a.bounty_id == bid
    &&& a.freelancer == request.freelancer
    &&& a.proposal == request.proposal
    &&& a.proposed_budget == request.proposed_budget
    &&& a.timeline == request.timeline
    &&& a.status@ == "pending"@
    &&& new == DbView {
        next_application_id: a.id,
        applications: old.applications.insert(a.id, a),
        bounty_applications: index_add(old.bounty_applications, bid, a.id),
        bounties: old.bounties.insert(
            bid,
            BountyRecord { application_count: (bounty.application_count + 1) as u64, ..bounty },
        ),
        ..old
    }
}

/// `f` is the profile that `registration` creates under `address`, and `new`
/// is `old` with it stored and indexed under its discipline.
pub open spec fn freelancer_registered(
    old: DbView,
    address: Seq<char>,
    registration: FreelancerRegistration,
    f: FreelancerRecord,
    new: DbView,
) -> bool {
    &&& f.address@ == address
    &&& f.name == registration.name
    &&& f.discipline == registration.discipline
    &&& f.bio == registration.bio
    &&& !f.verified
    &&& new == DbView {
        freelancers: old.freelancers.insert(address, f),
        discipline_index: index_add(old.discipline_index, registration.discipline@, address),
        ..old
    }
}

/// `old` with `bounty` stored directly under its id and indexed under its
/// creator, the bounty counter raised to its id if below.
pub open spec fn seeded(old: DbView, bounty: BountyRecord) -> DbView {
    DbView {
        next_bounty_id: if bounty.id > old.next_bounty_id {
            bounty.id
        } else {
            old.next_bounty_id
        },
        bounties: old.bounties.insert(bounty.id, bounty),
        creator_bounties: index_add(old.creator_bounties, bounty.creator@, bounty.id),
        ..old
    }
}

/// What creating a bounty answers and leaves behind: it aborts, leaving the
/// database as it was, when the write budget runs out within its two
/// writes; otherwise it creates the bounty.
pub open spec fn create_bounty_outcome(
    old: DbView,
    request: BountyRequest,
    fail_after_write: Option<usize>,
    r: Result<BountyRecord, ApiError>,
    new: DbView,
) -> bool {
    if aborts_within(fail_after_write, 2) {
        is_abort(r) && new == old
    } else {
        r matches Ok(b) && bounty_created(old, request, b, new)
    }
}

/// What applying for a bounty answers and leaves behind: `NotFound` when the
/// bounty does not exist; an abort within its three writes; otherwise the
/// application is filed. Every refusal leaves the database as it was.
pub open spec fn apply_outcome(
    old: DbView,
    request: BountyApplication,
    fail_after_write: Option<usize>,
    r: Result<ApplicationRecord, ApiError>,
    new: DbView,
) -> bool {
    if !old.bounties.contains_key(request.bounty_id) {
        &&& r matches Err(ApiError::NotFound(m))
        &&& m@ == "Bounty not found"@
        &&& new == old
    } else if aborts_within(fail_after_write, 3) {
        is_abort(r) && new == old
    } else {
        r matches Ok(a) && application_submitted(old, request, a, new)
    }
}

/// What registering a freelancer under `address` answers and leaves behind:
/// `Conflict` when the address is taken; an abort within its two writes;
/// otherwise the profile is stored. Every refusal leaves the database as it
/// was.
pub open spec fn register_outcome(
    old: DbView,
    address: Seq<char>,
    registration: FreelancerRegistration,
    fail_after_write: Option<usize>,
    r: Result<FreelancerRecord, ApiError>,
    new: DbView,
) -> bool {
    if old.freelancers.contains_key(address) {
        &&& r matches Err(ApiError::Conflict(m))
        &&& m@ == "Address already registered"@
        &&& new == old
    } else if aborts_within(fail_after_write, 2) {
        is_abort(r) && new == old
    } else {
        r matches Ok(f) && freelancer_registered(old, address, registration, f, new)
    }
}

/// The number of applications indexed under bounty `bid`.
pub open spec fn indexed_application_count(db: DbView, bid: u64) -> nat {
    if db.bounty_applications.contains_key(bid) {
        db.bounty_applications[bid].len()
    } else {
        0
    }
}

/// The consistency every operation keeps: records sit under their own ids,
/// ids never exceed the counters, each index holds exactly the records that
/// belong under each key, and each bounty counts its applications.
pub open spec fn db_wf(db: DbView) -> bool {
    &&& forall|id: u64| #[trigger]
        db.bounties.contains_key(id) ==> db.bounties[id].id == id && id <= db.next_bounty_id
    &&& forall|id: u64| #[trigger]
        db.applications.contains_key(id) ==> {
            &&& db.applications[id].id == id
            &&& id <= db.next_application_id
            &&& db.bounties.contains_key(db.applications[id].bounty_id)
        }
    &&& forall|c: Seq<char>, id: u64|
        db.creator_bounties.contains_key(c) && #[trigger] db.creator_bounties[c].contains(id)
            ==> db.bounties.contains_key(id) && db.bounties[id].creator@ == c
    &&& forall|id: u64| #[trigger]
        db.bounties.contains_key(id) ==> {
            &&& db.creator_bounties.contains_key(db.bounties[id].creator@)
            &&& db.creator_bounties[db.bounties[id].creator@].contains(id)
        }
    &&& forall|b: u64, id: u64|
        db.bounty_applications.contains_key(b) && #[trigger] db.bounty_applications[b].contains(id)
            ==> db.applications.contains_key(id) && db.applications[id].bounty_id == b
    &&& forall|id: u64| #[trigger]
        db.applications.contains_key(id) ==> {
            &&& db.bounty_applications.contains_key(db.applications[id].bounty_id)
            &&& db.bounty_applications[db.applications[id].bounty_id].contains(id)
        }
    &&& forall|b: u64| #[trigger]
        db.bounty_applications.contains_key(b) ==> db.bounty_applications[b].finite()
    &&& forall|id: u64| #[trigger]
        db.bounties.contains_key(id) ==> db.bounties[id].application_count
            == indexed_application_count(db, id)
    &&& forall|a: Seq<char>| #[trigger]
        db.freelancers.contains_key(a) ==> db.freelancers[a].address@ == a
    &&& forall|d: Seq<char>, a: Seq<char>|
        db.discipline_index.contains_key(d) && #[trigger] db.discipline_index[d].contains(a)
            ==> db.freelancers.contains_key(a) && db.freelancers[a].discipline@ == d
    &&& forall|a: Seq<char>| #[trigger]
        db.freelancers.contains_key(a) ==> {
            &&& db.discipline_index.contains_key(db.freelancers[a].discipline@)
            &&& db.discipline_index[db.freelancers[a].discipline@].contains(a)
        }
}

/// Adds `item` to the set stored under `key`.
pub fn add_to_text_index(index: &mut StrMap<BTreeSet<u64>>, key: String, item: u64)
    ensures
        final(index)@ == index_add(old(index)@, key@, item),
{
    let mut set = match index.remove(key.as_str()) {
        Some(s) => s,
        None => BTreeSet::new(),
    };
    set.insert(item);
    index.insert(key, set);
    assert(index@ =~= index_add(old(index)@, key@, item));
}

/// Adds `item` to the set stored under `key`.
pub fn add_to_id_index(index: &mut BTreeMap<u64, BTreeSet<u64>>, key: u64, item: u64)
    ensures
        final(index)@.map_values(|s: BTreeSet<u64>| s@) == index_add(
            old(index)@.map_values(|s: BTreeSet<u64>| s@),
            key,
            item,
        ),
{
    let mut set = match index.remove(&key) {
        Some(s) => s,
        None => BTreeSet::new(),
    };
    set.insert(item);
    index.insert(key, set);
    assert(index@.map_values(|s: BTreeSet<u64>| s@) =~= index_add(
        old(index)@.map_values(|s: BTreeSet<u64>| s@),
        key,
        item,
    ));
}

/// Adds `item` to the set of strings stored under `key`.
pub fn add_to_text_set_index(index: &mut StrMap<StrSet>, key: String, item: String)
    ensures
        final(index)@.map_values(|m: Map<Seq<char>, ()>| m.dom()) == index_add(
            old(index)@.map_values(|m: Map<Seq<char>, ()>| m.dom()),
            key@,
            item@,
        ),
{
    let mut set = match index.remove(key.as_str()) {
        Some(s) => s,
        None => StrMap::new(),
    };
    set.insert(item, ());
    index.insert(key, set);
    assert(index@.map_values(|m: Map<Seq<char>, ()>| m.dom()) =~= index_add(
        old(index)@.map_values(|m: Map<Seq<char>, ()>| m.dom()),
        key@,
        item@,
    ));
}

} // verus!
