//! Properties of the store that span operations: the consistency that every
//! write keeps, and what later reads see of earlier writes.

use vstd::prelude::*;

use crate::db::{
    application_submitted, bounty_created, db_wf, empty_db, freelancer_registered, index_add,
    indexed_application_count, register_outcome, seeded, apply_outcome, create_bounty_outcome, DbView,
};
use crate::queries::{listed_by_address, listed_by_id};
use crate::store::{transaction_outcome, write_fails, Committed, Operation};
use crate::str_map::strictly_sorted;
use crate::text::{address_for, lemma_text_lt_irreflexive, lemma_text_lt_transitive};
use crate::model::{
    ApiError, ApplicationRecord, BountyApplication, BountyRecord, BountyRequest, FreelancerRecord,
    FreelancerRegistration,
};

verus! {

/// An empty database is consistent.
pub proof fn lemma_empty_db_wf()
    ensures
        db_wf(empty_db()),
{
}

/// Creating a bounty keeps the database consistent, never reuses the id of
/// a stored bounty, and leaves every other bounty as it was.
pub proof fn lemma_create_bounty_keeps_wf(
    old: DbView,
    request: BountyRequest,
    b: BountyRecord,
    new: DbView,
)
    requires
        db_wf(old),
        bounty_created(old, request, b, new),
    ensures
        db_wf(new),
        !old.bounties.contains_key(b.id),
        new.bounties.remove(b.id) == old.bounties,
{
    assert(new.bounties.remove(b.id) =~= old.bounties);
    assert forall|id: u64| #[trigger] new.bounties.contains_key(id) implies new.bounties[id].application_count
        == indexed_application_count(new, id) by {
        if id == b.id {
            assert(!old.bounty_applications.contains_key(b.id) || old.bounty_applications[b.id].len() == 0) by {
                if old.bounty_applications.contains_key(b.id) && old.bounty_applications[b.id].len() != 0 {
                    let x = old.bounty_applications[b.id].choose();
                    assert(old.bounty_applications[b.id].contains(x));
                }
            }
        }
    }
}

/// Under a consistent database no application is indexed under a bounty
/// that does not exist.
proof fn lemma_no_applications_for_missing_bounty(db: DbView, bid: u64)
    requires
        db_wf(db),
        !db.bounties.contains_key(bid),
    ensures
        indexed_application_count(db, bid) == 0,
{
    if db.bounty_applications.contains_key(bid) && db.bounty_applications[bid].len() != 0 {
        let x = db.bounty_applications[bid].choose();
        assert(db.bounty_applications[bid].contains(x));
    }
}

/// Filing an application keeps the database consistent, never reuses the id
/// of a stored application, and raises the bounty's application count by
/// exactly one.
pub proof fn lemma_apply_keeps_wf(
    old: DbView,
    request: BountyApplication,
    a: ApplicationRecord,
    new: DbView,
)
    requires
        db_wf(old),
        application_submitted(old, request, a, new),
        old.bounties[request.bounty_id].application_count < u64::MAX,
    ensures
        db_wf(new),
        !old.applications.contains_key(a.id),
        new.applications.remove(a.id) == old.applications,
        new.bounties[request.bounty_id].application_count == old.bounties[request.bounty_id].application_count + 1,
        indexed_application_count(new, request.bounty_id) == indexed_application_count(old, request.bounty_id) + 1,
{
    let bid = request.bounty_id;
    assert(new.applications.remove(a.id) =~= old.applications);
    if old.bounty_applications.contains_key(bid) {
        assert(!old.bounty_applications[bid].contains(a.id));
        assert(old.bounty_applications[bid].finite());
        assert(new.bounty_applications[bid] == old.bounty_applications[bid].insert(a.id));
        assert(new.bounty_applications[bid].len() == old.bounty_applications[bid].len() + 1);
    } else {
        assert(new.bounty_applications[bid] == Set::<u64>::empty().insert(a.id));
        assert(new.bounty_applications[bid].len() == 1);
    }
    assert(indexed_application_count(new, bid) == indexed_application_count(old, bid) + 1);
    assert forall|id: u64| #[trigger] new.bounties.contains_key(id) implies new.bounties[id].application_count
        == indexed_application_count(new, id) by {
        if id != bid {
            assert(new.bounties[id] == old.bounties[id]);
            assert(indexed_application_count(new, id) == indexed_application_count(old, id));
        }
    }
    assert forall|c: Seq<char>, id: u64|
        new.creator_bounties.contains_key(c) && #[trigger] new.creator_bounties[c].contains(id)
        implies new.bounties.contains_key(id) && new.bounties[id].creator@ == c by {
        assert(old.bounties.contains_key(id));
    }
    assert forall|id: u64| #[trigger] new.bounties.contains_key(id) implies {
        &&& new.creator_bounties.contains_key(new.bounties[id].creator@)
        &&& new.creator_bounties[new.bounties[id].creator@].contains(id)
    } by {
        assert(old.bounties.contains_key(id));
    }
}

/// Registering a freelancer under a free address keeps the database
/// consistent and leaves every other profile as it was.
pub proof fn lemma_register_keeps_wf(
    old: DbView,
    address: Seq<char>,
    registration: FreelancerRegistration,
    f: FreelancerRecord,
    new: DbView,
)
    requires
        db_wf(old),
        !old.freelancers.contains_key(address),
        freelancer_registered(old, address, registration, f, new),
    ensures
        db_wf(new),
        new.freelancers.remove(address) == old.freelancers,
{
    assert(new.freelancers.remove(address) =~= old.freelancers);
    assert forall|d: Seq<char>, x: Seq<char>|
        new.discipline_index.contains_key(d) && #[trigger] new.discipline_index[d].contains(x)
        implies new.freelancers.contains_key(x) && new.freelancers[x].discipline@ == d by {
        if x != address {
            if d == registration.discipline@ && !old.discipline_index.contains_key(d) {
                assert(false);
            }
        }
    }
}

/// Seeding a bounty under an unused id with no applications keeps the
/// database consistent.
pub proof fn lemma_seed_keeps_wf(old: DbView, bounty: BountyRecord, new: DbView)
    requires
        db_wf(old),
        !old.bounties.contains_key(bounty.id),
        bounty.application_count == 0,
        new == seeded(old, bounty),
    ensures
        db_wf(new),
{
    lemma_no_applications_for_missing_bounty(old, bounty.id);
    assert forall|id: u64| #[trigger] new.bounties.contains_key(id) implies new.bounties[id].application_count
        == indexed_application_count(new, id) by {
        if id != bounty.id {
            assert(new.bounties[id] == old.bounties[id]);
        }
    }
}

/// A transaction that answers with an error leaves the database exactly as
/// it was, whichever operation it ran and at whichever step it stopped.
pub proof fn lemma_refused_operation_changes_nothing(
    old: DbView,
    op: Operation,
    fail_after_write: Option<usize>,
    r: Result<Committed, ApiError>,
    new: DbView,
)
    requires
        transaction_outcome(old, op, fail_after_write, r, new),
        r is Err,
    ensures
        new == old,
{
}

/// A transaction that succeeds writes every one of its steps: the record
/// and its index entries (and, for an application, the bounty's count).
pub proof fn lemma_committed_operation_writes_all_steps(
    old: DbView,
    op: Operation,
    fail_after_write: Option<usize>,
    r: Result<Committed, ApiError>,
    new: DbView,
)
    requires
        transaction_outcome(old, op, fail_after_write, r, new),
        r is Ok,
    ensures
        match (op, r) {
            (Operation::CreateBounty(request), Ok(Committed::Bounty(b))) => bounty_created(
                old,
                request,
                b,
                new,
            ),
            (Operation::ApplyForBounty(request), Ok(Committed::Application(a))) => application_submitted(
                old,
                request,
                a,
                new,
            ),
            (
                Operation::RegisterFreelancer { address, registration },
                Ok(Committed::Freelancer(f)),
            ) => freelancer_registered(old, address@, registration, f, new),
            _ => false,
        },
{
}

/// A created bounty is what a later lookup of its id returns, and it is
/// listed under its creator.
pub proof fn lemma_created_bounty_is_found(
    old: DbView,
    request: BountyRequest,
    b: BountyRecord,
    new: DbView,
)
    requires
        bounty_created(old, request, b, new),
    ensures
        new.bounties.contains_key(b.id),
        new.bounties[b.id] == b,
        new.creator_bounties.contains_key(request.creator@),
        new.creator_bounties[request.creator@].contains(b.id),
{
}

/// A registered profile is what a later lookup of its address returns, and
/// it is filed under its discipline.
pub proof fn lemma_registered_freelancer_is_found(
    old: DbView,
    address: Seq<char>,
    registration: FreelancerRegistration,
    f: FreelancerRecord,
    new: DbView,
)
    requires
        freelancer_registered(old, address, registration, f, new),
    ensures
        new.freelancers.contains_key(address),
        new.freelancers[address] == f,
        new.discipline_index.contains_key(registration.discipline@),
        new.discipline_index[registration.discipline@].contains(address),
{
}

/// Registering the same address a second time is refused with `Conflict`
/// and changes nothing, whatever the second form says and whatever write
/// failure is configured.
pub proof fn lemma_second_registration_conflicts(
    old: DbView,
    address: Seq<char>,
    first: FreelancerRegistration,
    f: FreelancerRecord,
    mid: DbView,
    second: FreelancerRegistration,
    fail_after_write: Option<usize>,
    r: Result<FreelancerRecord, ApiError>,
    new: DbView,
)
    requires
        freelancer_registered(old, address, first, f, mid),
        register_outcome(mid, address, second, fail_after_write, r, new),
    ensures
        r matches Err(ApiError::Conflict(_)),
        new == mid,
        new.freelancers.len() == mid.freelancers.len(),
{
}

/// Two strictly ascending sequences of the same keys are equal.
proof fn lemma_sorted_texts_unique(a: Seq<Seq<char>>, b: Seq<Seq<char>>)
    requires
        strictly_sorted(a),
        strictly_sorted(b),
        a.to_set() == b.to_set(),
    ensures
        a == b,
    decreases a.len(),
{
    if a.len() == 0 {
        if b.len() != 0 {
            assert(b.to_set().contains(b[0]));
        }
        assert(a =~= b);
    } else if b.len() == 0 {
        assert(a.to_set().contains(a[0]));
    } else {
        assert(b.to_set().contains(a[0]));
        assert(a.to_set().contains(b[0]));
        let j = choose|j: int| 0 <= j < b.len() && b[j] == a[0];
        let i = choose|i: int| 0 <= i < a.len() && a[i] == b[0];
        if j > 0 && i > 0 {
            // a[0] < a[i] == b[0] < b[j] == a[0]
            lemma_text_lt_transitive(a[0], a[i], b[j]);
            lemma_text_lt_irreflexive(a[0]);
        } else if j > 0 {
            assert(i == 0);
            lemma_text_lt_irreflexive(a[0]);
        } else if i > 0 {
            lemma_text_lt_irreflexive(b[0]);
        }
        assert(a[0] == b[0]);
        let ta = a.drop_first();
        let tb = b.drop_first();
        assert forall|x: Seq<char>| ta.to_set().contains(x) <==> tb.to_set().contains(x) by {
            if ta.to_set().contains(x) {
                let k = choose|k: int| 0 <= k < ta.len() && ta[k] == x;
                assert(a[k + 1] == x);
                assert(x != a[0]) by {
                    lemma_text_lt_irreflexive(a[0]);
                }
                assert(b.to_set().contains(x));
                let m = choose|m: int| 0 <= m < b.len() && b[m] == x;
                assert(m != 0);
                assert(tb[m - 1] == x);
            }
            if tb.to_set().contains(x) {
                let k = choose|k: int| 0 <= k < tb.len() && tb[k] == x;
                assert(b[k + 1] == x);
                assert(x != b[0]) by {
                    lemma_text_lt_irreflexive(b[0]);
                }
                assert(a.to_set().contains(x));
                let m = choose|m: int| 0 <= m < a.len() && a[m] == x;
                assert(m != 0);
                assert(ta[m - 1] == x);
            }
        }
        assert(ta.to_set() =~= tb.to_set());
        lemma_sorted_texts_unique(ta, tb);
        assert(a =~= seq![a[0]] + ta);
        assert(b =~= seq![b[0]] + tb);
    }
}

/// Listing profiles by address is determined by the addresses and the
/// profiles: two listings of the same addresses are the same sequence.
pub proof fn lemma_address_listing_is_determined(
    addrs: Set<Seq<char>>,
    m: Map<Seq<char>, FreelancerRecord>,
    r1: Seq<FreelancerRecord>,
    r2: Seq<FreelancerRecord>,
)
    requires
        listed_by_address(addrs, m, r1),
        listed_by_address(addrs, m, r2),
    ensures
        r1 == r2,
{
    let k1 = choose|ks: Seq<Seq<char>>|
        {
            &&& strictly_sorted(ks)
            &&& ks.to_set() == addrs
            &&& r1 == crate::queries::profiles_at(ks, m)
        };
    let k2 = choose|ks: Seq<Seq<char>>|
        {
            &&& strictly_sorted(ks)
            &&& ks.to_set() == addrs
            &&& r2 == crate::queries::profiles_at(ks, m)
        };
    lemma_sorted_texts_unique(k1, k2);
}

/// Two strictly ascending sequences of the same ids are equal.
proof fn lemma_sorted_ids_unique(a: Seq<u64>, b: Seq<u64>)
    requires
        forall|i: int, j: int| 0 <= i < j < a.len() ==> #[trigger] a[i] < #[trigger] a[j],
        forall|i: int, j: int| 0 <= i < j < b.len() ==> #[trigger] b[i] < #[trigger] b[j],
        a.to_set() == b.to_set(),
    ensures
        a == b,
    decreases a.len(),
{
    if a.len() == 0 {
        if b.len() != 0 {
            assert(b.to_set().contains(b[0]));
        }
        assert(a =~= b);
    } else if b.len() == 0 {
        assert(a.to_set().contains(a[0]));
    } else {
        assert(b.to_set().contains(a[0]));
        assert(a.to_set().contains(b[0]));
        let j = choose|j: int| 0 <= j < b.len() && b[j] == a[0];
        let i = choose|i: int| 0 <= i < a.len() && a[i] == b[0];
        if j > 0 {
            assert(b[0] < b[j]);
        }
        if i > 0 {
            assert(a[0] < a[i]);
        }
        assert(a[0] == b[0]);
        let ta = a.drop_first();
        let tb = b.drop_first();
        assert forall|x: u64| ta.to_set().contains(x) <==> tb.to_set().contains(x) by {
            if ta.to_set().contains(x) {
                let k = choose|k: int| 0 <= k < ta.len() && ta[k] == x;
                assert(a[k + 1] == x);
                assert(a[0] < a[k + 1]);
                assert(b.to_set().contains(x));
                let m = choose|m: int| 0 <= m < b.len() && b[m] == x;
                assert(m != 0);
                assert(tb[m - 1] == x);
            }
            if tb.to_set().contains(x) {
                let k = choose|k: int| 0 <= k < tb.len() && tb[k] == x;
                assert(b[k + 1] == x);
                assert(b[0] < b[k + 1]);
                assert(a.to_set().contains(x));
                let m = choose|m: int| 0 <= m < a.len() && a[m] == x;
                assert(m != 0);
                assert(ta[m - 1] == x);
            }
        }
        assert(ta.to_set() =~= tb.to_set());
        lemma_sorted_ids_unique(ta, tb);
        assert(a =~= seq![a[0]] + ta);
        assert(b =~= seq![b[0]] + tb);
    }
}

/// Listing bounties by id is determined by the bounties: two listings of the
/// same table are the same sequence.
pub proof fn lemma_bounty_listing_is_determined(
    m: Map<u64, BountyRecord>,
    r1: Seq<BountyRecord>,
    r2: Seq<BountyRecord>,
)
    requires
        listed_by_id(m, r1),
        listed_by_id(m, r2),
    ensures
        r1 == r2,
{
    let k1 = choose|ks: Seq<u64>|
        {
            &&& ks.len() == r1.len()
            &&& ks.to_set() == m.dom()
            &&& forall|i: int, j: int| 0 <= i < j < ks.len() ==> #[trigger] ks[i] < #[trigger] ks[j]
            &&& forall|i: int| 0 <= i < ks.len() ==> #[trigger] r1[i] == m[ks[i]]
        };
    let k2 = choose|ks: Seq<u64>|
        {
            &&& ks.len() == r2.len()
            &&& ks.to_set() == m.dom()
            &&& forall|i: int, j: int| 0 <= i < j < ks.len() ==> #[trigger] ks[i] < #[trigger] ks[j]
            &&& forall|i: int| 0 <= i < ks.len() ==> #[trigger] r2[i] == m[ks[i]]
        };
    lemma_sorted_ids_unique(k1, k2);
    assert(r1 =~= r2);
}

/// The creator index holds exactly the bounties under their creators, and
/// no bounty id exceeds the bounty counter.
pub open spec fn creator_index_consistent(db: DbView) -> bool {
    &&& forall|c: Seq<char>, id: u64|
        db.creator_bounties.contains_key(c) && #[trigger] db.creator_bounties[c].contains(id)
            ==> db.bounties.contains_key(id) && db.bounties[id].creator@ == c
    &&& forall|id: u64| #[trigger]
        db.bounties.contains_key(id) ==> {
            &&& db.creator_bounties.contains_key(db.bounties[id].creator@)
            &&& db.creator_bounties[db.bounties[id].creator@].contains(id)
            &&& id <= db.next_bounty_id
        }
}

/// Each bounty counts the applications indexed under it, the application
/// index holds only applications of that bounty, and no application id
/// exceeds the application counter.
pub open spec fn application_index_consistent(db: DbView) -> bool {
    &&& forall|id: u64| #[trigger]
        db.bounties.contains_key(id) ==> db.bounties[id].application_count
            == indexed_application_count(db, id)
    &&& forall|b: u64, id: u64|
        db.bounty_applications.contains_key(b) && #[trigger] db.bounty_applications[b].contains(id)
            ==> db.applications.contains_key(id) && db.applications[id].bounty_id == b
    &&& forall|id: u64| #[trigger] db.applications.contains_key(id) ==> id <= db.next_application_id
}

/// The discipline index holds exactly the profiles under their
/// disciplines, and every profile sits under its own address.
pub open spec fn discipline_index_consistent(db: DbView) -> bool {
    &&& forall|d: Seq<char>, a: Seq<char>|
        db.discipline_index.contains_key(d) && #[trigger] db.discipline_index[d].contains(a)
            ==> db.freelancers.contains_key(a) && db.freelancers[a].discipline@ == d
    &&& forall|a: Seq<char>| #[trigger]
        db.freelancers.contains_key(a) ==> {
            &&& db.discipline_index.contains_key(db.freelancers[a].discipline@)
            &&& db.discipline_index[db.freelancers[a].discipline@].contains(a)
            &&& db.freelancers[a].address@ == a
        }
}

/// Creating a bounty, whether it succeeds or not, keeps the creator index
/// consistent, and a created bounty never takes the id of a stored one.
pub proof fn lemma_create_bounty_keeps_creator_index(
    old: DbView,
    request: BountyRequest,
    fail_after_write: Option<usize>,
    r: Result<BountyRecord, ApiError>,
    new: DbView,
)
    requires
        creator_index_consistent(old),
        create_bounty_outcome(old, request, fail_after_write, r, new),
    ensures
        creator_index_consistent(new),
        r matches Ok(b) ==> !old.bounties.contains_key(b.id),
{
    if let Ok(b) = r {
        assert forall|c: Seq<char>, id: u64|
            new.creator_bounties.contains_key(c) && #[trigger] new.creator_bounties[c].contains(id)
            implies new.bounties.contains_key(id) && new.bounties[id].creator@ == c by {
            if id != b.id {
                if c == b.creator@ && !old.creator_bounties.contains_key(c) {
                    assert(new.creator_bounties[c] == Set::<u64>::empty().insert(b.id));
                } else {
                    assert(old.creator_bounties[c].contains(id));
                }
            }
        }
    }
}

/// Applying for a bounty, whether it succeeds or not, keeps the
/// application counts and index consistent, and a filed application never
/// takes the id of a stored one.
pub proof fn lemma_apply_keeps_application_index(
    old: DbView,
    request: BountyApplication,
    fail_after_write: Option<usize>,
    r: Result<ApplicationRecord, ApiError>,
    new: DbView,
)
    requires
        old.applications.dom().finite(),
        application_index_consistent(old),
        apply_outcome(old, request, fail_after_write, r, new),
        old.bounties.contains_key(request.bounty_id) ==> old.bounties[request.bounty_id].application_count
            < u64::MAX,
    ensures
        application_index_consistent(new),
        r matches Ok(a) ==> !old.applications.contains_key(a.id),
{
    if let Ok(a) = r {
        let bid = request.bounty_id;
        assert(!old.applications.contains_key(a.id));
        if old.bounty_applications.contains_key(bid) {
            assert(old.bounty_applications[bid].subset_of(old.applications.dom()));
            vstd::set_lib::lemma_set_subset_finite(
                old.applications.dom(),
                old.bounty_applications[bid],
            );
            assert(!old.bounty_applications[bid].contains(a.id));
            assert(new.bounty_applications[bid] == old.bounty_applications[bid].insert(a.id));
        } else {
            assert(new.bounty_applications[bid] == Set::<u64>::empty().insert(a.id));
        }
        assert(indexed_application_count(new, bid) == indexed_application_count(old, bid) + 1);
        assert forall|id: u64| #[trigger] new.bounties.contains_key(id) implies new.bounties[id].application_count
            == indexed_application_count(new, id) by {
            if id != bid {
                assert(new.bounties[id] == old.bounties[id]);
                assert(indexed_application_count(new, id) == indexed_application_count(old, id));
            }
        }
        assert forall|b: u64, id: u64|
            new.bounty_applications.contains_key(b) && #[trigger] new.bounty_applications[b].contains(
                id,
            ) implies new.applications.contains_key(id) && new.applications[id].bounty_id == b by {
            if id != a.id {
                assert(old.bounty_applications.contains_key(b));
                assert(old.bounty_applications[b].contains(id));
            }
        }
    }
}

/// Registering a freelancer, whether it succeeds or not, keeps the
/// discipline index consistent.
pub proof fn lemma_register_keeps_discipline_index(
    old: DbView,
    address: Seq<char>,
    registration: FreelancerRegistration,
    fail_after_write: Option<usize>,
    r: Result<FreelancerRecord, ApiError>,
    new: DbView,
)
    requires
        discipline_index_consistent(old),
        register_outcome(old, address, registration, fail_after_write, r, new),
    ensures
        discipline_index_consistent(new),
{
    if let Ok(f) = r {
        assert forall|d: Seq<char>, x: Seq<char>|
            new.discipline_index.contains_key(d) && #[trigger] new.discipline_index[d].contains(x)
            implies new.freelancers.contains_key(x) && new.freelancers[x].discipline@ == d by {
            if x != address {
                if d == registration.discipline@ && !old.discipline_index.contains_key(d) {
                    assert(new.discipline_index[d] == Set::<Seq<char>>::empty().insert(address));
                } else {
                    assert(old.discipline_index[d].contains(x));
                }
            }
        }
    }
}

/// Within one transaction, whose `k`-th write sees `k` earlier writes, at
/// most one write fails: the `f`-th, when the failure setting is `Some(f)`
/// with `f >= 1`; with `None` or `Some(0)` none does.
pub proof fn lemma_at_most_one_write_fails(fail_after_write: Option<usize>, i: nat, j: nat)
    ensures
        write_fails(fail_after_write, i) && write_fails(fail_after_write, j) ==> i == j,
        (fail_after_write is None || fail_after_write == Some(0usize)) ==> !write_fails(
            fail_after_write,
            i,
        ),
        (fail_after_write matches Some(k) && k >= 1) ==> write_fails(
            fail_after_write,
            (fail_after_write->0 - 1) as nat,
        ),
{
}

/// One call that can change the store's database.
pub enum StoreStep {
    /// `Store::create_bounty(request)` answered `created`.
    CreateBounty {
        request: BountyRequest,
        fail_after_write: Option<usize>,
        created: Result<BountyRecord, ApiError>,
    },
    /// `Store::apply_for_bounty(application)` answered `filed`.
    ApplyForBounty {
        application: BountyApplication,
        fail_after_write: Option<usize>,
        filed: Result<ApplicationRecord, ApiError>,
    },
    /// `Store::register_freelancer(registration)` answered `registered`.
    RegisterFreelancer {
        registration: FreelancerRegistration,
        fail_after_write: Option<usize>,
        registered: Result<FreelancerRecord, ApiError>,
    },
    /// `Store::seed_bounty(bounty)`.
    SeedBounty { bounty: BountyRecord },
    /// `Store::set_fail_after_write`, which leaves the database as it is.
    SetFailure,
}

/// `step` took the database from `old` to `new`, as its function's contract
/// states.
pub open spec fn step_outcome(old: DbView, step: StoreStep, new: DbView) -> bool {
    match step {
        StoreStep::CreateBounty { request, fail_after_write, created } => create_bounty_outcome(
            old,
            request,
            fail_after_write,
            created,
            new,
        ),
        StoreStep::ApplyForBounty { application, fail_after_write, filed } => apply_outcome(
            old,
            application,
            fail_after_write,
            filed,
            new,
        ),
        StoreStep::RegisterFreelancer {
            registration,
            fail_after_write,
            registered,
        } => register_outcome(
            old,
            address_for(registration.name@),
            registration,
            fail_after_write,
            registered,
            new,
        ),
        StoreStep::SeedBounty { bounty } => new == seeded(old, bounty),
        StoreStep::SetFailure => new == old,
    }
}

/// `dbs[0], dbs[1], ...` are the databases before and after each of a run
/// of calls.
pub open spec fn is_run(dbs: Seq<DbView>, steps: Seq<StoreStep>) -> bool {
    &&& dbs.len() == steps.len() + 1
    &&& forall|i: int|
        0 <= i < steps.len() ==> #[trigger] step_outcome(dbs[i], steps[i], dbs[i + 1])
}

/// `step` files an application for, or seeds, bounty `id`.
pub open spec fn touches_bounty(step: StoreStep, id: u64) -> bool {
    ||| step matches StoreStep::ApplyForBounty { application, .. } && application.bounty_id == id
    ||| step matches StoreStep::SeedBounty { bounty } && bounty.id == id
}

/// A stored bounty whose id is within the counter stays as it is through
/// any run of calls that neither files an application for it nor seeds its
/// id.
pub proof fn lemma_bounty_persists(dbs: Seq<DbView>, steps: Seq<StoreStep>, id: u64)
    requires
        is_run(dbs, steps),
        dbs[0].bounties.contains_key(id),
        id <= dbs[0].next_bounty_id,
        forall|i: int| 0 <= i < steps.len() ==> !touches_bounty(#[trigger] steps[i], id),
    ensures
        dbs.last().bounties.contains_key(id),
        dbs.last().bounties[id] == dbs[0].bounties[id],
        id <= dbs.last().next_bounty_id,
    decreases steps.len(),
{
    if steps.len() > 0 {
        let n = steps.len() - 1;
        assert(step_outcome(dbs[n], steps[n], dbs[n + 1]));
        assert(!touches_bounty(steps[n], id));
        lemma_bounty_persists(dbs.drop_last(), steps.drop_last(), id);
    }
}

/// A created bounty is what a lookup of its id returns after any run of
/// calls that neither files an application for it nor seeds its id.
pub proof fn lemma_created_bounty_stays_found(
    old: DbView,
    request: BountyRequest,
    b: BountyRecord,
    dbs: Seq<DbView>,
    steps: Seq<StoreStep>,
)
    requires
        bounty_created(old, request, b, dbs[0]),
        is_run(dbs, steps),
        forall|i: int| 0 <= i < steps.len() ==> !touches_bounty(#[trigger] steps[i], b.id),
    ensures
        dbs.last().bounties.contains_key(b.id),
        dbs.last().bounties[b.id] == b,
{
    lemma_bounty_persists(dbs, steps, b.id);
}

/// A stored profile stays as it is through any run of calls.
pub proof fn lemma_profile_persists(dbs: Seq<DbView>, steps: Seq<StoreStep>, address: Seq<char>)
    requires
        is_run(dbs, steps),
        dbs[0].freelancers.contains_key(address),
    ensures
        dbs.last().freelancers.contains_key(address),
        dbs.last().freelancers[address] == dbs[0].freelancers[address],
    decreases steps.len(),
{
    if steps.len() > 0 {
        let n = steps.len() - 1;
        assert(step_outcome(dbs[n], steps[n], dbs[n + 1]));
        lemma_profile_persists(dbs.drop_last(), steps.drop_last(), address);
    }
}

/// A registered profile is what a lookup of its address returns after any
/// run of calls; its address is derived from the registered name.
pub proof fn lemma_registered_freelancer_stays_found(
    old: DbView,
    registration: FreelancerRegistration,
    f: FreelancerRecord,
    dbs: Seq<DbView>,
    steps: Seq<StoreStep>,
)
    requires
        freelancer_registered(old, address_for(registration.name@), registration, f, dbs[0]),
        is_run(dbs, steps),
    ensures
        f.address@ == address_for(registration.name@),
        dbs.last().freelancers.contains_key(f.address@),
        dbs.last().freelancers[f.address@] == f,
{
    lemma_profile_persists(dbs, steps, f.address@);
}

/// The results of a run of writes in one transaction: `results[k]` is whether
/// the write made after `k` earlier writes failed.
pub open spec fn is_write_run(fail_after_write: Option<usize>, results: Seq<bool>) -> bool {
    forall|k: int| 0 <= k < results.len() ==> #[trigger] results[k] == write_fails(fail_after_write, k as nat)
}

/// Of `n` writes in one transaction at most one fails; it is the `f`-th when
/// the failure setting is `Some(f)` with `1 <= f <= n`, and none fails when
/// it is `None` or `Some(0)`.
pub proof fn lemma_write_run(fail_after_write: Option<usize>, results: Seq<bool>)
    requires
        is_write_run(fail_after_write, results),
    ensures
        forall|i: int, j: int|
            0 <= i < results.len() && 0 <= j < results.len() && #[trigger] results[i]
                && #[trigger] results[j] ==> i == j,
        (fail_after_write is None || fail_after_write == Some(0usize)) ==> forall|k: int|
            0 <= k < results.len() ==> !#[trigger] results[k],
        forall|k: usize|
            1 <= k <= results.len() && fail_after_write == Some(k) ==> #[trigger] results[k - 1],
{
    assert forall|i: int, j: int|
        0 <= i < results.len() && 0 <= j < results.len() && #[trigger] results[i]
            && #[trigger] results[j] implies i == j by {
        lemma_at_most_one_write_fails(fail_after_write, i as nat, j as nat);
    }
    assert forall|k: usize|
        1 <= k <= results.len() && fail_after_write == Some(k) implies #[trigger] results[k - 1] by {
        assert(results[k - 1] == write_fails(fail_after_write, (k - 1) as nat));
    }
}

} // verus!
