//! What each operation delivers, stated directly over its inputs and its
//! results: the fields of created records, the shape of a derived address,
//! the items of a page, and where route parameters are documented.

use vstd::prelude::*;

use crate::db::{apply_outcome, create_bounty_outcome, register_outcome, DbView};
use crate::model::{
    ApiError, ApplicationRecord, BountyApplication, BountyRecord, BountyRequest, FreelancerRecord,
    FreelancerRegistration,
};
use crate::queries::with_status;
use crate::paging::page_of;

verus! {

/// A created bounty carries the request's creator, title, description,
/// budget and deadline, takes the id after the counter, is open with no
/// applications, is stored under its id and indexed under its creator, and
/// every other stored bounty is left as it was.
pub proof fn lemma_created_bounty_matches_request(
    old: DbView,
    request: BountyRequest,
    fail_after_write: Option<usize>,
    r: Result<BountyRecord, ApiError>,
    new: DbView,
)
    requires
        create_bounty_outcome(old, request, fail_after_write, r, new),
        r is Ok,
    ensures
        ({
            let b = r->Ok_0;
            &&& b.id == old.next_bounty_id + 1
            &&& b.creator == request.creator
            &&& b.title == request.title
            &&& b.description == request.description
            &&& b.budget == request.budget
            &&& b.deadline == request.deadline
            &&& b.status@ == "open"@
            &&& b.application_count == 0
            &&& new.next_bounty_id == b.id
            &&& new.bounties.contains_key(b.id)
            &&& new.bounties[b.id] == b
            &&& new.creator_bounties.contains_key(request.creator@)
            &&& new.creator_bounties[request.creator@].contains(b.id)
            &&& forall|id: u64|
                id != b.id ==> (#[trigger] new.bounties.contains_key(id)
                    == old.bounties.contains_key(id) && (old.bounties.contains_key(id)
                    ==> new.bounties[id] == old.bounties[id]))
            &&& new.applications == old.applications
            &&& new.freelancers == old.freelancers
        }),
{
}

/// A filed application carries the request's bounty id, applicant, proposal,
/// proposed budget and timeline, takes the id after the counter and is
/// pending; it is stored under its id and indexed under its bounty, whose
/// application count goes up by one while its other fields stay; bounties
/// other than the one applied for are left as they were.
pub proof fn lemma_filed_application_matches_request(
    old: DbView,
    request: BountyApplication,
    fail_after_write: Option<usize>,
    r: Result<ApplicationRecord, ApiError>,
    new: DbView,
)
    requires
        apply_outcome(old, request, fail_after_write, r, new),
        r is Ok,
    ensures
        ({
            let a = r->Ok_0;
            let bid = request.bounty_id;
            &&& old.bounties.contains_key(bid)
            &&& a.id == old.next_application_id + 1
            &&& a.bounty_id == bid
            &&& a.freelancer == request.freelancer
            &&& a.proposal == request.proposal
            &&& a.proposed_budget == request.proposed_budget
            &&& a.timeline == request.timeline
            &&& a.status@ == "pending"@
            &&& new.next_application_id == a.id
            &&& new.applications.contains_key(a.id)
            &&& new.applications[a.id] == a
            &&& new.bounty_applications.contains_key(bid)
            &&& new.bounty_applications[bid].contains(a.id)
            &&& new.bounties.contains_key(bid)
            &&& new.bounties[bid].application_count == (old.bounties[bid].application_count
                + 1) as u64
            &&& new.bounties[bid].id == old.bounties[bid].id
            &&& new.bounties[bid].creator == old.bounties[bid].creator
            &&& new.bounties[bid].title == old.bounties[bid].title
            &&& new.bounties[bid].description == old.bounties[bid].description
            &&& new.bounties[bid].budget == old.bounties[bid].budget
            &&& new.bounties[bid].deadline == old.bounties[bid].deadline
            &&& new.bounties[bid].status == old.bounties[bid].status
            &&& forall|id: u64|
                id != bid ==> (#[trigger] new.bounties.contains_key(id)
                    == old.bounties.contains_key(id) && (old.bounties.contains_key(id)
                    ==> new.bounties[id] == old.bounties[id]))
            &&& new.freelancers == old.freelancers
        }),
{
}

/// A registered profile sits under the address it was registered at and
/// carries the form's name, discipline and bio, unverified; it is filed
/// under its discipline, the address was free before, and every other
/// profile is left as it was.
pub proof fn lemma_registered_profile_matches_registration(
    old: DbView,
    address: Seq<char>,
    registration: FreelancerRegistration,
    fail_after_write: Option<usize>,
    r: Result<FreelancerRecord, ApiError>,
    new: DbView,
)
    requires
        register_outcome(old, address, registration, fail_after_write, r, new),
        r is Ok,
    ensures
        ({
            let f = r->Ok_0;
            &&& !old.freelancers.contains_key(address)
            &&& f.address@ == address
            &&& f.name == registration.name
            &&& f.discipline == registration.discipline
            &&& f.bio == registration.bio
            &&& !f.verified
            &&& new.freelancers.contains_key(address)
            &&& new.freelancers[address] == f
            &&& new.discipline_index.contains_key(registration.discipline@)
            &&& new.discipline_index[registration.discipline@].contains(address)
            &&& forall|a: Seq<char>|
                a != address ==> (#[trigger] new.freelancers.contains_key(a)
                    == old.freelancers.contains_key(a) && (old.freelancers.contains_key(a)
                    ==> new.freelancers[a] == old.freelancers[a]))
            &&& new.bounties == old.bounties
            &&& new.applications == old.applications
        }),
{
}

/// Narrowing to a status keeps exactly the bounties with that status, and
/// never more of them than there were.
pub proof fn lemma_with_status_members(s: Seq<BountyRecord>, status: Seq<char>)
    ensures
        forall|b: BountyRecord|
            #[trigger] with_status(s, status).contains(b) <==> s.contains(b) && b.status@ == status,
        with_status(s, status).len() <= s.len(),
    decreases s.len(),
{
    if s.len() > 0 {
        let t = s.drop_last();
        let x = s.last();
        lemma_with_status_members(t, status);
        assert(s =~= t.push(x));
        lemma_push_contains(t, x);
        let wt = with_status(t, status);
        if x.status@ == status {
            assert(with_status(s, status) == wt.push(x));
            lemma_push_contains(wt, x);
        } else {
            assert(with_status(s, status) == wt);
        }
    } else {
        assert forall|b: BountyRecord| #[trigger] with_status(s, status).contains(b) implies false by {
        }
    }
}

proof fn lemma_push_contains<T>(t: Seq<T>, x: T)
    ensures
        forall|b: T| #[trigger] t.push(x).contains(b) <==> t.contains(b) || b == x,
{
    assert forall|b: T| #[trigger] t.push(x).contains(b) <==> t.contains(b) || b == x by {
        if t.contains(b) {
            let k = choose|k: int| 0 <= k < t.len() && t[k] == b;
            assert(t.push(x)[k] == b);
        }
        if b == x {
            assert(t.push(x)[t.len() as int] == b);
        }
        if t.push(x).contains(b) {
            let k = choose|k: int| 0 <= k < t.push(x).len() && t.push(x)[k] == b;
            if k < t.len() {
                assert(t[k] == b);
            }
        }
    }
}

/// Page `page` (counted from 1) of `limit` items: when it starts inside the
/// listing it holds the items from position `(page - 1) * limit` on, as many
/// as the limit allows and the listing still has; a page that starts at or
/// past the end is empty.
pub proof fn lemma_page_items<T>(s: Seq<T>, page: u32, limit: u32)
    requires
        page >= 1,
    ensures
        ({
            let start = (page - 1) * limit;
            let p = page_of(s, page, limit);
            &&& start < s.len() ==> {
                &&& p.len() == if limit <= s.len() - start {
                    limit as int
                } else {
                    s.len() - start
                }
                &&& forall|i: int| 0 <= i < p.len() ==> #[trigger] p[i] == s[start + i]
            }
            &&& start >= s.len() ==> p.len() == 0
        }),
{
}

/// The first page holds the first `limit` items of the listing, or all of
/// them when there are fewer.
pub proof fn lemma_first_page<T>(s: Seq<T>, limit: u32)
    ensures
        page_of(s, 1, limit).len() == if limit <= s.len() {
            limit as int
        } else {
            s.len() as int
        },
        forall|i: int| 0 <= i < page_of(s, 1, limit).len() ==> #[trigger] page_of(s, 1, limit)[i] == s[i],
{
    lemma_page_items(s, 1, limit);
}

} // verus!
