//! The store: transactions that stage every write on a copy of the database
//! and commit it only when all steps succeed, and the operations built on
//! them.

use vstd::prelude::*;

use crate::db::{
    add_to_id_index, add_to_text_index, add_to_text_set_index, aborts_within, apply_outcome,
    application_submitted, bounty_created, create_bounty_outcome, empty_db, freelancer_registered,
    is_abort, seeded, register_outcome, db_wf, DbView, InMemoryDb,
};
use crate::laws::{
    application_index_consistent, creator_index_consistent, discipline_index_consistent,
    lemma_apply_keeps_application_index, lemma_apply_keeps_wf,
    lemma_create_bounty_keeps_creator_index, lemma_create_bounty_keeps_wf, lemma_empty_db_wf,
    lemma_register_keeps_discipline_index, lemma_register_keeps_wf, lemma_seed_keeps_wf,
};
use crate::model::{
    ApiError, ApplicationRecord, BountyApplication, BountyRecord, BountyRequest, FreelancerRecord,
    FreelancerRegistration,
};
use crate::text::{address_for, address_of};

verus! {

/// When set, the transaction aborts at its `fail_after_write`-th write.
#[derive(Debug, Clone, Copy, PartialEq, Eq, Structural)]
pub struct FailureConfig {
    pub fail_after_write: Option<usize>,
}

/// The write counter of a running transaction.
#[derive(Debug)]
pub struct TransactionContext {
    pub writes: usize,
    pub fail_after_write: Option<usize>,
}

/// Whether the write made after `earlier_writes` earlier writes of a
/// transaction is the one at which the transaction aborts.
pub open spec fn write_fails(fail_after_write: Option<usize>, earlier_writes: nat) -> bool {
    fail_after_write matches Some(k) && k == earlier_writes + 1
}

impl TransactionContext {
    /// Counts one write; fails when the count reaches the configured limit.
    pub fn record_write(&mut self) -> (r: Result<(), ApiError>)
        requires
            old(self).writes < usize::MAX,
        ensures
            final(self).writes == old(self).writes + 1,
            final(self).fail_after_write == old(self).fail_after_write,
            r is Err <==> write_fails(old(self).fail_after_write, old(self).writes as nat),
            r is Err ==> is_abort(r),
    {
        self.writes = self.writes + 1;
        if self.fail_after_write == Some(self.writes) {
            return Err(ApiError::Internal("transaction aborted before commit".to_string()));
        }
        Ok(())
    }
}

/// A unit of work that runs as one transaction.
#[derive(Debug)]
pub enum Operation {
    CreateBounty(BountyRequest),
    ApplyForBounty(BountyApplication),
    RegisterFreelancer { address: String, registration: FreelancerRegistration },
}

/// What a committed transaction produced.
#[derive(Debug)]
pub enum Committed {
    Bounty(BountyRecord),
    Application(ApplicationRecord),
    Freelancer(FreelancerRecord),
}

/// The bounty in a transaction result.
pub open spec fn as_bounty(r: Result<Committed, ApiError>) -> Result<BountyRecord, ApiError> {
    match r {
        Ok(Committed::Bounty(b)) => Ok(b),
        Ok(_) => Err(ApiError::Internal(arbitrary())),
        Err(e) => Err(e),
    }
}

/// The application in a transaction result.
pub open spec fn as_application(r: Result<Committed, ApiError>) -> Result<
    ApplicationRecord,
    ApiError,
> {
    match r {
        Ok(Committed::Application(a)) => Ok(a),
        Ok(_) => Err(ApiError::Internal(arbitrary())),
        Err(e) => Err(e),
    }
}

/// The freelancer in a transaction result.
pub open spec fn as_freelancer(r: Result<Committed, ApiError>) -> Result<
    FreelancerRecord,
    ApiError,
> {
    match r {
        Ok(Committed::Freelancer(f)) => Ok(f),
        Ok(_) => Err(ApiError::Internal(arbitrary())),
        Err(e) => Err(e),
    }
}

/// What running `op` as a transaction answers and leaves behind.
pub open spec fn transaction_outcome(
    old: DbView,
    op: Operation,
    fail_after_write: Option<usize>,
    r: Result<Committed, ApiError>,
    new: DbView,
) -> bool {
    match op {
        Operation::CreateBounty(request) => {
            &&& r matches Ok(c) ==> c is Bounty
            &&& create_bounty_outcome(old, request, fail_after_write, as_bounty(r), new)
        },
        Operation::ApplyForBounty(request) => {
            &&& r matches Ok(c) ==> c is Application
            &&& apply_outcome(old, request, fail_after_write, as_application(r), new)
        },
        Operation::RegisterFreelancer { address, registration } => {
            &&& r matches Ok(c) ==> c is Freelancer
            &&& register_outcome(
                old,
                address@,
                registration,
                fail_after_write,
                as_freelancer(r),
                new,
            )
        },
    }
}

/// The counters that `op` increments are below their maximum.
pub open spec fn operation_fits(db: DbView, op: Operation) -> bool {
    match op {
        Operation::CreateBounty(_) => db.next_bounty_id < u64::MAX,
        Operation::ApplyForBounty(request) => {
            db.bounties.contains_key(request.bounty_id) ==> {
                &&& db.next_application_id < u64::MAX
                &&& db.bounties[request.bounty_id].application_count < u64::MAX
            }
        },
        Operation::RegisterFreelancer { .. } => true,
    }
}

impl InMemoryDb {
    fn stage_create_bounty(&mut self, tx: &mut TransactionContext, request: BountyRequest) -> (r:
        Result<BountyRecord, ApiError>)
        requires
            old(self).next_bounty_id < u64::MAX,
            old(tx).writes == 0,
        ensures
            aborts_within(old(tx).fail_after_write, 2) ==> is_abort(r),
            !aborts_within(old(tx).fail_after_write, 2) ==> (r matches Ok(b) && bounty_created(
                old(self)@,
                request,
                b,
                final(self)@,
            )),
    {
        self.next_bounty_id = self.next_bounty_id + 1;
        let bounty = BountyRecord {
            id: self.next_bounty_id,
            creator: request.creator.clone(),
            title: request.title.clone(),
            description: request.description.clone(),
            budget: request.budget,
            deadline: request.deadline,
            status: "open".to_string(),
            application_count: 0,
        };
        self.bounties.insert(bounty.id, bounty.clone());
        match tx.record_write() {
            Ok(()) => {},
            Err(e) => {
                return Err(e);
            },
        }
        add_to_text_index(&mut self.creator_bounties, bounty.creator.clone(), bounty.id);
        match tx.record_write() {
            Ok(()) => {},
            Err(e) => {
                return Err(e);
            },
        }
        Ok(bounty)
    }

    fn stage_apply_for_bounty(
        &mut self,
        tx: &mut TransactionContext,
        request: BountyApplication,
    ) -> (r: Result<ApplicationRecord, ApiError>)
        requires
            old(self)@.bounties.contains_key(request.bounty_id) ==> {
                &&& old(self).next_application_id < u64::MAX
                &&& old(self)@.bounties[request.bounty_id].application_count < u64::MAX
            },
            old(tx).writes == 0,
        ensures
            !old(self)@.bounties.contains_key(request.bounty_id) ==> (r matches Err(
                ApiError::NotFound(m),
            ) && m@ == "Bounty not found"@),
            old(self)@.bounties.contains_key(request.bounty_id) && aborts_within(
                old(tx).fail_after_write,
                3,
            ) ==> is_abort(r),
            old(self)@.bounties.contains_key(request.bounty_id) && !aborts_within(
                old(tx).fail_after_write,
                3,
            ) ==> (r matches Ok(a) && application_submitted(old(self)@, request, a, final(self)@)),
    {
        if !self.bounties.contains_key(&request.bounty_id) {
            return Err(ApiError::NotFound("Bounty not found".to_string()));
        }
        self.next_application_id = self.next_application_id + 1;
        let application = ApplicationRecord {
            id: self.next_application_id,
            bounty_id: request.bounty_id,
            freelancer: request.freelancer.clone(),
            proposal: request.proposal.clone(),
            proposed_budget: request.proposed_budget,
            timeline: request.timeline,
            status: "pending".to_string(),
        };
        self.applications.insert(application.id, application.clone());
        match tx.record_write() {
            Ok(()) => {},
            Err(e) => {
                return Err(e);
            },
        }
        add_to_id_index(&mut self.bounty_applications, request.bounty_id, application.id);
        match tx.record_write() {
            Ok(()) => {},
            Err(e) => {
                return Err(e);
            },
        }
        let mut bounty = match self.bounties.get(&request.bounty_id) {
            Some(b) => b.clone(),
            None => {
                return Err(
                    ApiError::Internal("Bounty disappeared during transaction".to_string()),
                );
            },
        };
        bounty.application_count = bounty.application_count + 1;
        self.bounties.insert(request.bounty_id, bounty);
        match tx.record_write() {
            Ok(()) => {},
            Err(e) => {
                return Err(e);
            },
        }
        Ok(application)
    }

    fn stage_register_freelancer(
        &mut self,
        tx: &mut TransactionContext,
        address: String,
        registration: FreelancerRegistration,
    ) -> (r: Result<FreelancerRecord, ApiError>)
        requires
            old(tx).writes == 0,
        ensures
            old(self)@.freelancers.contains_key(address@) ==> (r matches Err(
                ApiError::Conflict(m),
            ) && m@ == "Address already registered"@),
            !old(self)@.freelancers.contains_key(address@) && aborts_within(
                old(tx).fail_after_write,
                2,
            ) ==> is_abort(r),
            !old(self)@.freelancers.contains_key(address@) && !aborts_within(
                old(tx).fail_after_write,
                2,
            ) ==> (r matches Ok(f) && freelancer_registered(
                old(self)@,
                address@,
                registration,
                f,
                final(self)@,
            )),
    {
        if self.freelancers.contains_key(address.as_str()) {
            return Err(ApiError::Conflict("Address already registered".to_string()));
        }
        let freelancer = FreelancerRecord {
            address: address.clone(),
            name: registration.name.clone(),
            discipline: registration.discipline.clone(),
            bio: registration.bio.clone(),
            verified: false,
        };
        self.freelancers.insert(address.clone(), freelancer.clone());
        match tx.record_write() {
            Ok(()) => {},
            Err(e) => {
                return Err(e);
            },
        }
        add_to_text_set_index(
            &mut self.discipline_index,
            freelancer.discipline.clone(),
            address.clone(),
        );
        match tx.record_write() {
            Ok(()) => {},
            Err(e) => {
                return Err(e);
            },
        }
        Ok(freelancer)
    }
}

/// The shared state of the service: the database and the configured write
/// failure.
#[derive(Debug)]
pub struct Store {
    pub db: InMemoryDb,
    pub failure: FailureConfig,
}

impl Default for Store {
    fn default() -> (r: Self)
        ensures
            r.db@ == empty_db(),
            db_wf(r.db@),
            r.failure.fail_after_write.is_none(),
    {
        proof {
            lemma_empty_db_wf();
        }
        Store { db: InMemoryDb::default(), failure: FailureConfig { fail_after_write: None } }
    }
}

impl Store {
    /// Runs `op` on a copy of the database and replaces the database with
    /// that copy only when every step succeeded; on any error the database
    /// is left exactly as it was.
    pub fn transaction(&mut self, op: Operation) -> (r: Result<Committed, ApiError>)
        requires
            operation_fits(old(self).db@, op),
        ensures
            transaction_outcome(
                old(self).db@,
                op,
                old(self).failure.fail_after_write,
                r,
                final(self).db@,
            ),
            final(self).failure == old(self).failure,
    {
        let failure = self.failure;
        let mut staged = self.db.clone();
        let mut tx = TransactionContext { writes: 0, fail_after_write: failure.fail_after_write };
        let result = match op {
            Operation::CreateBounty(request) => {
                match staged.stage_create_bounty(&mut tx, request) {
                    Ok(b) => Ok(Committed::Bounty(b)),
                    Err(e) => Err(e),
                }
            },
            Operation::ApplyForBounty(request) => {
                match staged.stage_apply_for_bounty(&mut tx, request) {
                    Ok(a) => Ok(Committed::Application(a)),
                    Err(e) => Err(e),
                }
            },
            Operation::RegisterFreelancer { address, registration } => {
                match staged.stage_register_freelancer(&mut tx, address, registration) {
                    Ok(f) => Ok(Committed::Freelancer(f)),
                    Err(e) => Err(e),
                }
            },
        };
        match result {
            Ok(value) => {
                self.db = staged;
                Ok(value)
            },
            Err(e) => Err(e),
        }
    }

    /// Creates a bounty, its record and its creator-index entry together.
    pub fn create_bounty(&mut self, request: BountyRequest) -> (r: Result<BountyRecord, ApiError>)
        requires
            old(self).db.next_bounty_id < u64::MAX,
        ensures
            create_bounty_outcome(
                old(self).db@,
                request,
                old(self).failure.fail_after_write,
                r,
                final(self).db@,
            ),
            final(self).failure == old(self).failure,
            db_wf(old(self).db@) ==> db_wf(final(self).db@),
            creator_index_consistent(old(self).db@) ==> creator_index_consistent(final(self).db@),
    {
        let ghost req = request;
        let result = match self.transaction(Operation::CreateBounty(request)) {
            Ok(Committed::Bounty(b)) => {
                proof {
                    if db_wf(old(self).db@) {
                        lemma_create_bounty_keeps_wf(old(self).db@, req, b, self.db@);
                    }
                }
                Ok(b)
            },
            Ok(_) => {
                assert(false);
                Err(ApiError::Internal("transaction aborted before commit".to_string()))
            },
            Err(e) => Err(e),
        };
        proof {
            if creator_index_consistent(old(self).db@) {
                lemma_create_bounty_keeps_creator_index(
                    old(self).db@,
                    req,
                    old(self).failure.fail_after_write,
                    result,
                    self.db@,
                );
            }
        }
        result
    }

    /// Files an application: the record, its bounty-index entry and the
    /// bounty's application count, together.
    pub fn apply_for_bounty(&mut self, request: BountyApplication) -> (r: Result<
        ApplicationRecord,
        ApiError,
    >)
        requires
            old(self).db@.bounties.contains_key(request.bounty_id) ==> {
                &&& old(self).db.next_application_id < u64::MAX
                &&& old(self).db@.bounties[request.bounty_id].application_count < u64::MAX
            },
        ensures
            apply_outcome(
                old(self).db@,
                request,
                old(self).failure.fail_after_write,
                r,
                final(self).db@,
            ),
            final(self).failure == old(self).failure,
            db_wf(old(self).db@) ==> db_wf(final(self).db@),
            application_index_consistent(old(self).db@) ==> application_index_consistent(
                final(self).db@,
            ),
    {
        let ghost req = request;
        let result = match self.transaction(Operation::ApplyForBounty(request)) {
            Ok(Committed::Application(a)) => {
                proof {
                    if db_wf(old(self).db@) {
                        lemma_apply_keeps_wf(old(self).db@, req, a, self.db@);
                    }
                }
                Ok(a)
            },
            Ok(_) => {
                assert(false);
                Err(ApiError::Internal("transaction aborted before commit".to_string()))
            },
            Err(e) => Err(e),
        };
        proof {
            if application_index_consistent(old(self).db@) {
                lemma_apply_keeps_application_index(
                    old(self).db@,
                    req,
                    old(self).failure.fail_after_write,
                    result,
                    self.db@,
                );
            }
        }
        result
    }

    /// Registers a freelancer under the address derived from the name.
    pub fn register_freelancer(&mut self, registration: FreelancerRegistration) -> (r: Result<
        FreelancerRecord,
        ApiError,
    >)
        ensures
            register_outcome(
                old(self).db@,
                address_for(registration.name@),
                registration,
                old(self).failure.fail_after_write,
                r,
                final(self).db@,
            ),
            final(self).failure == old(self).failure,
            db_wf(old(self).db@) ==> db_wf(final(self).db@),
            discipline_index_consistent(old(self).db@) ==> discipline_index_consistent(
                final(self).db@,
            ),
    {
        let address = address_of(registration.name.as_str());
        let ghost reg = registration;
        let ghost addr = address@;
        let result = match self.transaction(Operation::RegisterFreelancer { address, registration }) {
            Ok(Committed::Freelancer(f)) => {
                proof {
                    if db_wf(old(self).db@) {
                        lemma_register_keeps_wf(old(self).db@, addr, reg, f, self.db@);
                    }
                }
                Ok(f)
            },
            Ok(_) => {
                assert(false);
                Err(ApiError::Internal("transaction aborted before commit".to_string()))
            },
            Err(e) => Err(e),
        };
        proof {
            if discipline_index_consistent(old(self).db@) {
                lemma_register_keeps_discipline_index(
                    old(self).db@,
                    addr,
                    reg,
                    old(self).failure.fail_after_write,
                    result,
                    self.db@,
                );
            }
        }
        result
    }

    /// Files an application received at the route of bounty `path_bounty_id`:
    /// `BadRequest`, with no write, when the body names another bounty;
    /// otherwise as [`Store::apply_for_bounty`].
    pub fn apply_at_path(&mut self, path_bounty_id: u64, request: BountyApplication) -> (r:
        Result<ApplicationRecord, ApiError>)
        requires
            request.bounty_id == path_bounty_id && old(self).db@.bounties.contains_key(
                request.bounty_id,
            ) ==> {
                &&& old(self).db.next_application_id < u64::MAX
                &&& old(self).db@.bounties[request.bounty_id].application_count < u64::MAX
            },
        ensures
            request.bounty_id != path_bounty_id ==> {
                &&& r matches Err(ApiError::BadRequest(m))
                &&& m@ == "Bounty ID in path must match request body"@
                &&& final(self).db@ == old(self).db@
            },
            request.bounty_id == path_bounty_id ==> apply_outcome(
                old(self).db@,
                request,
                old(self).failure.fail_after_write,
                r,
                final(self).db@,
            ),
            final(self).failure == old(self).failure,
            db_wf(old(self).db@) ==> db_wf(final(self).db@),
            application_index_consistent(old(self).db@) ==> application_index_consistent(
                final(self).db@,
            ),
    {
        if request.bounty_id != path_bounty_id {
            return Err(ApiError::BadRequest("Bounty ID in path must match request body".to_string()));
        }
        self.apply_for_bounty(request)
    }

    /// Stores `bounty` directly, outside any transaction: it is indexed under
    /// its creator and the id counter is raised to its id if below.
    pub fn seed_bounty(&mut self, bounty: BountyRecord)
        ensures
            final(self).db@ == seeded(old(self).db@, bounty),
            final(self).failure == old(self).failure,
            db_wf(old(self).db@) && !old(self).db@.bounties.contains_key(bounty.id)
                && bounty.application_count == 0 ==> db_wf(final(self).db@),
    {
        let ghost seeded = bounty;
        if bounty.id > self.db.next_bounty_id {
            self.db.next_bounty_id = bounty.id;
        }
        add_to_text_index(&mut self.db.creator_bounties, bounty.creator.clone(), bounty.id);
        self.db.bounties.insert(bounty.id, bounty);
        proof {
            if db_wf(old(self).db@) && !old(self).db@.bounties.contains_key(seeded.id)
                && seeded.application_count == 0 {
                lemma_seed_keeps_wf(old(self).db@, seeded, self.db@);
            }
        }
    }

    /// Sets the write at which the following transactions abort.
    pub fn set_fail_after_write(&mut self, fail_after_write: Option<usize>)
        ensures
            final(self).failure.fail_after_write == fail_after_write,
            final(self).db == old(self).db,
    {
        self.failure.fail_after_write = fail_after_write;
    }
}

} // verus!
