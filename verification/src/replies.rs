//! The answers the service gives when a write succeeds: HTTP status and the
//! envelope with the data it reports.

use vstd::prelude::*;

use crate::model::{ApiResponse, ApplicationRecord, BountyRecord, FreelancerRecord};

verus! {

/// An HTTP status with the envelope sent under it.
#[derive(Debug)]
pub struct Reply<T> {
    pub status: u16,
    pub body: ApiResponse<T>,
}

/// What the answer to a created bounty reports.
#[derive(Debug)]
pub struct BountyCreated {
    pub bounty_id: u64,
    pub creator: String,
    pub title: String,
    pub budget: i128,
    pub status: String,
}

/// What the answer to a submitted application reports.
#[derive(Debug)]
pub struct ApplicationSubmitted {
    pub application_id: u64,
    pub bounty_id: u64,
    pub freelancer: String,
    pub status: String,
}

/// What the answer to a registered freelancer reports.
#[derive(Debug)]
pub struct FreelancerRegistered {
    pub name: String,
    pub discipline: String,
    pub verified: bool,
}

/// `201 Created` with the new bounty's id, creator, title, budget and
/// status, and the message "Bounty created successfully".
pub fn bounty_created_reply(bounty: BountyRecord) -> (r: Reply<BountyCreated>)
    ensures
        r.status == 201,
        r.body.success,
        r.body.error.is_none(),
        r.body.message matches Some(m) && m@ == "Bounty created successfully"@,
        r.body.data == Some(
            BountyCreated {
                bounty_id: bounty.id,
                creator: bounty.creator,
                title: bounty.title,
                budget: bounty.budget,
                status: bounty.status,
            },
        ),
{
    let data = BountyCreated {
        bounty_id: bounty.id,
        creator: bounty.creator,
        title: bounty.title,
        budget: bounty.budget,
        status: bounty.status,
    };
    Reply {
        status: 201,
        body: ApiResponse::ok(data, Some("Bounty created successfully".to_string())),
    }
}

/// `201 Created` with the new application's id, its bounty's id, the
/// applicant and the status, and the message "Application submitted
/// successfully".
pub fn application_submitted_reply(application: ApplicationRecord) -> (r: Reply<
    ApplicationSubmitted,
>)
    ensures
        r.status == 201,
        r.body.success,
        r.body.error.is_none(),
        r.body.message matches Some(m) && m@ == "Application submitted successfully"@,
        r.body.data == Some(
            ApplicationSubmitted {
                application_id: application.id,
                bounty_id: application.bounty_id,
                freelancer: application.freelancer,
                status: application.status,
            },
        ),
{
    let data = ApplicationSubmitted {
        application_id: application.id,
        bounty_id: application.bounty_id,
        freelancer: application.freelancer,
        status: application.status,
    };
    Reply {
        status: 201,
        body: ApiResponse::ok(data, Some("Application submitted successfully".to_string())),
    }
}

/// `201 Created` with the new profile's name, discipline and verification
/// flag, and the message "Freelancer registered successfully".
pub fn freelancer_registered_reply(freelancer: FreelancerRecord) -> (r: Reply<
    FreelancerRegistered,
>)
    ensures
        r.status == 201,
        r.body.success,
        r.body.error.is_none(),
        r.body.message matches Some(m) && m@ == "Freelancer registered successfully"@,
        r.body.data == Some(
            FreelancerRegistered {
                name: freelancer.name,
                discipline: freelancer.discipline,
                verified: freelancer.verified,
            },
        ),
{
    let data = FreelancerRegistered {
        name: freelancer.name,
        discipline: freelancer.discipline,
        verified: freelancer.verified,
    };
    Reply {
        status: 201,
        body: ApiResponse::ok(data, Some("Freelancer registered successfully".to_string())),
    }
}

} // verus!
