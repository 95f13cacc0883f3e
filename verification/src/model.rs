//! Requests, stored records, errors and the response envelope.

use vstd::prelude::*;

verus! {

/// A request to post a bounty.
#[derive(Debug)]
pub struct BountyRequest {
    /// Stellar address of the bounty creator
    pub creator: String,
    pub title: String,
    pub description: String,
    /// Budget in stroops (1 XLM = 10_000_000 stroops)
    pub budget: i128,
    /// Unix timestamp for the deadline
    pub deadline: u64,
}

/// A freelancer's application for a bounty.
#[derive(Debug)]
pub struct BountyApplication {
    pub bounty_id: u64,
    /// Stellar address of the applicant
    pub freelancer: String,
    pub proposal: String,
    pub proposed_budget: i128,
    /// Estimated timeline in days
    pub timeline: u64,
}

/// A freelancer's registration form.
#[derive(Debug)]
pub struct FreelancerRegistration {
    pub name: String,
    pub discipline: String,
    pub bio: String,
}

/// A stored bounty.
#[derive(Debug)]
pub struct BountyRecord {
    pub id: u64,
    pub creator: String,
    pub title: String,
    pub description: String,
    pub budget: i128,
    pub deadline: u64,
    pub status: String,
    pub application_count: u64,
}

/// A stored application.
#[derive(Debug)]
pub struct ApplicationRecord {
    pub id: u64,
    pub bounty_id: u64,
    pub freelancer: String,
    pub proposal: String,
    pub proposed_budget: i128,
    pub timeline: u64,
    pub status: String,
}

/// A stored freelancer profile.
#[derive(Debug)]
pub struct FreelancerRecord {
    pub address: String,
    pub name: String,
    pub discipline: String,
    pub bio: String,
    pub verified: bool,
}

impl Clone for BountyRequest {
    fn clone(&self) -> (r: Self)
        ensures
            r == *self,
    {
        BountyRequest {
            creator: self.creator.clone(),
            title: self.title.clone(),
            description: self.description.clone(),
            budget: self.budget,
            deadline: self.deadline,
        }
    }
}

impl Clone for BountyApplication {
    fn clone(&self) -> (r: Self)
        ensures
            r == *self,
    {
        BountyApplication {
            bounty_id: self.bounty_id,
            freelancer: self.freelancer.clone(),
            proposal: self.proposal.clone(),
            proposed_budget: self.proposed_budget,
            timeline: self.timeline,
        }
    }
}

impl Clone for FreelancerRegistration {
    fn clone(&self) -> (r: Self)
        ensures
            r == *self,
    {
        FreelancerRegistration {
            name: self.name.clone(),
            discipline: self.discipline.clone(),
            bio: self.bio.clone(),
        }
    }
}

impl Clone for BountyRecord {
    fn clone(&self) -> (r: Self)
        ensures
            r == *self,
    {
        BountyRecord {
            id: self.id,
            creator: self.creator.clone(),
            title: self.title.clone(),
            description: self.description.clone(),
            budget: self.budget,
            deadline: self.deadline,
            status: self.status.clone(),
            application_count: self.application_count,
        }
    }
}

impl Clone for ApplicationRecord {
    fn clone(&self) -> (r: Self)
        ensures
            r == *self,
    {
        ApplicationRecord {
            id: self.id,
            bounty_id: self.bounty_id,
            freelancer: self.freelancer.clone(),
            proposal: self.proposal.clone(),
            proposed_budget: self.proposed_budget,
            timeline: self.timeline,
            status: self.status.clone(),
        }
    }
}

impl Clone for FreelancerRecord {
    fn clone(&self) -> (r: Self)
        ensures
            r == *self,
    {
        FreelancerRecord {
            address: self.address.clone(),
            name: self.name.clone(),
            discipline: self.discipline.clone(),
            bio: self.bio.clone(),
            verified: self.verified,
        }
    }
}

/// Why a request was refused.
#[derive(Debug)]
pub enum ApiError {
    BadRequest(String),
    Conflict(String),
    NotFound(String),
    Internal(String),
}

/// The message carried by an error.
pub open spec fn error_message(e: ApiError) -> String {
    match e {
        ApiError::BadRequest(m) => m,
        ApiError::Conflict(m) => m,
        ApiError::NotFound(m) => m,
        ApiError::Internal(m) => m,
    }
}

/// The HTTP status code with which an error is answered.
pub open spec fn error_status(e: ApiError) -> u16 {
    match e {
        ApiError::BadRequest(_) => 400,
        ApiError::Conflict(_) => 409,
        ApiError::NotFound(_) => 404,
        ApiError::Internal(_) => 500,
    }
}

impl ApiError {
    /// The message carried by the error.
    pub fn message(&self) -> (r: &str)
        ensures
            r@ == error_message(*self)@,
    {
        match self {
            ApiError::BadRequest(message) => message.as_str(),
            ApiError::Conflict(message) => message.as_str(),
            ApiError::NotFound(message) => message.as_str(),
            ApiError::Internal(message) => message.as_str(),
        }
    }

    /// The HTTP status code of the error: 400 for a bad request, 409 for a
    /// conflict, 404 for a missing resource, 500 for an internal failure.
    pub fn status_code(&self) -> (r: u16)
        ensures
            r == error_status(*self),
    {
        match self {
            ApiError::BadRequest(_) => 400,
            ApiError::Conflict(_) => 409,
            ApiError::NotFound(_) => 404,
            ApiError::Internal(_) => 500,
        }
    }

    /// The error's message as an owned string (the text `Display` shows).
    pub fn to_string(&self) -> (r: String)
        ensures
            r@ == error_message(*self)@,
    {
        self.message().to_string()
    }
}

impl ApiError {
    /// The envelope in which the error is answered: unsuccessful, with the
    /// error's message and no data.
    pub fn response<T>(&self) -> (r: ApiResponse<T>)
        ensures
            !r.success,
            r.data.is_none(),
            r.error matches Some(m) && m@ == error_message(*self)@,
            r.message.is_none(),
    {
        ApiResponse::err(self.to_string())
    }
}

/// The envelope in which every endpoint answers.
#[derive(Debug)]
pub struct ApiResponse<T> {
    pub success: bool,
    pub data: Option<T>,
    pub error: Option<String>,
    pub message: Option<String>,
}

impl<T> ApiResponse<T> {
    /// A successful answer carrying `data` and an optional message.
    pub fn ok(data: T, message: Option<String>) -> (r: Self)
        ensures
            r.success,
            r.data == Some(data),
            r.error.is_none(),
            r.message == message,
    {
        ApiResponse { success: true, data: Some(data), error: None, message }
    }

    /// A failed answer carrying the error text and no data.
    pub fn err(error: String) -> (r: Self)
        ensures
            !r.success,
            r.data.is_none(),
            r.error == Some(error),
            r.message.is_none(),
    {
        ApiResponse { success: false, data: None, error: Some(error), message: None }
    }
}

} // verus!
