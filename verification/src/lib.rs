//! The bounty and freelancer store behind the Stellar creator platform API:
//! request and record types, an in-memory database whose multi-step writes
//! commit atomically, and the documented route table.

pub mod api_doc;
pub mod db;
pub mod guarantees;
pub mod laws;
pub mod model;
pub mod paging;
pub mod queries;
pub mod replies;
pub mod store;
pub mod str_map;
pub mod text;
