//! Local user accounts: a store of user records, password login, and the
//! admin-only operations that create, list and remove secretary accounts.

pub mod auth;
pub mod database;
pub mod laws;
pub mod password;
pub mod stamp;
pub mod store;
pub mod text;
pub mod user;
