//! Named groups of cloud accounts: resolving which accounts a group request
//! selects, folding them into the stored groups, and reporting which accounts
//! of a group still hold a live session.

pub mod account;
pub mod command;
pub mod matcher;
pub mod merger;
pub mod report;
pub mod session;
pub mod store;
pub mod text;
