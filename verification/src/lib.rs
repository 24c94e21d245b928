//! Authorization core of a journaling service: friend relationships between
//! accounts, the visibility rules that decide who may read what, and keyset
//! paging of identifier-ordered listings.

pub mod access;
pub mod account;
pub mod entries;
pub mod errors;
pub mod idtext;
pub mod json;
pub mod pager;
pub mod pair;
pub mod profiles;
pub mod relationships;
pub mod search;
pub mod status;
pub mod storage;
pub mod store;
pub mod text;
pub mod visibility;
