//! Session authentication, per-action authorization and the variant
//! attribute codec of a small storefront.

pub mod account;
pub mod address;
pub mod action;
pub mod attribute;
pub mod cart;
pub mod catalog;
pub mod clock;
pub mod digest;
pub mod error;
pub mod image;
pub mod laws;
pub mod policy;
pub mod secret;
pub mod store;
pub mod text;
pub mod vocabulary;
