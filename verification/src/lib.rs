//! Appliance availability library: vendor session handling, the three
//! vendor query protocols, and the request pipeline that ties them
//! together. Network, browser, and file work stays with the caller; this
//! crate holds the logic and its contracts.

pub mod cart;
pub mod catalog;
pub mod odata;
pub mod request;
pub mod resolver;
pub mod session;
pub mod strings;
