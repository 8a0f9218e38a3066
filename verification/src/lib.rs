//! Resolution of software identity and risk metadata for packages.
//!
//! A catalog service knows, for a package, whether it is trusted, which
//! vulnerabilities it has, which versions of it exist, and what it depends
//! on. This crate holds what a client of such a catalog has to get right:
//!
//! - [`purl`], [`order`]: package identifiers, their components and text,
//!   and the order of their qualifiers;
//! - [`data`]: the records that the catalog returns;
//! - [`backend`]: the address of a catalog and the requests sent to it;
//! - [`exchange`]: what an answer, or the lack of one, means;
//! - [`batch`]: the answers to a batch request, aligned with what was asked;
//! - [`sbom`]: the identifiers that a bill of materials declares;
//! - [`versions`]: the versions of a package, newest first;
//! - [`refs`], [`title`], [`route`]: labels, titles and links for showing
//!   records;
//! - [`lookup`]: reading an identifier from what a user entered;
//! - [`sort`], [`split`], [`text`]: ordering and splitting of strings.
//!
//! Nothing here touches the network. Every executable function carries a
//! contract that Verus proves; what is assumed of other crates is said at
//! the function that calls them.

pub mod backend;
pub mod batch;
pub mod data;
pub mod error;
pub mod exchange;
pub mod lookup;
pub mod order;
pub mod purl;
pub mod refs;
pub mod route;
pub mod sbom;
pub mod sort;
pub mod split;
pub mod text;
pub mod title;
pub mod versions;
