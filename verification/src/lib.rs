//! Request construction and validation for the bucket-management calls of a
//! cloud object-storage service.
//!
//! The crate checks bucket settings before they are sent and maps them to and
//! from the records that travel on the wire:
//!
//! * [`lifecycle`] holds lifecycle rules and reports overlapping file name
//!   prefixes;
//! * [`origin`] classifies the origins of a CORS rule and checks a list of
//!   them as a whole;
//! * [`cors`] assembles CORS rules, with [`name`] for their names;
//! * [`encryption`] and [`retention`] map server-side encryption and file
//!   retention settings to and from their wire records;
//! * [`bucket`] assembles the requests that create, update and list buckets,
//!   and holds them against the capabilities of an authorization;
//! * [`error`], [`text`], [`time`] and [`json`] hold what the others share.
//!
//! Every function states what it returns in its contract, and Verus proves
//! the body against it. The exceptions are the calls into `md5`, `base64`
//! and `serde_json`, whose contracts are taken on trust: they are in
//! [`encryption`] and [`json`].

pub mod bucket;
pub mod cors;
pub mod encryption;
pub mod error;
pub mod json;
pub mod lifecycle;
pub mod name;
pub mod origin;
pub mod retention;
pub mod text;
pub mod time;
