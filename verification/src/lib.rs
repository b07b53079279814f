//! Decision core of a sequential batch downloader.
//!
//! A batch is a base location and an ordered list of identifiers.  Each
//! identifier is fetched with one blocking GET and saved under the
//! `downloads` directory; the first failure ends the batch.
//!
//! Nothing in this crate touches the network or the disk.  The caller
//! performs each [`fetch::Instruction`] and reports what happened as a
//! [`fetch::FetchEvent`]; every decision in between is taken here and is
//! verified.
//!
//! - [`target`]: the address a file is requested at and the path it is
//!   saved to;
//! - [`status`]: which status codes fail a fetch, and the failures it can end in;
//! - [`fetch`]: the fetch of one target, stage by stage;
//! - [`batch`]: the list of targets and how far it has got;
//! - [`report`]: the lines shown to the user;
//! - [`world`]: a model of server and disk, and what a fetch and a batch
//!   are proved to do to them.

pub mod batch;
pub mod fetch;
pub mod report;
pub mod status;
pub mod target;
pub mod world;
