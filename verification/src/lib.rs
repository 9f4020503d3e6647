//! Publishing pipeline for a locally authored article: the data model, the
//! AtomPub entry-document renderer, the endpoint/request construction and the
//! classification of the publish outcome. File and network I/O live outside
//! this crate; everything here is pure and verified.

pub mod cli;
pub mod model;
pub mod publish;
pub mod xml;
