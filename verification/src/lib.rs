//! The core of a local file-receiving server: the rules by which one
//! multipart upload is turned into files on disk, the limits that guard it,
//! and the listening port that the rest of the process reads.
//!
//! An upload is a [`session::UploadSession`]: it is told what happened on
//! the wire and on the disk, and says what to do next. It touches neither;
//! the network and the file system live with the caller. What the session
//! guarantees, whatever its caller reports, is proved in [`laws`]; what it
//! achieves against a sender and a disk that behave, in [`delivery`] and
//! [`custody`], over the model in [`world`].
//!
//! The listening port is kept by a [`port::PortAllocator`], picked once and
//! the same ever after.

pub mod custody;
pub mod delivery;
pub mod fault;
pub mod field;
pub mod laws;
pub mod limits;
pub mod logging;
pub mod naming;
pub mod port;
pub mod routes;
pub mod session;
pub mod world;
