//! Incremental synchroniser of a served asset tree with a remote repository:
//! signature checks, change-set resolution, promotion planning and the
//! decisions of the compare sweep, each stated and proved with Verus.

pub mod text;
pub mod paths;
pub mod signature;
pub mod changeset;
pub mod resolve;
pub mod catalog;
pub mod promote;
pub mod webhook;
pub mod sweep;
pub mod remote;
