//! Verified core of a bounded, host-paged text source: checked coordinates, request keys,
//! exact page and inline-object page validation, composite source positions, and the
//! bookkeeping state machines that surround them.

pub mod charge;
pub mod cleanup;
pub mod cleanup_ledger;
pub mod coordinates;
pub mod dispatch;
pub mod interaction;
pub mod limits;
pub mod object;
pub mod object_page;
pub mod object_request;
pub mod page;
pub mod position;
pub mod prepublication;
pub mod replay;
pub mod request;
pub mod resident;
pub mod utf16;
