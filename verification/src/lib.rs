//! Session layer of a FIX (Financial Information eXchange) protocol engine:
//! sequence-number bookkeeping with a resend store, the session state
//! machine, and the decimal field value used for typed field encoding.

pub mod field;
pub mod session;
pub mod store;
