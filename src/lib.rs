//! Owned records with an embedded forward link, and the intrusively linked
//! list that chains them.

pub mod list;
pub mod crl;
pub mod error;
