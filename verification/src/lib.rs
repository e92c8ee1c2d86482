//! The verified core of the FindOut desktop client: conversation history,
//! request validation, quota and error messages, release checks, update
//! verification, installation records and image normalisation.
use vstd::prelude::*;

pub mod text;
pub mod validate;
pub mod conversation;
pub mod order;
pub mod lifecycle;
pub mod quota;
pub mod release;
pub mod identity;
pub mod imaging;
pub mod origin;
pub mod popup;
pub mod system;
pub mod metrics;

verus! {

} // verus!
