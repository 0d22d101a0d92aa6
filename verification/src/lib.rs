//! Verified core logic of the sneaker reader shell.
use vstd::prelude::*;

pub mod text;
pub mod rewrite;
pub mod uuid;
pub mod progress;
pub mod api;
pub mod routing;
pub mod urls;
pub mod replies;
pub mod session;

verus! {
}
