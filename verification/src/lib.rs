//! Verified core of the ZeroClaw runtime: the provider circuit breaker, the
//! Mempalace memory bridge, the contemplation bridge, the personality wizard
//! and the desktop gateway launcher.
use vstd::prelude::*;

pub mod assoc;
pub mod breaker;
pub mod clock;
pub mod contemplation;
pub mod gateway;
pub mod mempalace;
pub mod personality;
pub mod text;

verus! {

} // verus!
