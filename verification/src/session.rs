//! A client's session.

use vstd::prelude::*;
use std::rc::Rc;
use router::Router;

verus! {

/// `router::Router`, which maps a request to its handler. Nothing is known
/// of what it holds.
#[verifier::external_type_specification]
#[verifier::external_body]
pub struct ExRouter(Router);

/// The state of one connected client: the router that it shares with the
/// other sessions.
pub struct Session {
    router: Rc<Router>,
}

} // verus!
