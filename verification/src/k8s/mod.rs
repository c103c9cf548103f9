//! Traefik resources in Kubernetes: discovery of middlewares and ingress
//! routes, and IP blocking at the edge.
use vstd::prelude::*;

pub mod blocker;
pub mod edge;
pub mod inspector;

verus! {

/// A Kubernetes API client, carried through unopened.
#[verifier::external_type_specification]
#[verifier::external_body]
pub struct ExKubeClient(kube::Client);

} // verus!
