//! A validating admission wall for Kubernetes.
//!
//! A pod compiles to typed effect rows, each row carries the [`Grant`] that it demands, and their
//! join is what the grant of the pod's namespace has to cover. That compiler is a pure function of
//! a spec and a cluster snapshot; around it stand the walls that decide an admission, the wire
//! format of the webhook, the manifests that grant, and the ledger that witnesses every decision.
//!
//! Nothing here does I/O. What a cluster holds, what a file says and what time it is are inputs.
pub mod admission;
pub mod audit;
pub mod canonical;
pub mod cli;
pub mod cluster;
pub mod cost;
pub mod digest;
pub mod effect;
pub mod facet;
pub mod grant;
pub mod json;
pub mod ledger;
pub mod manifest;
pub mod map;
pub mod model;
pub mod order;
pub mod pod;
pub mod review;
pub mod scan;
pub mod serve;
pub mod spec;
pub mod text;
pub mod trust;

pub use crate::admission::{
    admit_str, AdmissionError, AdmissionEvent, Decision, Refusal, RequestMeta, Verdict, Wall,
};
pub use crate::cluster::{ClusterSnapshot, EgressPolicy, RbacRule};
pub use crate::cost::{CostError, PodReservation, PriceList, Reservation, SpendReport, Undeclared};
pub use crate::effect::{Effect, ImageDoubt, Reach, SecretVia, Source};
pub use crate::facet::{Denial, PodFacet};
pub use crate::grant::{Grant, Level, Reversibility};
pub use crate::ledger::{reconcile, Ledger, LedgerEvent, Reconciliation};
pub use crate::manifest::{narrow, pod_facet, LexManifest, ManifestReadError};
pub use crate::pod::{compile, compile_str, EffectRow, PodEffects};
pub use crate::review::{respond, AdmissionRequest, AdmissionReview, ReviewError};
pub use crate::spec::{Container, ContainerKind, PodSpec, ResourceList, Resources, SpecError};
pub use crate::trust::{Keyring, Standing, Submitter, TrustError};
