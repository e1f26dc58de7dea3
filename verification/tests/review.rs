//! Reviews: what is asked, and what is answered.
use lex_k8s::admission::{admit_str, Decision};
use lex_k8s::cluster::{ClusterSnapshot, EgressPolicy};
use lex_k8s::json::Writable;
use lex_k8s::manifest::{Budget, LexManifest, Manifest};
use lex_k8s::review::{cannot_run, respond, AdmissionRequest, AdmissionReview, ReviewError};

const REVIEW: &str = r#"{
  "apiVersion": "admission.k8s.io/v1",
  "kind": "AdmissionReview",
  "request": {
    "uid": "705ab4f5-6393-11e8-b7cc-42010a800002",
    "kind": { "group": "", "version": "v1", "kind": "Pod" },
    "resource": { "group": "", "version": "v1", "resource": "pods" },
    "namespace": "payments",
    "name": "",
    "operation": "CREATE",
    "userInfo": { "username": "system:serviceaccount:payments:deployer" },
    "object": {
      "apiVersion": "v1", "kind": "Pod",
      "metadata": { "generateName": "api-7d9f-", "namespace": "payments" },
      "spec": { "containers": [{ "name": "api",
        "image": "registry.internal/payments/api@sha256:aa",
        "env": [{ "name": "K", "valueFrom": {
          "secretKeyRef": { "name": "root-ca-key", "key": "k" } } }] }] }
    }
  }
}"#;

fn manifest() -> Manifest {
    let budget =
        Budget { wall_clock_secs: 1, max_commands: 1, max_money_cents: 0, max_api_calls: 1 };
    LexManifest::read(
        r#"{"spec":{"grant":{"egress":["postgres.payments.svc"],
            "secrets":["stripe-live-key"]}}}"#,
        budget,
    )
    .unwrap()
    .1
}

fn snapshot() -> ClusterSnapshot {
    ClusterSnapshot {
        egress: Some(EgressPolicy {
            policy_names: vec!["payments-egress".into()],
            cidrs: vec!["10.42.0.0/16".into()],
            ..Default::default()
        }),
        ..Default::default()
    }
}

fn decide(req: &AdmissionRequest) -> Decision {
    admit_str(
        &req.object_json(),
        &manifest(),
        "manifest-1",
        &snapshot(),
        &req.meta(),
        None,
        None,
    )
    .unwrap()
}

#[test]
fn a_real_review_reads_and_the_name_survives_generate_name() {
    let review = AdmissionReview::from_json(REVIEW).unwrap();
    let req = review.request().unwrap();
    assert_eq!(req.operation, "CREATE");
    let meta = req.meta();
    assert_eq!(meta.namespace, "payments");
    assert_eq!(meta.name, "api-7d9f-", "an unnamed pod is still traceable through generateName");
    assert_eq!(meta.signer.as_deref(), Some("system:serviceaccount:payments:deployer"));
}

#[test]
fn a_refusal_is_returned_as_kubernetes_shaped_causes() {
    let review = AdmissionReview::from_json(REVIEW).unwrap();
    let req = review.request().unwrap();
    let d = decide(req);
    assert!(!d.verdict.allowed());

    let out = respond(&req.uid, &d);
    let resp = out.response.unwrap();
    assert_eq!(resp.uid, req.uid, "the uid must echo, or the API server drops it");
    assert!(!resp.allowed);

    let status = resp.status.unwrap();
    assert_eq!(status.code, 403);
    assert!(status.message.contains("root-ca-key"));

    let causes = status.details.unwrap().causes;
    assert_eq!(causes.len(), 1);
    assert_eq!(causes[0].reason, "narrowing");
    assert!(causes[0].field.contains("containers[api]"));
    assert_eq!(
        causes[0].grant_allows,
        ["stripe-live-key"],
        "what the manifest does grant, as data rather than prose"
    );
}

#[test]
fn an_admission_carries_the_dimensions_nobody_declared_a_policy_for() {
    let review =
        AdmissionReview::from_json(&REVIEW.replace("root-ca-key", "stripe-live-key")).unwrap();
    let req = review.request().unwrap();
    let d = decide(req);
    assert!(d.verdict.allowed(), "{:?}", d.verdict);

    let resp = respond(&req.uid, &d).response.unwrap();
    assert!(resp.allowed);
    assert!(
        resp.warnings.iter().any(|w| w.contains("image provenance")),
        "an admitted pod still says what was not checked: {:?}",
        resp.warnings
    );
}

#[test]
fn a_wall_that_cannot_run_says_that_rather_than_deciding() {
    let out = cannot_run("uid-1", "the manifest's `pod` facet does not parse");
    let resp = out.response.unwrap();
    assert!(!resp.allowed, "failurePolicy: Fail would reject it anyway");
    let status = resp.status.unwrap();
    assert_eq!(status.code, 500, "not 403 — this is not a decision");
    assert!(status.message.contains("could not run"));
    assert!(status.details.is_none());
}

#[test]
fn a_document_that_is_not_a_request_is_refused_to_be_read() {
    for bad in [r#"{}"#, r#"[]"#, r#"{"response":{}}"#, "not json"] {
        assert!(AdmissionReview::from_json(bad).is_err(), "{bad}");
    }
}

#[test]
fn each_reason_not_to_read_is_its_own() {
    assert_eq!(AdmissionReview::from_json("{}"), Err(ReviewError::NotARequest));
    assert!(matches!(AdmissionReview::from_json("{"), Err(ReviewError::Json(_))));
    assert!(matches!(
        AdmissionReview::from_json(r#"{"request":{"uid":3}}"#),
        Err(ReviewError::Json(_))
    ));
    let empty = AdmissionReview::from_json(r#"{"request":null}"#).unwrap();
    assert_eq!(empty.request(), Err(ReviewError::NotARequest));
}

#[test]
fn nobody_authenticated_is_nobody() {
    let review = AdmissionReview::from_json(
        r#"{"request":{"uid":"u","name":"given","object":{"metadata":{"name":"other"}}}}"#,
    )
    .unwrap();
    let meta = review.request().unwrap().meta();
    assert_eq!(meta.signer, None);
    assert_eq!(meta.name, "given", "the request's own name comes first");
}

#[test]
fn an_answer_is_written_without_what_it_does_not_have() {
    let out = cannot_run("uid-1", "x");
    assert_eq!(
        out.to_json().to_text(),
        "{\"apiVersion\":\"admission.k8s.io/v1\",\"kind\":\"AdmissionReview\",\
         \"response\":{\"uid\":\"uid-1\",\"allowed\":false,\"status\":{\"code\":500,\
         \"message\":\"the lex-k8s admission wall could not run, so it did not decide: x\"}}}"
    );
}
