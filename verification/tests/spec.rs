//! Pod specs: what is read, and what is not one.
use lex_k8s::spec::{ContainerKind, PodSpec, SpecError};

#[test]
fn a_whole_pod_object_and_a_bare_spec_both_parse() {
    let bare = r#"{"containers":[{"name":"app","image":"nginx:1.27"}]}"#;
    let whole = r#"{"apiVersion":"v1","kind":"Pod","metadata":{"name":"x"},
                    "spec":{"containers":[{"name":"app","image":"nginx:1.27"}]}}"#;
    assert_eq!(PodSpec::from_json(bare).unwrap(), PodSpec::from_json(whole).unwrap());
}

#[test]
fn a_document_without_containers_is_not_a_pod_spec() {
    for not_a_pod in [
        r#"{}"#,
        r#"[]"#,
        r#"{"apiVersion":"v1","kind":"Pod","metadata":{"name":"x"}}"#,
        r#"{"apiVersion":"v1","kind":"ConfigMap","data":{"a":"b"}}"#,
    ] {
        assert_eq!(
            PodSpec::from_json(not_a_pod),
            Err(SpecError::NotAPodSpec),
            "{not_a_pod} must not read as a pod with nothing in it"
        );
    }
    assert!(PodSpec::from_json(r#"{"containers":[]}"#).is_ok());
}

#[test]
fn every_authority_field_is_actually_read() {
    let p = PodSpec::from_json(
        r#"{"hostNetwork":true,"hostPID":true,"hostIPC":true,
            "serviceAccountName":"ci",
            "containers":[{"name":"app","image":"nginx",
              "securityContext":{"allowPrivilegeEscalation":true,
                "readOnlyRootFilesystem":false,
                "capabilities":{"add":["NET_ADMIN"]}},
              "volumeMounts":[{"name":"h","mountPath":"/h","readOnly":true}],
              "envFrom":[{"secretRef":{"name":"bulk"}}]}],
            "initContainers":[{"name":"setup","image":"busybox"}],
            "ephemeralContainers":[{"name":"dbg","image":"busybox"}],
            "volumes":[{"name":"h","hostPath":{"path":"/var","type":"Directory"}}],
            "securityContext":{"runAsNonRoot":true}}"#,
    )
    .unwrap();

    assert!(p.host_network, "hostNetwork");
    assert!(p.host_pid, "hostPID — camelCase would spell this hostPid");
    assert!(p.host_ipc, "hostIPC — likewise");
    assert_eq!(p.service_account_name, "ci");
    assert_eq!(p.init_containers.len(), 1, "initContainers");
    assert_eq!(p.ephemeral_containers.len(), 1, "ephemeralContainers");
    assert_eq!(p.volumes[0].host_path.as_ref().unwrap().path, "/var");
    assert_eq!(p.security_context.run_as_non_root, Some(true));

    let c = &p.containers[0];
    assert_eq!(c.security_context.allow_privilege_escalation, Some(true));
    assert_eq!(c.security_context.capabilities.add, ["NET_ADMIN"]);
    assert_eq!(c.volume_mounts[0].read_only, Some(true));
    assert_eq!(c.env_from[0].secret_ref.as_ref().unwrap().name, "bulk");
}

#[test]
fn unknown_fields_are_ignored_not_rejected() {
    let p = PodSpec::from_json(
        r#"{"containers":[{"name":"app","image":"nginx","someFutureField":{"a":1}}],
            "schedulerName":"custom","someOtherFutureField":[1,2,3]}"#,
    )
    .unwrap();
    assert_eq!(p.containers.len(), 1);
}

#[test]
fn a_sidecar_is_an_init_container_that_never_stops() {
    let p = PodSpec::from_json(
        r#"{"containers":[{"name":"app","image":"nginx"}],
            "initContainers":[
              {"name":"setup","image":"busybox"},
              {"name":"proxy","image":"envoy","restartPolicy":"Always"}
            ],
            "ephemeralContainers":[{"name":"debug","image":"busybox"}]}"#,
    )
    .unwrap();

    let kinds: Vec<_> = p.all_containers().iter().map(|(k, c)| (*k, c.name.clone())).collect();
    assert_eq!(
        kinds,
        vec![
            (ContainerKind::Init, "setup".to_string()),
            (ContainerKind::Sidecar, "proxy".to_string()),
            (ContainerKind::App, "app".to_string()),
            (ContainerKind::Ephemeral, "debug".to_string()),
        ],
        "every container contributes authority, in the order it gains it"
    );
}

#[test]
fn malformed_input_never_panics() {
    for case in [
        "",
        "{",
        "null",
        "3",
        r#""a string""#,
        r#"{"containers":null}"#,
        r#"{"containers":"not a list"}"#,
        r#"{"containers":[{}]}"#,
        r#"{"containers":[{"securityContext":{"capabilities":{"add":null}}}]}"#,
        r#"{"spec":{"spec":{"containers":[]}}}"#,
    ] {
        let _ = PodSpec::from_json(case);
    }
}

#[test]
fn the_first_member_that_does_not_fit_is_complained_of() {
    let of = |src: &str| PodSpec::from_json(src).unwrap_err().to_text();
    assert_eq!(
        of(r#"{"containers": 3, "hostNetwork": "x"}"#),
        "spec is not valid JSON: invalid type: integer `3`, expected a sequence"
    );
    assert_eq!(
        of(r#"{"containers": [], "hostNetwork": "x", "volumes": 3}"#),
        "spec is not valid JSON: invalid type: string \"x\", expected a boolean"
    );
    assert_eq!(
        of(r#"{"containers": [{"image": 3, "name": true}], "hostNetwork": "x"}"#),
        "spec is not valid JSON: invalid type: integer `3`, expected a string"
    );
}
