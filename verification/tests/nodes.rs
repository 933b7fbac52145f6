use k8s_job_dispatcher::guarded::is_precondition_failure;
use k8s_job_dispatcher::json::escape_pointer;
use k8s_job_dispatcher::labels::StringMap;
use k8s_job_dispatcher::nodes::{
    handler_verdict, node_is_satisfied, node_ready_condition, served_handlers, shared_label_after,
    HandlerVerdict, InstanceMarker, NodeFacts, NodeLabelling, ResultKeys, SharedLabel,
    DEFAULT_PENDING_LABEL_VALUE, STATE_FAILED,
};
use k8s_job_dispatcher::objects::{ApiError, Condition, Node, NodeInfo, NodeStatus, Taint};
use k8s_job_dispatcher::writes::{describe_updates, partition_taints, result_patch_ops};

const SHARED_KEY: &str = "example.com/ready";
const MARKER_PREFIX: &str = "deployer.example.com";

fn labelling(instance: Option<&str>) -> NodeLabelling {
    NodeLabelling {
        key: SHARED_KEY.to_string(),
        pending_value: DEFAULT_PENDING_LABEL_VALUE.to_string(),
        instance: Some(InstanceMarker::new(MARKER_PREFIX, instance)),
    }
}

fn marker(instance: Option<&str>) -> String {
    InstanceMarker::new(MARKER_PREFIX, instance)
        .key()
        .to_string()
}

fn map(pairs: &[(&str, &str)]) -> StringMap {
    let mut map = StringMap::new();
    for (key, value) in pairs {
        map.insert(key.to_string(), value.to_string());
    }
    map
}

fn node_serving(handlers: &[&str]) -> Node {
    Node {
        status: Some(NodeStatus {
            runtime_handlers: Some(handlers.iter().map(|name| Some(name.to_string())).collect()),
            ..Default::default()
        }),
        ..Default::default()
    }
}

fn expected(handlers: &[&str]) -> Vec<String> {
    handlers.iter().map(|h| h.to_string()).collect()
}

fn node_labelled(labels: &[(&str, &str)], handlers: Option<&[&str]>) -> Node {
    let mut node = match handlers {
        Some(handlers) => node_serving(handlers),
        None => Node::default(),
    };
    node.labels = Some(map(labels));
    node
}

fn satisfied(node: &Node, require: &[&str]) -> bool {
    node_is_satisfied(
        Some(&labelling(None)),
        Some("true"),
        &expected(require),
        node,
    )
}

#[test]
fn a_node_showing_a_finished_run_is_satisfied() {
    let node = node_labelled(
        &[(SHARED_KEY, "true"), (&marker(None), "true")],
        Some(&["special"]),
    );

    assert!(satisfied(&node, &["special"]));
    assert!(satisfied(&node, &[]));
}

#[test]
fn a_claimed_or_unlabelled_node_is_not() {
    let pending = DEFAULT_PENDING_LABEL_VALUE;
    let own = marker(None);
    for labels in [
        vec![],
        vec![(SHARED_KEY, "true")],
        vec![(SHARED_KEY, pending), (own.as_str(), pending)],
        // One instance is done here, this one has not started.
        vec![(SHARED_KEY, "true"), ("deployer.example.com/other", "true")],
    ] {
        let node = node_labelled(&labels, Some(&["special"]));
        assert!(!satisfied(&node, &["special"]), "{labels:?}");
    }
}

#[test]
fn a_labelled_node_serving_nothing_is_not_satisfied() {
    // A host rebuilt under a Node object that kept its labels.
    let node = node_labelled(
        &[(SHARED_KEY, "true"), (&marker(None), "true")],
        Some(&["runc"]),
    );

    assert!(!satisfied(&node, &["special"]));
}

#[test]
fn a_node_that_cannot_answer_is_taken_at_its_label() {
    let node = node_labelled(&[(SHARED_KEY, "true"), (&marker(None), "true")], None);

    assert!(satisfied(&node, &["special"]));
}

#[test]
fn a_claimed_node_is_not_satisfied_whatever_a_run_finishes_with() {
    let pending = DEFAULT_PENDING_LABEL_VALUE;
    let own = marker(None);
    let node = node_labelled(
        &[(SHARED_KEY, pending), (own.as_str(), pending)],
        Some(&["special"]),
    );
    for finished in [pending, "true"] {
        assert!(!node_is_satisfied(
            Some(&labelling(None)),
            Some(finished),
            &expected(&["special"]),
            &node
        ));
    }
}

#[test]
fn nothing_is_satisfied_without_a_label_to_read() {
    let node = node_labelled(&[(SHARED_KEY, "true")], Some(&["special"]));

    assert!(!node_is_satisfied(None, Some("true"), &[], &node));
    assert!(!node_is_satisfied(Some(&labelling(None)), None, &[], &node));
}

#[test]
fn one_expected_handler_is_enough() {
    let node = node_serving(&["runc", "special"]);
    assert_eq!(
        handler_verdict(
            &expected(&["special", "special-cc"]),
            served_handlers(&node).as_deref()
        ),
        HandlerVerdict::Serving {
            serving: vec!["special".to_string()],
            missing: vec!["special-cc".to_string()],
        }
    );
}

#[test]
fn no_expected_handler_is_a_runtime_that_ignored_us() {
    let node = node_serving(&["runc"]);
    assert_eq!(
        handler_verdict(&expected(&["special"]), served_handlers(&node).as_deref()),
        HandlerVerdict::NotServing
    );
}

#[test]
fn a_node_that_cannot_answer_never_fails_a_run() {
    assert_eq!(served_handlers(&Node::default()), None);
    assert_eq!(
        handler_verdict(&expected(&["special"]), None),
        HandlerVerdict::Unanswerable
    );
}

#[test]
fn an_empty_list_is_an_answer() {
    assert_eq!(served_handlers(&node_serving(&[])), Some(Vec::new()));
    assert_eq!(
        handler_verdict(
            &expected(&["special"]),
            served_handlers(&node_serving(&[])).as_deref()
        ),
        HandlerVerdict::NotServing
    );
}

#[test]
fn a_handler_without_a_name_is_not_reported() {
    let mut node = node_serving(&["runc"]);
    if let Some(status) = node.status.as_mut() {
        status.runtime_handlers = Some(vec![None, Some("runc".to_string()), None]);
    }
    assert_eq!(served_handlers(&node), Some(vec!["runc".to_string()]));
}

#[test]
fn an_instance_is_named_after_its_suffix() {
    assert_eq!(marker(None), "deployer.example.com/default");
    assert_eq!(marker(Some("dev")), "deployer.example.com/dev");
}

#[test]
fn a_marker_prefix_is_normalized() {
    assert_eq!(
        InstanceMarker::new("deployer.example.com/", Some("dev")).key(),
        "deployer.example.com/dev"
    );
    assert_eq!(
        InstanceMarker::new(MARKER_PREFIX, Some("  ")).key(),
        "deployer.example.com/default"
    );
}

#[test]
fn a_marker_prefix_loses_every_trailing_slash() {
    assert_eq!(
        InstanceMarker::new("\u{2003} a.b// \n", Some(" x ")).key(),
        "a.b/x"
    );
}

#[test]
fn only_keys_under_the_prefix_are_markers() {
    let instance = InstanceMarker::new(MARKER_PREFIX, None);

    assert!(instance.is_marker("deployer.example.com/prod"));
    assert!(!instance.is_marker("deployer.example.com"));
    assert!(!instance.is_marker("deployer.example.com.evil/prod"));
    assert!(!instance.is_marker("kubernetes.io/hostname"));
}

#[test]
fn only_another_instances_mark_counts() {
    let labelling = labelling(Some("dev"));
    let ours = marker(Some("dev"));
    let mark = |keys: &[&str]| -> StringMap {
        let mut map = StringMap::new();
        for key in keys {
            map.insert(key.to_string(), "true".to_string());
        }
        map
    };

    assert_eq!(
        shared_label_after(&mark(&[&ours]), &labelling),
        SharedLabel::Remove
    );
    assert_eq!(
        shared_label_after(
            &mark(&[&ours, SHARED_KEY, "kubernetes.io/hostname"]),
            &labelling
        ),
        SharedLabel::Remove,
        "neither the shared label nor an unrelated one is another instance's mark"
    );
    assert_eq!(
        shared_label_after(&mark(&[&ours, &marker(None)]), &labelling),
        SharedLabel::Keep
    );
    assert_eq!(
        shared_label_after(&mark(&[&marker(Some("prod"))]), &labelling),
        SharedLabel::Keep
    );
}

#[test]
fn a_single_instance_owns_the_shared_label_outright() {
    let labelling = NodeLabelling {
        key: SHARED_KEY.to_string(),
        pending_value: DEFAULT_PENDING_LABEL_VALUE.to_string(),
        instance: None,
    };
    let labels = map(&[(SHARED_KEY, "true"), (&marker(Some("prod")), "true")]);

    assert_eq!(shared_label_after(&labels, &labelling), SharedLabel::Remove);
    assert_eq!(labelling.keys(), vec![SHARED_KEY]);
}

#[test]
fn unfinished_instances_hold_the_key_without_the_promise() {
    let labelling = labelling(Some("dev"));
    let ours = marker(Some("dev"));
    let labels = map(&[
        (&ours, "true"),
        (&marker(None), DEFAULT_PENDING_LABEL_VALUE),
    ]);

    assert_eq!(shared_label_after(&labels, &labelling), SharedLabel::Demote);

    let labels = map(&[
        (&marker(None), DEFAULT_PENDING_LABEL_VALUE),
        (&marker(Some("prod")), DEFAULT_PENDING_LABEL_VALUE),
    ]);

    assert_eq!(shared_label_after(&labels, &labelling), SharedLabel::Demote);
}

/// Whichever of the two is read first.
#[test]
fn a_serving_instance_outweighs_unfinished_ones() {
    let labelling = labelling(Some("dev"));
    let labels = map(&[
        (&marker(None), DEFAULT_PENDING_LABEL_VALUE),
        (&marker(Some("prod")), "true"),
    ]);

    assert_eq!(shared_label_after(&labels, &labelling), SharedLabel::Keep);
}

#[test]
fn a_custom_pending_value_is_still_a_claim() {
    let labelling = NodeLabelling {
        key: SHARED_KEY.to_string(),
        pending_value: "installing".to_string(),
        instance: Some(InstanceMarker::new(MARKER_PREFIX, Some("dev"))),
    };
    let labels = map(&[(&marker(None), "installing")]);

    assert_eq!(shared_label_after(&labels, &labelling), SharedLabel::Demote);
}

#[test]
fn a_label_key_is_escaped_for_a_json_pointer() {
    assert_eq!(escape_pointer(SHARED_KEY), "example.com~1ready");
    assert_eq!(escape_pointer("a~b/c"), "a~0b~1c");
}

#[test]
fn only_conflicts_are_retried() {
    let status = |code: u16| ApiError {
        code: Some(code),
        message: "Failure".to_string(),
    };

    assert!(is_precondition_failure(&status(409)));
    assert!(is_precondition_failure(&status(422)));
    assert!(!is_precondition_failure(&status(403)));
    assert!(!is_precondition_failure(&status(404)));
    // A request that got no answer is no conflict.
    assert!(!is_precondition_failure(&ApiError {
        code: None,
        message: "connection refused".to_string(),
    }));
}

fn taint(key: &str, effect: &str) -> Taint {
    Taint {
        key: key.to_string(),
        effect: effect.to_string(),
        value: None,
        time_added: None,
    }
}

fn keys(taints: &[Taint]) -> Vec<(String, String)> {
    taints
        .iter()
        .map(|t| (t.key.clone(), t.effect.clone()))
        .collect()
}

#[test]
fn taint_matchers_respect_the_effect() {
    let taints = vec![
        taint("example.com/startup", "NoSchedule"),
        taint("example.com/startup", "NoExecute"),
        taint("other", "NoSchedule"),
    ];

    let (retained, removed) = partition_taints(&taints, &["example.com/startup".to_string()]);
    assert_eq!(keys(&retained), vec![("other".into(), "NoSchedule".into())]);
    assert_eq!(removed.len(), 2);

    let (retained, removed) =
        partition_taints(&taints, &["example.com/startup:NoExecute".to_string()]);
    assert_eq!(removed, vec!["example.com/startup:NoExecute".to_string()]);
    assert_eq!(keys(&retained).len(), 2);
}

#[test]
fn unmatched_matchers_change_nothing() {
    let taints = vec![taint("other", "NoSchedule")];
    let (retained, removed) = partition_taints(&taints, &["example.com/startup".to_string()]);
    assert_eq!(keys(&retained), vec![("other".into(), "NoSchedule".into())]);
    assert!(removed.is_empty());
}

#[test]
fn a_matcher_without_a_key_is_for_no_taint() {
    let taints = vec![taint("", "NoSchedule"), taint("a", "NoExecute")];
    let (retained, removed) =
        partition_taints(&taints, &[" :NoSchedule".to_string(), " a : NoExecute ".to_string()]);
    assert_eq!(keys(&retained), vec![("".into(), "NoSchedule".into())]);
    assert_eq!(removed, vec!["a:NoExecute".to_string()]);
}

#[test]
fn facts_are_read_off_the_node() {
    let node = Node {
        name: Some("node-1".to_string()),
        status: Some(NodeStatus {
            node_info: Some(NodeInfo {
                container_runtime_version: "containerd://2.1.5".to_string(),
                ..Default::default()
            }),
            ..Default::default()
        }),
        ..Default::default()
    };

    let facts = NodeFacts::from_node(&node);
    assert_eq!(facts.name, "node-1");
    assert_eq!(
        facts.container_runtime_version.as_deref(),
        Some("containerd://2.1.5")
    );
}

#[test]
fn missing_facts_are_absent_not_empty() {
    let node = Node {
        name: Some("node-2".to_string()),
        status: Some(NodeStatus {
            node_info: Some(NodeInfo {
                container_runtime_version: String::new(),
                ..Default::default()
            }),
            ..Default::default()
        }),
        ..Default::default()
    };

    let facts = NodeFacts::from_node(&node);
    assert!(facts.container_runtime_version.is_none());
}

#[test]
fn ready_condition_is_picked_by_type() {
    let node = Node {
        status: Some(NodeStatus {
            conditions: Some(vec![
                Condition {
                    type_: "MemoryPressure".to_string(),
                    status: "False".to_string(),
                },
                Condition {
                    type_: "Ready".to_string(),
                    status: "True".to_string(),
                },
            ]),
            ..Default::default()
        }),
        ..Default::default()
    };

    assert_eq!(node_ready_condition(&node).as_deref(), Some("True"));
    assert_eq!(node_ready_condition(&Node::default()), None);
}

fn result_keys() -> ResultKeys {
    ResultKeys::with_prefix(MARKER_PREFIX)
}

fn failure_updates(keys: &ResultKeys, reason: &str) -> Vec<(String, Option<String>)> {
    vec![
        (keys.state.clone(), Some(STATE_FAILED.to_string())),
        (keys.error.clone(), Some(reason.to_string())),
        (
            keys.finished_at.clone(),
            Some("2026-01-01T00:00:00Z".into()),
        ),
    ]
}

fn value(text: &str) -> serde_json::Value {
    serde_json::from_str(text).expect("the text is JSON")
}

#[test]
fn a_recorded_failure_reason_is_not_said_twice() {
    let keys = result_keys();
    let said = describe_updates(&failure_updates(
        &keys,
        "load-kernel-modules exited 1: this node has no usable virtualization backend",
    ));

    assert!(
        said.contains("deployer.example.com/result=failed"),
        "{said}"
    );
    assert!(
        said.contains("deployer.example.com/error (written)"),
        "{said}"
    );
    assert!(!said.contains("virtualization backend"), "{said}");
}

#[test]
fn a_value_of_the_limit_is_still_said() {
    let forty = "é".repeat(40);
    let more = "é".repeat(41);
    let said = describe_updates(&[
        ("a".to_string(), Some(forty.clone())),
        ("b".to_string(), Some(more)),
        ("c".to_string(), None),
    ]);
    assert_eq!(said, format!("a={forty}, b (written), c (removed)"));
}

#[test]
fn a_result_splits_across_labels_and_annotations() {
    let keys = result_keys();
    let ops = result_patch_ops(
        "uid-1",
        "42",
        &keys,
        &StringMap::new(),
        &StringMap::new(),
        &failure_updates(&keys, "host-check exited 1"),
    )
    .expect("a node with no result recorded needs one written");

    assert_eq!(
        ops[0],
        value(r#"{"op": "test", "path": "/metadata/uid", "value": "uid-1"}"#)
    );
    assert_eq!(
        ops[1],
        value(r#"{"op": "test", "path": "/metadata/resourceVersion", "value": "42"}"#)
    );
    // Neither map exists yet.
    assert_eq!(
        ops[2],
        value(r#"{"op": "add", "path": "/metadata/labels", "value": {}}"#)
    );
    assert_eq!(
        ops[3],
        value(r#"{"op": "add", "path": "/metadata/annotations", "value": {}}"#)
    );
    assert_eq!(
        ops[4],
        value(
            r#"{
                "op": "add",
                "path": "/metadata/labels/deployer.example.com~1result",
                "value": "failed"
            }"#
        )
    );
    assert_eq!(
        ops[5],
        value(
            r#"{
                "op": "add",
                "path": "/metadata/annotations/deployer.example.com~1error",
                "value": "host-check exited 1"
            }"#
        )
    );
}

#[test]
fn an_existing_labels_map_is_not_recreated() {
    let keys = result_keys();
    let ops = result_patch_ops(
        "uid-1",
        "42",
        &keys,
        &map(&[("kubernetes.io/hostname", "worker-2")]),
        &StringMap::new(),
        &failure_updates(&keys, "host-check exited 1"),
    )
    .expect("a node with no result recorded needs one written");

    assert!(
        !ops.iter()
            .any(|op| op["path"] == "/metadata/labels" && op["op"] == "add"),
        "recreating the map would drop the labels already on the node: {ops:?}"
    );
}

#[test]
fn an_existing_annotations_map_is_not_recreated() {
    let keys = result_keys();
    let ops = result_patch_ops(
        "uid-1",
        "42",
        &keys,
        &StringMap::new(),
        &map(&[("something.else/key", "value")]),
        &failure_updates(&keys, "host-check exited 1"),
    )
    .expect("a node with no result recorded needs one written");

    assert!(
        !ops.iter()
            .any(|op| op["path"] == "/metadata/annotations" && op["op"] == "add"),
        "recreating the map would drop the annotations already on the node: {ops:?}"
    );
}

#[test]
fn a_node_already_saying_this_is_left_alone() {
    let keys = result_keys();
    let recorded = "2026-01-01T00:00:00Z";
    let ops = result_patch_ops(
        "uid-1",
        "42",
        &keys,
        &map(&[(keys.state.as_str(), STATE_FAILED)]),
        &map(&[
            (keys.error.as_str(), "host-check exited 1"),
            (keys.finished_at.as_str(), recorded),
        ]),
        &[
            (keys.state.clone(), Some(STATE_FAILED.to_string())),
            (keys.error.clone(), Some("host-check exited 1".to_string())),
            (keys.finished_at.clone(), Some(recorded.to_string())),
        ],
    );

    assert!(ops.is_none());
}

#[test]
fn clearing_only_removes_what_is_there() {
    let keys = result_keys();
    let ops = result_patch_ops(
        "uid-1",
        "42",
        &keys,
        &map(&[(keys.state.as_str(), STATE_FAILED)]),
        &map(&[(keys.error.as_str(), "host-check exited 1")]),
        &[
            (keys.state.clone(), None),
            (keys.error.clone(), None),
            (keys.finished_at.clone(), None),
        ],
    )
    .expect("a node carrying an old result needs it cleared");

    let removals: Vec<_> = ops
        .iter()
        .filter(|op| op["op"] == "remove")
        .map(|op| op["path"].as_str().unwrap().to_string())
        .collect();
    assert_eq!(
        removals,
        vec![
            "/metadata/labels/deployer.example.com~1result",
            "/metadata/annotations/deployer.example.com~1error",
        ]
    );
}

#[test]
fn the_result_keys_share_the_tracking_prefix() {
    let keys = ResultKeys::with_prefix("kata-deploy-job-dispatcher/");

    assert_eq!(keys.state, "kata-deploy-job-dispatcher/result");
    assert_eq!(keys.error, "kata-deploy-job-dispatcher/error");
    assert_eq!(keys.finished_at, "kata-deploy-job-dispatcher/finished-at");
}

#[test]
fn a_node_with_nothing_to_clear_is_not_patched() {
    let keys = result_keys();
    let ops = result_patch_ops(
        "uid-1",
        "42",
        &keys,
        &StringMap::new(),
        &StringMap::new(),
        &[
            (keys.state.clone(), None),
            (keys.error.clone(), None),
            (keys.finished_at.clone(), None),
        ],
    );

    assert!(ops.is_none());
}
