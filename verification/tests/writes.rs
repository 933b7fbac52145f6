use k8s_job_dispatcher::guarded::{GuardedWrite, Intent, WriteStep};
use k8s_job_dispatcher::labels::StringMap;
use k8s_job_dispatcher::node_ops::{ensure_uid, NodeOps, NodeStep};
use k8s_job_dispatcher::nodes::{InstanceMarker, NodeLabelling};
use k8s_job_dispatcher::objects::{ApiError, Condition, Node, NodeStatus, Taint};
use k8s_job_dispatcher::waits::{
    is_below, kubelet_runtime_request_timeout, verify_handlers, wait_till_ready,
    warn_on_low_kubelet_timeout, KubeletTimeout, LabelWatch, WaitStep, WatchStep,
};
use k8s_job_dispatcher::writes::{
    claim_patch, demote_updates, finished_updates, label_patch, release_updates, taint_patch,
};

const KEY: &str = "example.com/ready";

fn labelling(instance: Option<&str>) -> NodeLabelling {
    NodeLabelling {
        key: KEY.to_string(),
        pending_value: "false".to_string(),
        instance: instance.map(|name| InstanceMarker::new("deployer.example.com", Some(name))),
    }
}

fn map(pairs: &[(&str, &str)]) -> StringMap {
    let mut map = StringMap::new();
    for (key, value) in pairs {
        map.insert(key.to_string(), value.to_string());
    }
    map
}

fn labelled(pairs: &[(&str, &str)]) -> Node {
    Node {
        name: Some("w".to_string()),
        uid: Some("u".to_string()),
        resource_version: Some("7".to_string()),
        labels: Some(map(pairs)),
        ..Default::default()
    }
}

fn error(code: u16) -> ApiError {
    ApiError {
        code: Some(code),
        message: format!("status {code}"),
    }
}

fn value(text: &str) -> serde_json::Value {
    serde_json::from_str(text).expect("the text is JSON")
}

fn written(patch: &json_patch::Patch) -> serde_json::Value {
    serde_json::to_value(patch).expect("a patch can be written")
}

fn update(key: &str, value: Option<&str>) -> (String, Option<String>) {
    (key.to_string(), value.map(str::to_string))
}

#[test]
fn a_label_patch_tests_before_it_writes() {
    let patch = label_patch("u", "7", &[update("a/b", Some("x")), update("c~d", None)]).unwrap();
    assert_eq!(
        written(&patch),
        value(
            r#"[
                {"op": "test", "path": "/metadata/uid", "value": "u"},
                {"op": "test", "path": "/metadata/resourceVersion", "value": "7"},
                {"op": "add", "path": "/metadata/labels/a~1b", "value": "x"},
                {"op": "remove", "path": "/metadata/labels/c~0d"}
            ]"#
        )
    );
}

#[test]
fn a_patch_changes_only_the_node_it_was_read_from() {
    let patch = label_patch("u", "7", &[update(KEY, Some("true"))]).unwrap();
    let node = |uid: &str, version: &str| {
        value(&format!(
            r#"{{"metadata": {{"uid": "{uid}", "resourceVersion": "{version}", "labels": {{}}}}}}"#
        ))
    };

    let mut same = node("u", "7");
    json_patch::patch(&mut same, &patch).expect("nothing moved on");
    assert_eq!(same["metadata"]["labels"][KEY], "true");

    let mut moved = node("u", "8");
    assert!(json_patch::patch(&mut moved, &patch).is_err());
    let mut other = node("v", "7");
    assert!(json_patch::patch(&mut other, &patch).is_err());
}

#[test]
fn a_claim_writes_only_what_is_missing() {
    let ours = labelling(Some("dev"));
    let patch = claim_patch("u", "7", &map(&[(KEY, "true")]), &ours)
        .expect("the mark is missing")
        .unwrap();
    assert_eq!(
        written(&patch)[2],
        value(
            r#"{"op": "add", "path": "/metadata/labels/deployer.example.com~1dev",
                "value": "false"}"#
        )
    );
    assert_eq!(written(&patch).as_array().map(Vec::len), Some(3));

    let whole = claim_patch("u", "7", &StringMap::new(), &ours)
        .expect("both are missing")
        .unwrap();
    assert_eq!(
        written(&whole)[2],
        value(
            r#"{"op": "add", "path": "/metadata/labels",
                "value": {"example.com/ready": "false", "deployer.example.com/dev": "false"}}"#
        )
    );

    let both = map(&[(KEY, "true"), ("deployer.example.com/dev", "x")]);
    assert!(claim_patch("u", "7", &both, &ours).is_none());
}

#[test]
fn demotion_takes_no_key_away() {
    let ours = labelling(Some("dev"));
    let mark = "deployer.example.com/dev";
    assert_eq!(
        demote_updates(&map(&[(KEY, "true"), (mark, "true")]), &ours),
        vec![update(mark, Some("false")), update(KEY, Some("false"))]
    );
    // Another instance is serving.
    assert_eq!(
        demote_updates(
            &map(&[(KEY, "true"), (mark, "true"), ("deployer.example.com/prod", "true")]),
            &ours
        ),
        vec![update(mark, Some("false"))]
    );
    // A node that never had the label is left alone.
    assert_eq!(demote_updates(&StringMap::new(), &ours), vec![]);
    assert_eq!(demote_updates(&map(&[(KEY, "false")]), &labelling(None)), vec![]);
}

#[test]
fn the_second_of_two_instances_takes_the_shared_key() {
    let dev = labelling(Some("dev"));
    let prod = labelling(Some("prod"));
    let first = release_updates(
        &map(&[
            (KEY, "true"),
            ("deployer.example.com/dev", "true"),
            ("deployer.example.com/prod", "false"),
        ]),
        &dev,
        &[],
    );
    assert_eq!(
        first,
        vec![
            update("deployer.example.com/dev", None),
            update(KEY, Some("false")),
        ]
    );
    let second = release_updates(
        &map(&[(KEY, "false"), ("deployer.example.com/prod", "false")]),
        &prod,
        &[],
    );
    assert_eq!(
        second,
        vec![
            update("deployer.example.com/prod", None),
            update(KEY, None),
        ]
    );
}

#[test]
fn extra_labels_come_and_go_with_the_label() {
    let extra = [
        ("example.com/mode".to_string(), "ppcie".to_string()),
        ("example.com/tier".to_string(), "a=b".to_string()),
    ];
    assert_eq!(
        finished_updates(&labelling(Some("dev")), "true", &extra),
        vec![
            update(KEY, Some("true")),
            update("deployer.example.com/dev", Some("true")),
            update("example.com/mode", Some("ppcie")),
            update("example.com/tier", Some("a=b")),
        ]
    );
    assert_eq!(
        release_updates(
            &map(&[(KEY, "true"), ("example.com/mode", "other")]),
            &labelling(None),
            &extra
        ),
        vec![update(KEY, None), update("example.com/mode", None)]
    );
}

#[test]
fn taints_are_written_back_whole() {
    let taint = Taint {
        key: "k".to_string(),
        effect: "NoExecute".to_string(),
        value: Some("v".to_string()),
        time_added: Some("2026-01-01T00:00:00Z".to_string()),
    };
    let patch = taint_patch("u", "7", &[taint]).unwrap();
    assert_eq!(
        written(&patch)[2],
        value(
            r#"{"op": "replace", "path": "/spec/taints", "value": [
                {"key": "k", "effect": "NoExecute", "value": "v",
                 "timeAdded": "2026-01-01T00:00:00Z"}]}"#
        )
    );
}

#[test]
fn a_write_starts_over_when_the_node_moved_on() {
    let mut write = GuardedWrite::new("w", "u", Intent::Demote { labelling: labelling(None) });
    for _ in 0..4 {
        assert!(matches!(
            write.read(Ok(labelled(&[(KEY, "true")]))),
            WriteStep::Patch(_)
        ));
        assert!(matches!(write.patched(Err(error(422))), WriteStep::Read));
    }
    assert!(matches!(
        write.read(Ok(labelled(&[(KEY, "true")]))),
        WriteStep::Patch(_)
    ));
    match write.patched(Err(error(409))) {
        WriteStep::Fail(why) => assert_eq!(
            why,
            "gave up rewriting the labels on node w after 5 attempts: something keeps changing \
             them concurrently"
        ),
        other => panic!("{other:?}"),
    }
}

#[test]
fn a_write_that_is_not_needed_is_not_made() {
    let mut write = GuardedWrite::new("w", "u", Intent::Claim { labelling: labelling(None) });
    assert!(matches!(
        write.read(Ok(labelled(&[(KEY, "anything")]))),
        WriteStep::Done
    ));
    let mut write = GuardedWrite::new(
        "w",
        "u",
        Intent::LiftTaints { matchers: vec!["k".to_string()] },
    );
    assert!(matches!(write.read(Ok(labelled(&[]))), WriteStep::Done));
}

fn failure(step: WriteStep) -> String {
    match step {
        WriteStep::Fail(why) => why,
        other => panic!("{other:?}"),
    }
}

#[test]
fn a_write_never_touches_another_machine() {
    let intents = || {
        [
            (
                Intent::Claim { labelling: labelling(None) },
                "node w changed identity before it could be claimed",
            ),
            (
                Intent::Record {
                    keys: NodeOps::new("p").result_keys,
                    updates: vec![update("p/result", Some("failed"))],
                },
                "node w changed identity before its result could be recorded",
            ),
            (
                Intent::LiftTaints { matchers: vec![] },
                "node w changed identity before its taints could be removed",
            ),
            (
                Intent::Release { labelling: labelling(None), extra: vec![] },
                "node w changed identity before its labels could be rewritten",
            ),
        ]
    };
    for (intent, why) in intents() {
        let mut write = GuardedWrite::new("w", "someone-else", intent);
        assert_eq!(failure(write.read(Ok(labelled(&[(KEY, "true")])))), why);
    }
}

#[test]
fn a_failed_write_says_what_it_was() {
    let mut write = GuardedWrite::new("w", "u", Intent::Claim { labelling: labelling(None) });
    assert_eq!(
        failure(write.read(Err(error(500)))),
        "could not read node w to claim it: failed to get node w: status 500"
    );
    write.read(Ok(labelled(&[])));
    assert_eq!(
        failure(write.patched(Err(error(403)))),
        "could not claim node w; refusing to mutate a host that a later cleanup could not \
         discover: status 403"
    );

    let mut write = GuardedWrite::new(
        "w",
        "u",
        Intent::Finish {
            labelling: labelling(None),
            value: "true".to_string(),
            extra: vec![],
        },
    );
    write.read(Ok(labelled(&[])));
    assert_eq!(write.about(), "example.com/ready=true");
    assert_eq!(
        failure(write.patched(Err(error(403)))),
        "failed to write labels example.com/ready=true on node w: status 403"
    );
    assert!(matches!(write.patched(Ok(())), WriteStep::Done));
}

#[test]
fn taints_are_lifted_by_a_guarded_write() {
    let mut tainted = labelled(&[]);
    tainted.taints = Some(vec![
        Taint {
            key: "k".to_string(),
            effect: "NoSchedule".to_string(),
            ..Default::default()
        },
        Taint {
            key: "other".to_string(),
            effect: "NoSchedule".to_string(),
            ..Default::default()
        },
    ]);
    let mut write = GuardedWrite::new(
        "w",
        "u",
        Intent::LiftTaints { matchers: vec!["k".to_string()] },
    );
    match write.read(Ok(tainted)) {
        WriteStep::Patch(patch) => assert_eq!(
            written(&patch)[2]["value"],
            value(r#"[{"key": "other", "effect": "NoSchedule"}]"#)
        ),
        other => panic!("{other:?}"),
    }
    assert_eq!(write.about(), "k:NoSchedule");
    assert_eq!(
        failure(write.patched(Err(error(403)))),
        "failed to patch taints on node w: status 403"
    );
}

#[test]
fn a_result_is_recorded_only_of_a_known_machine() {
    let mut ops = NodeOps::new("p");
    assert!(ops.record_failure(None, "why", "t").is_none());
    match ops.record_failure(Some("u"), "why", "t") {
        Some(Intent::Record { updates, .. }) => assert_eq!(
            updates,
            vec![
                update("p/result", Some("failed")),
                update("p/error", Some("why")),
                update("p/finished-at", Some("t")),
            ]
        ),
        other => panic!("{other:?}"),
    }
    match ops.record_success(Some("u"), "t") {
        Some(Intent::Record { updates, .. }) => assert_eq!(
            updates,
            vec![
                update("p/result", Some("succeeded")),
                update("p/error", None),
                update("p/finished-at", Some("t")),
            ]
        ),
        other => panic!("{other:?}"),
    }
    // A cleanup has taken away what a result would describe.
    ops.remove_label = true;
    match ops.record_success(Some("u"), "t") {
        Some(Intent::Record { keys, updates }) => {
            assert_eq!(
                updates,
                vec![
                    update("p/result", None),
                    update("p/error", None),
                    update("p/finished-at", None),
                ]
            );
            let mut write = GuardedWrite::new("w", "u", Intent::Record { keys, updates });
            assert!(matches!(write.read(Ok(labelled(&[]))), WriteStep::Done));
        }
        other => panic!("{other:?}"),
    }
}

#[test]
fn a_step_knows_what_it_writes() {
    let mut ops = NodeOps::new("p");
    assert!(ops.goal_of(NodeStep::Demote).is_none());
    assert!(ops.goal_of(NodeStep::EnsureUid).is_none());
    ops.labelling = Some(labelling(None));
    assert!(matches!(ops.goal_of(NodeStep::Demote), Some(Intent::Demote { .. })));
    assert!(ops.goal_of(NodeStep::LabelUntilStable).is_none());
    ops.label_value = Some("true".to_string());
    assert!(matches!(
        ops.goal_of(NodeStep::LabelUntilStable),
        Some(Intent::Finish { .. })
    ));
}

#[test]
fn a_name_is_checked_against_the_machine_behind_it() {
    assert!(ensure_uid("w", "u", Ok(labelled(&[]))).is_ok());
    assert_eq!(
        ensure_uid("w", "v", Ok(labelled(&[]))).unwrap_err(),
        "node w changed identity: expected UID v, found Some(\"u\")"
    );
    assert_eq!(
        ensure_uid("w", "v", Err(error(404))).unwrap_err(),
        "failed to get node w: status 404"
    );
}

fn watch() -> LabelWatch {
    LabelWatch::new("w", "u", finished_updates(&labelling(None), "true", &[]))
}

#[test]
fn labels_have_to_be_seen_to_hold() {
    let mut watch = watch();
    for _ in 0..5 {
        assert!(matches!(
            watch.observe(Ok(labelled(&[(KEY, "true")]))),
            WatchStep::Check
        ));
    }
    // The kubelet came back with its cached labels.
    assert!(matches!(watch.observe(Ok(labelled(&[]))), WatchStep::Apply));
    for _ in 0..5 {
        assert!(matches!(
            watch.observe(Ok(labelled(&[(KEY, "true")]))),
            WatchStep::Check
        ));
    }
    assert!(matches!(
        watch.observe(Ok(labelled(&[(KEY, "true")]))),
        WatchStep::Held
    ));
}

#[test]
fn labels_that_never_hold_fail_the_node() {
    let mut watch = watch();
    for _ in 0..11 {
        assert!(matches!(watch.observe(Err(error(500))), WatchStep::Apply));
    }
    match watch.observe(Ok(labelled(&[(KEY, "false")]))) {
        WatchStep::Fail(why) => assert_eq!(
            why,
            "node w did not hold example.com/ready=true for 6 consecutive checks over 12 \
             attempts; something on the node keeps removing them, and workloads would not be \
             selected there"
        ),
        other => panic!("{other:?}"),
    }
}

#[test]
fn labels_on_another_machine_are_no_confirmation() {
    let mut watch = LabelWatch::new("w", "v", finished_updates(&labelling(None), "true", &[]));
    assert!(matches!(
        watch.observe(Ok(labelled(&[(KEY, "true")]))),
        WatchStep::Apply
    ));
}

fn serving(handlers: Option<&[&str]>) -> Node {
    Node {
        status: Some(NodeStatus {
            runtime_handlers: handlers
                .map(|list| list.iter().map(|name| Some(name.to_string())).collect()),
            ..Default::default()
        }),
        ..Default::default()
    }
}

#[test]
fn a_node_is_given_time_to_serve_what_was_installed() {
    let required = ["a\"b".to_string(), "c".to_string()];
    assert!(matches!(
        verify_handlers("w", &required, 0, Ok(serving(Some(&["c"])))),
        WaitStep::Done
    ));
    assert!(matches!(
        verify_handlers("w", &required, 500, Ok(serving(None))),
        WaitStep::Done
    ));
    assert!(matches!(
        verify_handlers("w", &required, 119, Ok(serving(Some(&["x"])))),
        WaitStep::Again
    ));
    match verify_handlers("w", &required, 120, Ok(serving(Some(&["x"])))) {
        WaitStep::Fail(why) => assert!(
            why.starts_with("node w reports none of [\"a\\\"b\", \"c\"] among its runtime handlers 120s"),
            "{why}"
        ),
        other => panic!("{other:?}"),
    }
    assert!(matches!(
        verify_handlers("w", &required, 119, Err(error(500))),
        WaitStep::Again
    ));
    match verify_handlers("w", &required, 120, Err(error(500))) {
        WaitStep::Fail(why) => assert!(
            why.ends_with("read what was installed: failed to get node w: status 500"),
            "{why}"
        ),
        other => panic!("{other:?}"),
    }
    assert!(matches!(
        verify_handlers("w", &[], 500, Err(error(500))),
        WaitStep::Done
    ));
}

#[test]
fn a_node_is_given_time_to_be_ready() {
    let ready = |status: &str| Node {
        status: Some(NodeStatus {
            conditions: Some(vec![Condition {
                type_: "Ready".to_string(),
                status: status.to_string(),
            }]),
            ..Default::default()
        }),
        ..Default::default()
    };
    assert!(matches!(
        wait_till_ready("w", 30, 99, Ok(ready("True"))),
        WaitStep::Done
    ));
    assert!(matches!(
        wait_till_ready("w", 30, 29, Ok(ready("False"))),
        WaitStep::Again
    ));
    match wait_till_ready("w", 30, 30, Ok(ready("False"))) {
        WaitStep::Fail(why) => assert_eq!(
            why,
            "node w did not become Ready within 30s of its Job finishing (last seen: False); not \
             labelling it, so workloads are not sent to a node whose CRI runtime may still be \
             restarting"
        ),
        other => panic!("{other:?}"),
    }
    match wait_till_ready("w", 30, 30, Err(error(500))) {
        WaitStep::Fail(why) => assert!(why.contains("(last seen: Unknown)"), "{why}"),
        other => panic!("{other:?}"),
    }
}

#[test]
fn a_kubelets_timeout_is_read_either_way_it_is_spelled() {
    let read = |text: &str| kubelet_runtime_request_timeout(&value(text));
    assert_eq!(
        read(r#"{"kubeletconfig": {"runtimeRequestTimeout": "2m0s"}}"#).as_deref(),
        Some("2m0s")
    );
    assert_eq!(
        read(r#"{"kubeletConfig": {"runtimeRequestTimeout": "15m"}}"#).as_deref(),
        Some("15m")
    );
    // The first spelling counts where both are there.
    assert_eq!(
        read(r#"{"kubeletconfig": {}, "kubeletConfig": {"runtimeRequestTimeout": "15m"}}"#),
        None
    );
    assert_eq!(read(r#"{"kubeletconfig": {"runtimeRequestTimeout": 7}}"#), None);
    assert_eq!(read(r#"["kubeletconfig"]"#), None);
}

#[test]
fn a_low_kubelet_timeout_is_noticed() {
    let judge = |timeout: &str, threshold: u64| {
        let mut config = serde_json::Map::new();
        config.insert(
            "runtimeRequestTimeout".to_string(),
            serde_json::Value::String(timeout.to_string()),
        );
        let mut configz = serde_json::Map::new();
        configz.insert("kubeletconfig".to_string(), serde_json::Value::Object(config));
        warn_on_low_kubelet_timeout(&serde_json::Value::Object(configz), threshold)
    };
    assert!(matches!(
        judge("2m0s", 600),
        KubeletTimeout::Low { secs: 120, .. }
    ));
    assert!(matches!(
        judge("2m0s", 120),
        KubeletTimeout::Enough { secs: 120, .. }
    ));
    assert!(matches!(
        judge("1h59m59.999999999s", 7200),
        KubeletTimeout::Low { secs: 7199, .. }
    ));
    assert!(matches!(judge("soon", 1), KubeletTimeout::Unreadable { .. }));
    // Numbers have as many digits as they like, as long as a duration can hold what they
    // come to.
    assert!(matches!(
        judge("1000000000ms 1000000us", 1_000_001),
        KubeletTimeout::Enough { secs: 1_000_001, .. }
    ));
    assert!(matches!(
        judge("1000000000000000000ns500ms", 1_000_000_001),
        KubeletTimeout::Low { secs: 1_000_000_000, .. }
    ));
    assert!(matches!(
        judge("1 000 000 000 000 000 m 1s ", 60),
        KubeletTimeout::Enough { secs: 60_000_000_000_000_001, .. }
    ));
    assert!(matches!(
        judge("18446744073709551615s 999999999ns", 60),
        KubeletTimeout::Enough { secs: u64::MAX, .. }
    ));
    assert!(matches!(
        judge("18446744073709551614.5s 0.5s", 60),
        KubeletTimeout::Enough { secs: u64::MAX, .. }
    ));
    assert!(matches!(
        judge("1s 2parsecs", 60),
        KubeletTimeout::Unreadable { .. }
    ));
    assert!(matches!(
        judge("1s -", 60),
        KubeletTimeout::Unreadable { .. }
    ));
    assert!(matches!(judge("", 60), KubeletTimeout::Unreadable { .. }));
    // Here they come to more.
    for timeout in [
        "18446744073709551614.5s 1.5s",
        "18446744073709551615s 1000.00000000001ms",
        "18446744073709551615s 1s",
    ] {
        assert!(matches!(judge(timeout, 60), KubeletTimeout::TooLong { .. }));
    }
    assert!(matches!(
        judge("120000000000ns", 60),
        KubeletTimeout::Enough { secs: 120, .. }
    ));
    assert!(matches!(
        judge("18446744073709551615.5s", 60),
        KubeletTimeout::Enough { secs: u64::MAX, .. }
    ));
    assert!(matches!(
        judge("18446744073709551616s", 60),
        KubeletTimeout::Unreadable { .. }
    ));
    // The longest that Go prints.
    assert!(matches!(
        judge("2562047h47m16.854775807s", 60),
        KubeletTimeout::Enough { secs: 9_223_372_036, .. }
    ));
    assert!(matches!(
        judge("999999999999s 1s", 60),
        KubeletTimeout::Enough { secs: 1_000_000_000_000, .. }
    ));
    assert!(matches!(
        judge("18446744073709551615s 1000000000ns", 1),
        KubeletTimeout::TooLong { .. }
    ));
    assert!(matches!(
        warn_on_low_kubelet_timeout(&value("{}"), 1),
        KubeletTimeout::Unreported
    ));
    assert!(is_below((119, 999_999_999), 120));
    assert!(!is_below((120, 0), 120));
}
