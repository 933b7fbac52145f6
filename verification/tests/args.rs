use k8s_job_dispatcher::args::{
    check_extra_label_flags, check_extra_label_keys, check_taint_flags, cleanup_args,
    cleanup_ownership_key, comma_separated, extra_labels_from_args, labelling_from_args,
    node_ops_from_args, resolve_namespace, slots, Args, FlagError, DEFAULT_TRACKING_LABEL_PREFIX,
};
use k8s_job_dispatcher::job::TrackingLabels;
use k8s_job_dispatcher::node_filter::SkippedNode;
use k8s_job_dispatcher::node_ops::{cleanup_ops, NodeStep};
use k8s_job_dispatcher::nodes::{InstanceMarker, ResultKeys, DEFAULT_PENDING_LABEL_VALUE};
use k8s_job_dispatcher::objects::Taint;
use k8s_job_dispatcher::selection::{describe_selectors, no_eligible_nodes, selector_passes};

/// The flags of a command line, each given as `--flag` or `--flag=value`.
fn try_parse_from(argv: &[&str]) -> Result<Args, FlagError> {
    let mut args = Args::new(String::new(), String::new());
    for arg in &argv[1..] {
        let (flag, value) = match arg.split_once('=') {
            Some((flag, value)) => (flag, value.to_string()),
            None => (*arg, String::new()),
        };
        let number = || value.parse::<u64>().expect("a number");
        match flag {
            "--job-template" => args.job_template = value,
            "--name-prefix" => args.name_prefix = value,
            "--node-selector" => args.node_selector.push(value),
            "--wait-for-nodes-secs" => args.wait_for_nodes_secs = number(),
            "--node-settle-secs" => args.node_settle_secs = number(),
            "--wait-node-ready-secs" => args.wait_node_ready_secs = number(),
            "--kubelet-timeout-warn-secs" => args.kubelet_timeout_warn_secs = number(),
            "--owner-job-name" => args.owner_job_name = Some(value),
            "--owner-job-from-pod" => args.owner_job_from_pod = Some(value),
            "--yield-to-live-run" => args.yield_to_live_run = true,
            "--skip-satisfied-nodes" => args.skip_satisfied_nodes = true,
            "--tracking-label-prefix" => args.tracking_label_prefix = value,
            "--node-label-key" => args.node_label_key = Some(value),
            "--node-label" => args.node_label = Some(value),
            "--extra-node-label" => args.extra_node_label.push(value),
            "--remove-node-label" => args.remove_node_label = true,
            "--claim-node-pending" => args.claim_node_pending = true,
            "--node-label-pending-value" => args.node_label_pending_value = value,
            "--instance-label-prefix" => args.instance_label_prefix = Some(value),
            "--multi-install-suffix" => args.multi_install_suffix = Some(value),
            "--require-node-handlers" => args.require_node_handlers = Some(value),
            "--remove-node-taints" => args.remove_node_taints = Some(value),
            _ => panic!("unknown flag {flag}"),
        }
    }
    args.check()?;
    Ok(args)
}

fn args_from(extra: &[&str]) -> Args {
    let mut argv = vec![
        "k8s-job-dispatcher",
        "--job-template=/etc/job/install-job.yaml",
        "--name-prefix=rollout-install",
    ];
    argv.extend_from_slice(extra);
    try_parse_from(&argv).expect("the flags hold together")
}

fn skipped_node(name: &str) -> SkippedNode {
    SkippedNode {
        name: name.to_string(),
        taint: Taint {
            key: "node-role.kubernetes.io/control-plane".to_string(),
            effect: "NoSchedule".to_string(),
            ..Default::default()
        },
    }
}

#[test]
fn no_selector_means_one_unfiltered_pass() {
    assert_eq!(selector_passes(&[]), vec![None]);
}

#[test]
fn one_selector_means_one_filtered_pass() {
    let selectors = vec!["kubernetes.io/os=linux".to_string()];
    assert_eq!(
        selector_passes(&selectors),
        vec![Some("kubernetes.io/os=linux")]
    );
}

#[test]
fn repeated_selectors_become_one_pass_each() {
    let selectors = vec![
        "feature.node.kubernetes.io/cpu-cpuid.VMX=true".to_string(),
        "feature.node.kubernetes.io/cpu-cpuid.SVM=true".to_string(),
    ];
    assert_eq!(
        selector_passes(&selectors),
        vec![
            Some("feature.node.kubernetes.io/cpu-cpuid.VMX=true"),
            Some("feature.node.kubernetes.io/cpu-cpuid.SVM=true"),
        ]
    );
}

#[test]
fn yielding_needs_an_owner_to_compare_against() {
    let base = [
        "k8s-job-dispatcher",
        "--job-template=/etc/job/install-job.yaml",
        "--name-prefix=rollout-install",
        "--yield-to-live-run",
    ];
    assert!(try_parse_from(&base).is_err());

    let mut named = base.to_vec();
    named.push("--owner-job-name=rollout-install-dispatcher");
    assert!(try_parse_from(&named).is_ok());

    let mut from_pod = base.to_vec();
    from_pod.push("--owner-job-from-pod=rollout-reconcile-29283840-abcde");
    assert!(try_parse_from(&from_pod).is_ok());
}

#[test]
fn skipping_satisfied_nodes_needs_the_label_that_says_so() {
    let base = [
        "k8s-job-dispatcher",
        "--job-template=/etc/job/install-job.yaml",
        "--name-prefix=rollout-install",
        "--skip-satisfied-nodes",
    ];
    assert!(try_parse_from(&base).is_err());

    let mut labelled = base.to_vec();
    labelled.extend(["--node-label-key=example.com/ready", "--node-label=true"]);
    assert!(try_parse_from(&labelled).is_ok());
}

#[test]
fn the_owner_job_is_either_named_or_taken_from_a_pod() {
    assert!(try_parse_from(&[
        "k8s-job-dispatcher",
        "--job-template=/etc/job/install-job.yaml",
        "--name-prefix=rollout-install",
        "--owner-job-name=rollout-install-dispatcher",
        "--owner-job-from-pod=rollout-reconcile-29283840-abcde",
    ])
    .is_err());
}

#[test]
fn flags_that_do_not_hold_together_say_so() {
    let text = |extra: &[&str]| {
        let mut argv = vec!["k8s-job-dispatcher"];
        argv.extend_from_slice(extra);
        try_parse_from(&argv).expect_err("the flags clash").message()
    };
    assert!(text(&["--yield-to-live-run"]).contains("--owner-job-name"));
    assert!(text(&["--skip-satisfied-nodes"]).contains("--node-label"));
    assert!(text(&["--owner-job-name=a", "--owner-job-from-pod=b"]).contains("together"));
}

#[test]
fn nodes_are_resolved_once_by_default() {
    assert_eq!(args_from(&[]).wait_for_nodes_secs, 0);
}

/// Only meaningful while waiting: without a wait there is nothing to settle.
#[test]
fn the_eligible_set_has_to_settle_before_it_is_accepted() {
    assert_eq!(args_from(&[]).node_settle_secs, 15);
    assert_eq!(args_from(&["--node-settle-secs=60"]).node_settle_secs, 60);
}

#[test]
fn the_other_defaults_are_the_documented_ones() {
    let args = args_from(&[]);
    assert_eq!(args.parallelism, 100);
    assert_eq!(args.poll_interval_secs, 5);
    assert_eq!(args.node_page_size, 500);
    assert_eq!(args.wait_node_ready_secs, 0);
    assert_eq!(args.kubelet_timeout_warn_secs, 0);
    assert_eq!(args.node_label_pending_value, "false");
    assert!(!args.ignore_node_taints);
}

#[test]
fn converging_removed_nodes_needs_an_ownership_label() {
    let err = cleanup_ownership_key(None)
        .expect_err("without a label there is no record of what this instance owns");
    let err = err.message();
    assert!(err.contains("--node-label-key"), "{err}");
}

#[test]
fn a_lone_instance_owns_nodes_through_the_shared_key() {
    let labelling = labelling_from_args(&args_from(&[
        "--node-label-key=example.com/ready",
        "--node-label=true",
    ]))
    .expect("a key and a value are enough")
    .expect("labelling was asked for");

    assert_eq!(
        cleanup_ownership_key(Some(&labelling)).unwrap(),
        "example.com/ready"
    );
}

#[test]
fn one_instance_among_many_owns_nodes_through_its_marker() {
    let labelling = labelling_from_args(&args_from(&[
        "--node-label-key=example.com/ready",
        "--node-label=true",
        "--instance-label-prefix=deployer.example.com",
        "--multi-install-suffix=dev",
    ]))
    .expect("a complete set of flags is valid")
    .expect("labelling was asked for");

    assert_eq!(
        cleanup_ownership_key(Some(&labelling)).unwrap(),
        "deployer.example.com/dev"
    );
}

/// The cleanup pass reads a node back in the selection as one to leave alone,
/// so it must not inherit the labelling that would advertise it.
#[test]
fn the_removed_node_pass_is_not_a_flag() {
    assert!(!args_from(&[]).removed_node_cleanup);
}

#[test]
fn the_removed_node_pass_has_a_prefix_of_its_own() {
    let mut args = args_from(&["--node-label-key=example.com/ready", "--node-label=true"]);
    args.cleanup_job_template = Some("/etc/job/cleanup.yaml".to_string());
    let ops = node_ops_from_args(&args).expect("the flags hold together");
    let args = cleanup_args(args);

    assert_eq!(args.name_prefix, "rollout-install-removed");
    assert!(args.cleanup_job_template.is_none());
    assert!(args.removed_node_cleanup);
    assert_eq!(args.node_label.as_deref(), Some("true"));

    let ops = cleanup_ops(ops);
    assert_eq!(
        ops.before_dispatch(),
        vec![NodeStep::EnsureUid, NodeStep::Demote, NodeStep::EnsureUid]
    );
    assert_eq!(
        ops.after_success(),
        vec![NodeStep::EnsureUid, NodeStep::Release, NodeStep::EnsureUid]
    );
}

#[test]
fn an_empty_selection_is_a_no_op_when_we_never_waited() {
    let nodes = no_eligible_nodes(&args_from(&[]), &[]).expect("empty selection is a no-op");
    assert!(nodes.is_empty());
}

#[test]
fn an_empty_selection_fails_once_the_wait_expires() {
    let args = args_from(&[
        "--wait-for-nodes-secs=120",
        "--node-selector=feature.node.kubernetes.io/cpu-cpuid.SVM in (true)",
    ]);
    let msg = no_eligible_nodes(&args, &[]).expect_err("waiting means nodes were expected");

    assert!(msg.contains("after waiting 120s"), "{msg}");
    assert!(
        msg.contains("[feature.node.kubernetes.io/cpu-cpuid.SVM in (true)]"),
        "{msg}"
    );
}

#[test]
fn nodes_matched_but_all_tainted_are_a_no_op_when_we_never_waited() {
    let nodes = no_eligible_nodes(&args_from(&[]), &[skipped_node("cp-0")])
        .expect("a repeating run leaves a node on its way up for its next pass");
    assert!(nodes.is_empty());
}

#[test]
fn nodes_matched_but_all_tainted_fail_with_the_missing_toleration() {
    let args = args_from(&["--wait-for-nodes-secs=120"]);
    let msg = no_eligible_nodes(&args, &[skipped_node("cp-0")])
        .expect_err("a fully tainted selection has nowhere to dispatch to");

    assert!(msg.contains("node cp-0"), "{msg}");
    assert!(
        msg.contains("node-role.kubernetes.io/control-plane:NoSchedule"),
        "{msg}"
    );
    assert!(msg.contains("operator: Exists"), "{msg}");
}

#[test]
fn selectors_are_spelled_out_for_errors() {
    assert_eq!(describe_selectors(&[]), "<none> (every node)");
    assert_eq!(
        describe_selectors(&["a=b".to_string(), "c=d".to_string()]),
        "[a=b], [c=d]"
    );
}

#[test]
fn no_labelling_is_configured_by_default() {
    assert!(labelling_from_args(&args_from(&[]))
        .expect("no labelling flags is valid")
        .is_none());
}

#[test]
fn a_node_label_needs_its_key() {
    for flag in [
        "--node-label=true",
        "--remove-node-label",
        "--claim-node-pending",
    ] {
        let err = labelling_from_args(&args_from(&[flag]))
            .expect_err("a node label without a key cannot be written")
            .message();
        assert!(err.contains("--node-label-key"), "{err}");
    }
}

#[test]
fn an_instance_without_a_label_is_rejected() {
    for flag in ["--instance-label-prefix=a.b", "--multi-install-suffix=dev"] {
        let err = labelling_from_args(&args_from(&[flag]))
            .expect_err("an instance marks nothing without a label")
            .message();
        assert!(err.contains("only mark the nodes this instance holds"), "{err}");
    }
}

#[test]
fn a_key_without_an_action_is_rejected() {
    let err = labelling_from_args(&args_from(&["--node-label-key=example.com/ready"]))
        .expect_err("a key alone writes nothing")
        .message();
    assert!(err.contains("writes nothing"), "{err}");
}

/// Otherwise it would be silently ignored, which is how two instances end up
/// clobbering each other.
#[test]
fn an_instance_name_needs_its_prefix() {
    let err = labelling_from_args(&args_from(&[
        "--node-label-key=example.com/ready",
        "--node-label=true",
        "--multi-install-suffix=dev",
    ]))
    .expect_err("an instance name without a prefix is ignored otherwise")
    .message();
    assert!(err.contains("--instance-label-prefix"), "{err}");
}

#[test]
fn labelling_is_built_from_the_flags() {
    let labelling = labelling_from_args(&args_from(&[
        "--node-label-key=example.com/ready",
        "--node-label=true",
        "--node-label-pending-value=installing",
        "--instance-label-prefix=deployer.example.com",
        "--multi-install-suffix=dev",
    ]))
    .expect("a complete set of flags is valid")
    .expect("labelling was asked for");

    assert_eq!(labelling.key, "example.com/ready");
    assert_eq!(labelling.pending_value, "installing");
    assert_eq!(
        labelling.instance.as_ref().map(InstanceMarker::key),
        Some("deployer.example.com/dev")
    );
}

#[test]
fn the_node_result_keys_follow_the_tracking_prefix() {
    let args = args_from(&["--tracking-label-prefix=deployer.example.com"]);

    let keys = ResultKeys::with_prefix(&args.tracking_label_prefix);
    assert_eq!(keys.state, "deployer.example.com/result");
}

#[test]
fn a_single_instance_needs_no_marker() {
    let labelling = labelling_from_args(&args_from(&[
        "--node-label-key=example.com/ready",
        "--node-label=true",
    ]))
    .expect("a key and a value are enough")
    .expect("labelling was asked for");

    assert!(labelling.instance.is_none());
    assert_eq!(labelling.pending_value, DEFAULT_PENDING_LABEL_VALUE);
}

#[test]
fn lifting_taints_needs_something_to_label_with() {
    let err = check_taint_flags(&args_from(&[
        "--node-label-key=example.com/ready",
        "--claim-node-pending",
        "--remove-node-taints=example.com/startup",
    ]))
    .expect_err("a claim is not the label that gates the workloads")
    .message();
    assert!(err.contains("--node-label"), "{err}");

    check_taint_flags(&args_from(&[
        "--node-label-key=example.com/ready",
        "--node-label=true",
        "--remove-node-taints=example.com/startup",
    ]))
    .expect("a taint may be lifted once the node is labelled");
}

#[test]
fn extra_labels_are_split_into_pairs() {
    assert_eq!(
        extra_labels_from_args(&[
            "example.com/ready=true".to_string(),
            "example.com/mode=ppcie".to_string(),
        ])
        .unwrap(),
        vec![
            ("example.com/ready".to_string(), "true".to_string()),
            ("example.com/mode".to_string(), "ppcie".to_string()),
        ]
    );
}

#[test]
fn an_extra_label_without_an_equals_is_rejected() {
    let err = extra_labels_from_args(&["example.com/ready".to_string()])
        .expect_err("a bare key has no value to write")
        .message();
    assert!(err.contains("is not key=value"), "{err}");
}

#[test]
fn an_extra_label_without_a_key_is_quoted_in_its_error() {
    let err = extra_labels_from_args(&["a=b".to_string(), " \t=\"x\"".to_string()])
        .expect_err("a value alone has no key to write")
        .message();
    assert_eq!(
        err,
        "--extra-node-label \" \\t=\\\"x\\\"\" is not key=value; give the label to write, \
         e.g. --extra-node-label=example.com/ready=true"
    );
}

#[test]
fn only_the_first_equals_splits_an_extra_label() {
    assert_eq!(
        extra_labels_from_args(&["example.com/pair=a=b".to_string()]).unwrap(),
        vec![("example.com/pair".to_string(), "a=b".to_string())]
    );
}

#[test]
fn one_extra_label_key_cannot_be_given_twice() {
    let err = extra_labels_from_args(&[
        "example.com/ready=true".to_string(),
        "example.com/ready=false".to_string(),
    ])
    .expect_err("one key cannot hold two values")
    .message();
    assert!(err.contains("more than once"), "{err}");
}

#[test]
fn an_extra_label_cannot_take_an_ownership_key() {
    let labelling = labelling_from_args(&args_from(&[
        "--node-label-key=example.com/ready",
        "--node-label=true",
        "--instance-label-prefix=deployer.example.com",
        "--multi-install-suffix=dev",
    ]))
    .expect("a complete set of flags is valid");

    for key in ["example.com/ready", "deployer.example.com/dev"] {
        let err = check_extra_label_keys(
            labelling.as_ref(),
            &[(key.to_string(), "true".to_string())],
        )
        .expect_err("an ownership key is not an extra label's to write")
        .message();
        assert!(err.contains("ownership key"), "{err}");
    }

    check_extra_label_keys(
        labelling.as_ref(),
        &[("example.com/mode".to_string(), "ppcie".to_string())],
    )
    .expect("a key of its own is fine");
}

#[test]
fn an_extra_label_needs_something_to_write_or_remove_it_with() {
    let err = check_extra_label_flags(&args_from(&["--extra-node-label=example.com/ready=true"]))
        .expect_err("nothing writes or removes an extra label on its own")
        .message();
    assert!(err.contains("--node-label"), "{err}");

    check_extra_label_flags(&args_from(&[
        "--node-label-key=example.com/ready",
        "--node-label=true",
        "--extra-node-label=example.com/mode=ppcie",
    ]))
    .expect("an extra label alongside --node-label is fine");

    check_extra_label_flags(&args_from(&[
        "--node-label-key=example.com/ready",
        "--remove-node-label",
        "--extra-node-label=example.com/mode=ppcie",
    ]))
    .expect("an extra label alongside --remove-node-label, with no value, is also fine");
}

#[test]
fn the_tracking_prefix_comes_from_the_flags() {
    assert_eq!(
        args_from(&[]).tracking_label_prefix,
        DEFAULT_TRACKING_LABEL_PREFIX
    );
    assert_eq!(
        TrackingLabels::with_prefix(
            &args_from(&["--tracking-label-prefix=example.com/dispatcher"]).tracking_label_prefix
        )
        .owner,
        "example.com/dispatcher/owner"
    );
}

#[test]
fn a_comma_separated_list_drops_what_is_empty() {
    assert_eq!(comma_separated(None), Vec::<String>::new());
    assert_eq!(comma_separated(Some("")), Vec::<String>::new());
    assert_eq!(
        comma_separated(Some(" a,, b ,\tc,")),
        vec!["a".to_string(), "b".to_string(), "c".to_string()]
    );
}

#[test]
fn the_work_around_a_job_is_built_from_the_flags() {
    let ops = node_ops_from_args(&args_from(&[
        "--node-label-key= example.com/ready ",
        "--node-label=true",
        "--extra-node-label=example.com/mode=ppcie",
        "--claim-node-pending",
        "--require-node-handlers=a, b",
        "--remove-node-taints=example.com/startup:NoSchedule",
        "--wait-node-ready-secs=30",
        "--kubelet-timeout-warn-secs=600",
        "--tracking-label-prefix=track/",
    ]))
    .expect("the flags hold together");

    assert_eq!(ops.labelling.as_ref().map(|l| l.key.as_str()), Some("example.com/ready"));
    assert_eq!(ops.label_value.as_deref(), Some("true"));
    assert_eq!(
        ops.extra_labels,
        vec![("example.com/mode".to_string(), "ppcie".to_string())]
    );
    assert!(ops.claim_pending && !ops.remove_label);
    assert_eq!(ops.require_handlers, vec!["a".to_string(), "b".to_string()]);
    assert_eq!(ops.remove_taints, vec!["example.com/startup:NoSchedule".to_string()]);
    assert_eq!(ops.wait_ready, Some(30));
    assert_eq!(ops.kubelet_timeout_warn, Some(600));
    assert_eq!(ops.result_keys.error, "track/error");
    assert_eq!(
        ops.before_dispatch(),
        vec![
            NodeStep::EnsureUid,
            NodeStep::Claim,
            NodeStep::WarnOnLowKubeletTimeout { threshold_secs: 600 },
            NodeStep::EnsureUid,
        ]
    );
    assert_eq!(
        ops.after_success(),
        vec![
            NodeStep::EnsureUid,
            NodeStep::WaitTillReady { timeout_secs: 30 },
            NodeStep::EnsureUid,
            NodeStep::VerifyHandlers,
            NodeStep::EnsureUid,
            NodeStep::LabelUntilStable,
            NodeStep::EnsureUid,
            NodeStep::LiftTaints,
        ]
    );
}

#[test]
fn the_first_fault_in_the_flags_is_the_one_said() {
    let fault = |extra: &[&str]| {
        node_ops_from_args(&args_from(extra))
            .expect_err("the flags are at odds")
            .message()
    };
    assert!(fault(&["--remove-node-taints=a", "--extra-node-label=x"])
        .contains("--remove-node-taints"));
    assert!(fault(&["--extra-node-label=x"]).contains("--extra-node-label needs"));
    assert!(fault(&["--node-label=true", "--extra-node-label=x"]).contains("--node-label-key"));
    assert!(fault(&["--node-label=true", "--node-label-key=k", "--extra-node-label=x"])
        .contains("is not key=value"));
    assert!(fault(&["--node-label=true", "--node-label-key=k", "--extra-node-label=k=v"])
        .contains("ownership key"));
}

#[test]
fn the_namespace_is_the_first_that_says_something() {
    let some = |text: &str| Some(text.to_string());
    assert_eq!(resolve_namespace(some("a"), some("b"), some("c")), "a");
    assert_eq!(resolve_namespace(some("  "), some("b"), some("c")), "b");
    assert_eq!(resolve_namespace(None, some(" "), some(" c\n")), "c");
    assert_eq!(resolve_namespace(None, None, some(" \n")), "default");
    assert_eq!(resolve_namespace(None, None, None), "default");
}

#[test]
fn slots_are_at_least_one_and_no_more_than_nodes() {
    assert_eq!(slots(0, 3), 1);
    assert_eq!(slots(2, 3), 2);
    assert_eq!(slots(100, 3), 3);
}

#[test]
fn intervals_and_pages_are_never_empty() {
    let mut args = Args::new("job.yaml".to_string(), "rollout".to_string());
    assert_eq!((args.poll_secs(), args.page_size()), (5, 500));
    args.poll_interval_secs = 0;
    args.node_page_size = 0;
    assert_eq!((args.poll_secs(), args.page_size()), (1, 1));
}
