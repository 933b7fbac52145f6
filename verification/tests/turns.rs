use k8s_job_dispatcher::args::Args;
use k8s_job_dispatcher::diagnosis::{
    what_the_job_waits_for, why_the_job_failed, ContainerRecord, ExitRecord, PodReport,
};
use k8s_job_dispatcher::job::{job_owned_by, TrackingLabels};
use k8s_job_dispatcher::labels::StringMap;
use k8s_job_dispatcher::node_filter::PodAdmission;
use k8s_job_dispatcher::node_ops::NodeOps;
use k8s_job_dispatcher::nodes::{NodeFacts, NodeLabelling};
use k8s_job_dispatcher::objects::{
    ApiError, Condition, JobRecord, Node, NodeStatus, OwnerReference, Taint,
};
use k8s_job_dispatcher::stamp::{fact_variables, tracking_stamps};
use k8s_job_dispatcher::turn::{Blame, Provenance, Run, Turn, TurnAsk};
use k8s_job_dispatcher::work::{Ask, NodeWork, Phase};

const KEY: &str = "example.com/ready";
const SEC: u64 = 1_000_000_000;

fn map(pairs: &[(&str, &str)]) -> StringMap {
    let mut map = StringMap::new();
    for (key, value) in pairs {
        map.insert(key.to_string(), value.to_string());
    }
    map
}

fn labelled(pairs: &[(&str, &str)]) -> Node {
    Node {
        name: Some("w".to_string()),
        uid: Some("u".to_string()),
        resource_version: Some("7".to_string()),
        labels: Some(map(pairs)),
        ..Default::default()
    }
}

fn error(code: u16) -> ApiError {
    ApiError {
        code: Some(code),
        message: format!("status {code}"),
    }
}

fn ops() -> NodeOps {
    let mut ops = NodeOps::new("p");
    ops.labelling = Some(NodeLabelling {
        key: KEY.to_string(),
        pending_value: "false".to_string(),
        instance: None,
    });
    ops
}

fn run() -> Run {
    Run {
        args: Args::new("job.yaml".to_string(), "rollout".to_string()),
        admission: PodAdmission {
            tolerations: vec![],
            host_network: false,
        },
        ops: NodeOps::new("p"),
        tracking: TrackingLabels::with_prefix("p"),
        owner_value: "rollout".to_string(),
        owner: None,
    }
}

fn failure(ask: Ask) -> String {
    match ask {
        Ask::Fail(why) => why,
        other => panic!("{other:?}"),
    }
}

fn refusal(ask: TurnAsk) -> (String, Blame) {
    match ask {
        TurnAsk::Refuse { reason, blame } => (reason, blame),
        other => panic!("{other:?}"),
    }
}

#[test]
fn work_without_flags_checks_who_the_node_is() {
    let mut work = NodeWork::new(NodeOps::new("p"), "w", "u", Phase::Before);
    assert!(matches!(work.patched(Ok(()), 0), Ask::Unexpected));
    assert!(matches!(work.begin(0), Ask::Read));
    assert!(matches!(work.probed(0), Ask::Unexpected));
    assert!(matches!(work.fetched(Ok(labelled(&[])), 0), Ask::Read));
    assert!(matches!(work.fetched(Ok(labelled(&[])), 0), Ask::Done));
    assert!(matches!(
        work.fetched(Ok(labelled(&[])), 0),
        Ask::Unexpected
    ));

    let mut work = NodeWork::new(NodeOps::new("p"), "w", "someone-else", Phase::Before);
    work.begin(0);
    assert_eq!(
        failure(work.fetched(Ok(labelled(&[])), 0)),
        "node w changed identity: expected UID someone-else, found Some(\"u\")"
    );

    let mut work = NodeWork::new(NodeOps::new("p"), "w", "u", Phase::After);
    work.begin(0);
    assert_eq!(
        failure(work.fetched(Err(error(500)), 0)),
        "failed to get node w: status 500"
    );
}

#[test]
fn a_node_is_claimed_before_its_job() {
    let mut ops = ops();
    ops.claim_pending = true;
    ops.kubelet_timeout_warn = Some(600);
    let mut work = NodeWork::new(ops, "w", "u", Phase::Before);
    assert!(matches!(work.begin(0), Ask::Read));
    assert!(matches!(work.fetched(Ok(labelled(&[])), 0), Ask::Read));
    assert!(matches!(work.fetched(Ok(labelled(&[])), 0), Ask::Patch(_)));
    // A lost race is read again.
    assert!(matches!(work.patched(Err(error(409)), 0), Ask::Read));
    assert!(matches!(work.fetched(Ok(labelled(&[])), 0), Ask::Patch(_)));
    assert!(matches!(
        work.patched(Ok(()), 0),
        Ask::Probe {
            threshold_secs: 600
        }
    ));
    assert!(matches!(work.probed(0), Ask::Read));
    assert!(matches!(work.fetched(Ok(labelled(&[])), 0), Ask::Done));
}

#[test]
fn a_node_that_cannot_be_claimed_is_not_worked_on() {
    let mut ops = ops();
    ops.claim_pending = true;
    let mut work = NodeWork::new(ops, "w", "u", Phase::Before);
    work.begin(0);
    work.fetched(Ok(labelled(&[])), 0);
    work.fetched(Ok(labelled(&[])), 0);
    assert_eq!(
        failure(work.patched(Err(error(403)), 0)),
        "could not claim node w; refusing to mutate a host that a later cleanup could not \
         discover: status 403"
    );
    assert!(matches!(
        work.fetched(Ok(labelled(&[])), 0),
        Ask::Unexpected
    ));
}

fn ready(pairs: &[(&str, &str)]) -> Node {
    let mut node = labelled(pairs);
    node.status = Some(NodeStatus {
        conditions: Some(vec![Condition {
            type_: "Ready".to_string(),
            status: "True".to_string(),
        }]),
        ..Default::default()
    });
    node.taints = Some(vec![Taint {
        key: "start-up".to_string(),
        effect: "NoSchedule".to_string(),
        ..Default::default()
    }]);
    node
}

#[test]
fn a_node_is_ready_then_labelled_then_opened() {
    let mut ops = ops();
    ops.label_value = Some("true".to_string());
    ops.wait_ready = Some(60);
    ops.remove_taints = vec!["start-up".to_string()];
    let mut work = NodeWork::new(ops, "w", "u", Phase::After);

    assert!(matches!(work.begin(0), Ask::Read));
    assert!(matches!(work.fetched(Ok(labelled(&[])), 0), Ask::Read));
    // Not Ready yet.
    assert!(matches!(
        work.fetched(Ok(labelled(&[])), SEC),
        Ask::ReadAfter { secs: 2 }
    ));
    assert!(matches!(work.fetched(Ok(ready(&[])), 2 * SEC), Ask::Read));
    // Its identity, then its handlers, of which none is required, then its identity.
    assert!(matches!(work.fetched(Ok(ready(&[])), 2 * SEC), Ask::Read));
    assert!(matches!(work.fetched(Ok(ready(&[])), 2 * SEC), Ask::Read));
    // The label, until it holds.
    let mut ask = work.fetched(Ok(ready(&[])), 2 * SEC);
    if let Ask::Read = ask {
        ask = work.fetched(Ok(ready(&[])), 2 * SEC);
    }
    assert!(matches!(ask, Ask::Patch(_)));
    assert!(matches!(
        work.patched(Ok(()), 2 * SEC),
        Ask::ReadAfter { secs: 2 }
    ));
    for _ in 0..5 {
        assert!(matches!(
            work.fetched(Ok(ready(&[(KEY, "true")])), 2 * SEC),
            Ask::ReadAfter { secs: 2 }
        ));
    }
    assert!(matches!(
        work.fetched(Ok(ready(&[(KEY, "true")])), 2 * SEC),
        Ask::Read
    ));
    // Its identity, then its taints.
    assert!(matches!(
        work.fetched(Ok(ready(&[(KEY, "true")])), 2 * SEC),
        Ask::Read
    ));
    assert!(matches!(
        work.fetched(Ok(ready(&[(KEY, "true")])), 2 * SEC),
        Ask::Patch(_)
    ));
    // Best-effort: a taint left in place is the safe direction.
    assert!(work.lost().is_none());
    assert!(matches!(
        work.patched(Err(error(403)), 2 * SEC),
        Ask::Done
    ));
    assert_eq!(
        work.lost().as_deref(),
        Some("failed to patch taints on node w: status 403")
    );
}

#[test]
fn a_label_that_drifts_is_written_again() {
    let mut ops = ops();
    ops.label_value = Some("true".to_string());
    let mut work = NodeWork::new(ops, "w", "u", Phase::After);
    let mut ask = work.begin(0);
    while let Ask::Read = ask {
        ask = work.fetched(Ok(labelled(&[])), 0);
    }
    assert!(matches!(ask, Ask::Patch(_)));
    assert!(matches!(work.patched(Ok(()), 0), Ask::ReadAfter { .. }));
    assert!(matches!(
        work.fetched(Ok(labelled(&[(KEY, "true")])), 0),
        Ask::ReadAfter { .. }
    ));
    assert!(matches!(
        work.fetched(Ok(labelled(&[(KEY, "false")])), 0),
        Ask::Read
    ));
    assert!(matches!(
        work.fetched(Ok(labelled(&[(KEY, "false")])), 0),
        Ask::Patch(_)
    ));
}

#[test]
fn a_node_that_stays_unready_fails() {
    let mut ops = ops();
    ops.label_value = Some("true".to_string());
    ops.wait_ready = Some(60);
    let mut work = NodeWork::new(ops, "w", "u", Phase::After);
    work.begin(0);
    work.fetched(Ok(labelled(&[])), 5 * SEC);
    assert!(matches!(
        work.fetched(Err(error(500)), 64 * SEC),
        Ask::ReadAfter { .. }
    ));
    assert!(failure(work.fetched(Ok(labelled(&[])), 65 * SEC))
        .starts_with("node w did not become Ready within 60s of its Job finishing (last seen: "));
}

#[test]
fn a_turn_ends_with_the_job_created() {
    let run = run();
    let mut turn = Turn::new(&run, "w", "u");
    assert_eq!(turn.job(), "rollout-w");
    assert!(matches!(turn.created(Ok(())), TurnAsk::Unexpected));
    match turn.node_read(Ok(labelled(&[])), 0) {
        TurnAsk::AskSelection { field_selector } => {
            assert_eq!(field_selector, "metadata.name=w")
        }
        other => panic!("{other:?}"),
    }
    assert!(matches!(
        turn.selection_read(true, 0),
        TurnAsk::Work(Ask::Read)
    ));
    assert!(matches!(
        turn.node_read(Ok(labelled(&[])), 0),
        TurnAsk::Work(Ask::Read)
    ));
    assert!(matches!(
        turn.node_read(Ok(labelled(&[])), 0),
        TurnAsk::CreateJob
    ));
    assert!(matches!(
        turn.created(Ok(())),
        TurnAsk::Dispatched(Provenance::Created)
    ));
    assert!(turn.fresh().is_some());
    assert_eq!(turn.facts().name, "w");
    assert!(matches!(turn.created(Ok(())), TurnAsk::Unexpected));
}

#[test]
fn named_nodes_are_not_asked_about() {
    let mut run = run();
    run.args.nodes = Some("v, w".to_string());
    let mut turn = Turn::new(&run, "w", "u");
    assert!(matches!(
        turn.node_read(Ok(labelled(&[])), 0),
        TurnAsk::Work(Ask::Read)
    ));

    let mut tainted = labelled(&[]);
    tainted.taints = Some(vec![Taint {
        key: "k".to_string(),
        effect: "NoExecute".to_string(),
        ..Default::default()
    }]);
    let mut turn = Turn::new(&run, "w", "u");
    assert!(matches!(
        turn.node_read(Ok(tainted), 0),
        TurnAsk::Work(Ask::Read)
    ));

    run.args.nodes = Some("v".to_string());
    let mut turn = Turn::new(&run, "w", "u");
    assert_eq!(
        refusal(turn.node_read(Ok(labelled(&[])), 0)),
        (
            "no longer matches the selection; refusing to act on a stale selection, leaving the \
             node as it is"
                .to_string(),
            Blame::Fresh
        )
    );
    // The failure is held against the node that was read again.
    assert_eq!(
        turn.fresh().as_ref().and_then(|node| node.uid.as_deref()),
        Some("u")
    );
}

#[test]
fn only_a_run_with_an_owner_sweeps() {
    let mut run = run();
    assert!(run.sweep().is_none());
    run.owner = Some(reference("driver"));
    let (owner, selector) = run.sweep().unwrap();
    assert_eq!(owner.uid, "driver");
    assert_eq!(selector, format!("{}=rollout", run.tracking.owner));
}

#[test]
fn a_turn_says_whose_failure_it_is() {
    let run = run();
    let mut turn = Turn::new(&run, "w", "u");
    assert_eq!(
        refusal(turn.node_read(Err(error(500)), 0)),
        (
            "could not re-read it before dispatch (failed to get node w: status 500)".to_string(),
            Blame::Selected
        )
    );
    let mut turn = Turn::new(&run, "w", "before");
    let (reason, blame) = refusal(turn.node_read(Ok(labelled(&[])), 0));
    assert_eq!(blame, Blame::Nobody);
    assert!(reason.starts_with("was selected as UID before but now has UID Some(\"u\"); "));
    assert!(matches!(
        turn.selection_read(true, 0),
        TurnAsk::Unexpected
    ));

    // The machine is replaced while the work goes on.
    let mut turn = Turn::new(&run, "w", "u");
    turn.node_read(Ok(labelled(&[])), 0);
    turn.selection_read(true, 0);
    let mut other = labelled(&[]);
    other.uid = None;
    assert_eq!(
        refusal(turn.node_read(Ok(other), 0)),
        (
            "node w changed identity: expected UID u, found None".to_string(),
            Blame::Fresh
        )
    );
    assert!(matches!(turn.created(Ok(())), TurnAsk::Unexpected));
}

#[test]
fn a_cleanup_leaves_a_node_that_came_back() {
    let mut run = run();
    run.args.removed_node_cleanup = true;
    let mut turn = Turn::new(&run, "w", "u");
    turn.node_read(Ok(labelled(&[])), 0);
    assert!(matches!(
        turn.selection_read(true, 0),
        TurnAsk::LeaveAlone
    ));
    let mut turn = Turn::new(&run, "w", "u");
    turn.node_read(Ok(labelled(&[])), 0);
    assert!(matches!(turn.selection_read(false, 0), TurnAsk::Work(_)));
}

fn creating<'a>(run: &'a Run) -> Turn<'a> {
    let mut turn = Turn::new(run, "w", "u");
    turn.node_read(Ok(labelled(&[])), 0);
    turn.selection_read(true, 0);
    turn.node_read(Ok(labelled(&[])), 0);
    assert!(matches!(
        turn.node_read(Ok(labelled(&[])), 0),
        TurnAsk::CreateJob
    ));
    turn
}

fn reference(uid: &str) -> OwnerReference {
    OwnerReference {
        api_version: "batch/v1".to_string(),
        kind: "Job".to_string(),
        name: "driver".to_string(),
        uid: uid.to_string(),
        ..Default::default()
    }
}

fn existing(value: &str, uid: &str) -> JobRecord {
    JobRecord {
        name: Some("rollout-w".to_string()),
        labels: Some(map(&[("p/owner", value)])),
        owner_references: Some(vec![reference(uid)]),
        ..Default::default()
    }
}

#[test]
fn a_job_of_this_run_is_adopted_and_a_stale_one_replaced() {
    let mut run = run();
    run.owner = Some(reference("ours"));

    let mut turn = creating(&run);
    assert!(matches!(turn.created(Err(error(409))), TurnAsk::ReadJob));
    assert!(matches!(
        turn.job_read(Ok(existing("rollout", "ours"))),
        TurnAsk::Dispatched(Provenance::Adopted)
    ));

    let mut turn = creating(&run);
    turn.created(Err(error(409)));
    assert!(matches!(
        turn.job_read(Ok(existing("rollout", "theirs"))),
        TurnAsk::DeleteJob
    ));
    assert!(matches!(
        turn.job_deleted(Err(error(404))),
        TurnAsk::CreateJob
    ));
    assert!(matches!(turn.created(Err(error(409))), TurnAsk::Pause));
    assert!(matches!(turn.created(Ok(())), TurnAsk::Unexpected));
    assert!(matches!(turn.paused(), TurnAsk::CreateJob));
    assert!(matches!(
        turn.created(Ok(())),
        TurnAsk::Dispatched(Provenance::Recreated)
    ));
}

#[test]
fn a_job_that_is_not_ours_is_left_alone() {
    let run = run();
    let mut turn = creating(&run);
    turn.created(Err(error(409)));
    assert_eq!(
        refusal(turn.job_read(Ok(existing("other", "theirs")))),
        (
            "job rollout-w already exists but is not labeled p/owner=rollout; refusing to adopt \
             a Job that is not this run's"
                .to_string(),
            Blame::Fresh
        )
    );
    let mut turn = creating(&run);
    assert_eq!(
        refusal(turn.created(Err(error(403)))).0,
        "its job rollout-w could not be created: status 403"
    );
}

#[test]
fn a_name_that_does_not_become_free_is_given_up() {
    let mut run = run();
    run.owner = Some(reference("ours"));
    let mut turn = creating(&run);
    turn.created(Err(error(409)));
    turn.job_read(Ok(existing("rollout", "theirs")));
    turn.job_deleted(Ok(()));
    for _ in 0..29 {
        assert!(matches!(turn.created(Err(error(409))), TurnAsk::Pause));
        assert!(matches!(turn.paused(), TurnAsk::CreateJob));
    }
    assert!(matches!(turn.created(Err(error(409))), TurnAsk::Pause));
    assert_eq!(
        refusal(turn.paused()).0,
        "the stale job rollout-w was still being deleted 60s after it was asked to go; giving \
         up on recreating it"
    );
}

#[test]
fn a_job_is_tracked_by_its_labels() {
    let tracking = TrackingLabels::with_prefix("p/");
    let stamps = tracking_stamps(&tracking, "rollout", "Worker.Example.COM");
    assert_eq!(
        stamps,
        vec![
            ("p/owner".to_string(), "rollout".to_string()),
            ("p/node".to_string(), "worker-example-com".to_string()),
            ("p/node-name".to_string(), "Worker.Example.COM".to_string()),
        ]
    );
    let mut labels = StringMap::new();
    for (key, value) in stamps {
        labels.insert(key, value);
    }
    let job = JobRecord {
        labels: Some(labels),
        ..Default::default()
    };
    assert!(job_owned_by(&job, &tracking, "rollout"));
    assert!(!job_owned_by(&job, &tracking, "other"));
    assert!(!job_owned_by(
        &job,
        &TrackingLabels::with_prefix("q"),
        "rollout"
    ));
}

#[test]
fn containers_learn_what_their_node_reports() {
    let facts = NodeFacts {
        name: "w".to_string(),
        container_runtime_version: Some("containerd://2.0".to_string()),
        machine_id: Some("m-1".to_string()),
    };
    assert_eq!(
        fact_variables(&facts, &[]),
        vec![
            (
                "CONTAINER_RUNTIME_VERSION".to_string(),
                "containerd://2.0".to_string()
            ),
            ("NODE_MACHINE_ID".to_string(), "m-1".to_string()),
        ]
    );
    assert_eq!(
        fact_variables(&facts, &["CONTAINER_RUNTIME_VERSION".to_string()]),
        vec![("NODE_MACHINE_ID".to_string(), "m-1".to_string())]
    );
    assert!(fact_variables(&NodeFacts::default(), &[]).is_empty());
}

fn container(name: &str) -> ContainerRecord {
    ContainerRecord {
        name: name.to_string(),
        running: false,
        waiting: None,
        exit: None,
    }
}

fn exited(name: &str, code: i32, message: Option<&str>) -> ContainerRecord {
    ContainerRecord {
        exit: Some(ExitRecord {
            code,
            reason: Some("Error".to_string()),
            message: message.map(str::to_string),
        }),
        ..container(name)
    }
}

fn pod(containers: Vec<ContainerRecord>) -> PodReport {
    PodReport {
        unscheduled: None,
        containers,
    }
}

#[test]
fn a_failed_job_says_what_its_pod_left() {
    let reason = Some("BackoffLimitExceeded".to_string());
    let pods = Some(vec![
        pod(vec![exited("first", 0, None), container("second")]),
        pod(vec![
            exited("first", 0, Some("fine")),
            exited(
                "install-stage-host-check",
                1,
                Some("this node has no usable virtualization backend\n"),
            ),
        ]),
    ]);
    assert_eq!(
        why_the_job_failed(&pods, &reason, &None),
        "install-stage-host-check exited 1: this node has no usable virtualization backend \
         [BackoffLimitExceeded]"
    );
    let pods = Some(vec![pod(vec![exited("main", -1, Some("  "))])]);
    assert_eq!(
        why_the_job_failed(&pods, &None, &Some("for ever".to_string())),
        "main exited -1: Error"
    );
    assert_eq!(
        why_the_job_failed(&None, &reason, &Some("main is waiting: ErrImagePull".to_string())),
        "its pod never ran; it was last seen waiting: main is waiting: ErrImagePull \
         [BackoffLimitExceeded]"
    );
    assert_eq!(
        why_the_job_failed(&Some(vec![]), &Some(String::new()), &None),
        "its pod left no account of why"
    );
}

#[test]
fn a_stalled_job_says_what_it_waits_for() {
    let waiting = ContainerRecord {
        waiting: Some((
            "ErrImagePull".to_string(),
            Some("no such image".to_string()),
        )),
        ..container("main")
    };
    assert_eq!(
        what_the_job_waits_for(&vec![pod(vec![container("init"), waiting])]).as_deref(),
        Some("main is waiting: ErrImagePull: no such image")
    );
    assert_eq!(
        what_the_job_waits_for(&vec![PodReport {
            unscheduled: Some("0/3 nodes are available".to_string()),
            containers: vec![],
        }])
        .as_deref(),
        Some("its pod has no node yet: 0/3 nodes are available")
    );
    assert_eq!(
        what_the_job_waits_for(&vec![]).as_deref(),
        Some("no pod has been created for it")
    );
    let running = ContainerRecord {
        running: true,
        ..container("main")
    };
    let queued = ContainerRecord {
        waiting: Some(("PodInitializing".to_string(), None)),
        ..container("later")
    };
    assert_eq!(
        what_the_job_waits_for(&vec![pod(vec![running, queued])]),
        None
    );
    assert_eq!(what_the_job_waits_for(&vec![pod(vec![])]), None);
}
