use k8s_job_dispatcher::args::Args;
use k8s_job_dispatcher::dispatch::{
    creation, identify, plan, reread, revalidate, uid_of, unsatisfied, Creation, Identity, Plan,
    Reread, Vetting,
};
use k8s_job_dispatcher::fanout::{FanOut, JobRead, Move, PollStep};
use k8s_job_dispatcher::labels::StringMap;
use k8s_job_dispatcher::node_filter::PodAdmission;
use k8s_job_dispatcher::node_ops::NodeOps;
use k8s_job_dispatcher::nodes::NodeLabelling;
use k8s_job_dispatcher::objects::{
    ApiError, Condition, JobRecord, Node, NodeInfo, NodeStatus, Taint,
};
use k8s_job_dispatcher::report::{build, Reporter, FAILED, NORMAL, SUCCEEDED, WARNING};
use k8s_job_dispatcher::summary::{
    summarize, NodeFailure, Progress, Tally, PROGRESS_HEARTBEAT_SECS,
};

const SEC: u64 = 1_000_000_000;
const COMPONENT: &str = "k8s-job-dispatcher";

fn node(name: &str) -> Node {
    Node {
        name: Some(name.to_string()),
        uid: Some("uid-1".to_string()),
        ..Default::default()
    }
}

fn error(code: u16) -> ApiError {
    ApiError {
        code: Some(code),
        message: format!("status {code}"),
    }
}

fn job_with(type_: &str) -> JobRecord {
    JobRecord {
        conditions: Some(vec![Condition {
            type_: type_.to_string(),
            status: "True".to_string(),
        }]),
        ..Default::default()
    }
}

#[test]
fn a_tally_is_said_when_it_changes_and_when_it_goes_quiet() {
    let now = 500 * SEC;
    let waiting = Tally {
        succeeded: 0,
        failed: 0,
        in_flight: 1,
        finishing: 0,
        queued: 0,
    };
    let mut progress = Progress::default();

    assert!(progress.worth_saying(&waiting, now));
    assert_eq!(
        progress.report(waiting, now).as_deref(),
        Some("progress: 0 succeeded, 0 failed, 1 in-flight, 0 finishing, 0 queued")
    );
    assert!(!progress.worth_saying(&waiting, now));
    assert!(progress.worth_saying(
        &Tally {
            succeeded: 1,
            in_flight: 0,
            ..waiting
        },
        now
    ));
    assert_eq!(progress.report(waiting, now), None);

    progress.said_at = Some(now - PROGRESS_HEARTBEAT_SECS * SEC);
    assert!(progress.worth_saying(&waiting, now));
}

#[test]
fn the_summary_names_every_node_and_what_stopped_it() {
    let failure = |node: &str, reason: &str| NodeFailure {
        node: node.to_string(),
        reason: reason.to_string(),
    };

    let summary = summarize(
        vec![
            failure(
                "worker-2",
                "its job failed: host-check exited 1: no /dev/kvm",
            ),
            failure("worker-1", "its pod is unschedulable"),
        ],
        "kube-system",
        "k8s-job-dispatcher/owner",
        "kata-deploy-install",
    );

    assert!(summary.starts_with("2 node(s) failed:"));
    // Sorted, so two runs over the same fleet read the same way.
    assert!(summary.contains("\n  worker-1: its pod is unschedulable\n  worker-2: its job failed: host-check exited 1: no /dev/kvm"));
    assert!(summary.contains(
        "kubectl logs -n kube-system -l k8s-job-dispatcher/owner=kata-deploy-install"
    ));
}

/// Counting a node twice would misstate how much of the fleet is affected.
#[test]
fn a_node_is_summarized_once() {
    let summary = summarize(
        vec![
            NodeFailure {
                node: "worker-1".to_string(),
                reason: "first".to_string(),
            },
            NodeFailure {
                node: "worker-1".to_string(),
                reason: "second".to_string(),
            },
        ],
        "kube-system",
        "owner",
        "run",
    );

    assert!(summary.starts_with("1 node(s) failed:"));
    assert!(summary.contains("worker-1: first"));
    assert!(!summary.contains("second"));
}

#[test]
fn the_event_is_addressed_to_the_node_itself() {
    let event = build(
        COMPONENT,
        &node("worker-0"),
        "worker-0",
        WARNING,
        FAILED,
        "host-check exited 1",
        "2026-01-01T00:00:00Z",
    );

    assert_eq!(event.involved_object.kind.as_deref(), Some("Node"));
    assert_eq!(event.involved_object.name.as_deref(), Some("worker-0"));
    assert_eq!(event.involved_object.uid.as_deref(), Some("uid-1"));
    assert_eq!(event.type_.as_deref(), Some("Warning"));
    assert_eq!(event.reason.as_deref(), Some("JobFailed"));
    assert_eq!(event.message.as_deref(), Some("host-check exited 1"));
    assert_eq!(event.count, Some(1));
    assert!(event.first_timestamp.is_some());
    assert!(event.last_timestamp.is_some());
}

#[test]
fn the_event_carries_no_event_time() {
    let event = build(
        COMPONENT,
        &node("worker-0"),
        "worker-0",
        NORMAL,
        SUCCEEDED,
        "done",
        "2026-01-01T00:00:00Z",
    );
    assert!(event.event_time.is_none());
}

#[test]
fn the_event_name_is_derived_safely_from_the_node() {
    let event = build(
        COMPONENT,
        &node("Worker.Example.COM"),
        "Worker.Example.COM",
        WARNING,
        FAILED,
        "failed",
        "2026-01-01T00:00:00Z",
    );

    assert_eq!(
        event.generate_name.as_deref(),
        Some("worker-example-com.")
    );
    assert!(event.name.is_none());
}

#[test]
fn every_result_has_an_event_of_its_own() {
    let reporter = Reporter::new(COMPONENT);
    let now = "2026-01-01T00:00:00Z";

    let failed = reporter.node_failed(&node("w"), "why", now).unwrap();
    assert_eq!(failed.type_.as_deref(), Some("Warning"));
    assert_eq!(failed.reason.as_deref(), Some("JobFailed"));
    assert_eq!(failed.message.as_deref(), Some("why"));
    assert_eq!(failed.component.as_deref(), Some(COMPONENT));

    let succeeded = reporter.node_succeeded(&node("w"), now).unwrap();
    assert_eq!(succeeded.type_.as_deref(), Some("Normal"));
    assert_eq!(succeeded.reason.as_deref(), Some("JobSucceeded"));
    assert_eq!(succeeded.message.as_deref(), Some("the node's Job completed"));

    let waiting = reporter.node_waiting(&node("w"), "pulling", now).unwrap();
    assert_eq!(waiting.type_.as_deref(), Some("Warning"));
    assert_eq!(waiting.reason.as_deref(), Some("JobPending"));

    assert!(reporter.node_succeeded(&Node::default(), now).is_none());
}

fn names(count: usize) -> Vec<Node> {
    (0..count).map(|i| node(&format!("worker-{i}"))).collect()
}

/// Takes one node and puts its Job in flight.
fn fly(run: &mut FanOut, now: u64) -> usize {
    let at = run.take().expect("a slot is free");
    run.dispatched(format!("job-{at}"), now);
    at
}

#[test]
fn no_more_slots_are_taken_than_there_are() {
    let mut run = FanOut::new(names(3), 2);
    assert_eq!(run.next_move(), Move::Dispatch);
    fly(&mut run, 0);
    fly(&mut run, 0);
    assert_eq!(run.next_move(), Move::Poll);
    assert!(run.take().is_none());

    // Work after a success holds the slot.
    let step = run.job_read("job-0", JobRead::Found(job_with("Complete")), SEC);
    match step {
        PollStep::Finish { at, uid } => {
            assert_eq!(at, 0);
            assert_eq!(uid, "uid-1");
        }
        other => panic!("{other:?}"),
    }
    assert!(run.take().is_none());
    assert_eq!(
        run.tally(),
        Tally {
            succeeded: 0,
            failed: 0,
            in_flight: 1,
            finishing: 1,
            queued: 1,
        }
    );

    // A slot is free once that is done.
    assert_eq!(run.finished(0, Ok(())), None);
    assert_eq!(run.next_move(), Move::Dispatch);
    assert_eq!(run.take(), Some(2));
    assert_eq!(run.next_move(), Move::Settle);
}

#[test]
fn every_node_is_covered_once_and_the_failed_ones_are_named() {
    let mut nodes = names(5);
    nodes[4].name = None;
    let mut run = FanOut::new(nodes, 1);

    // One succeeds as a whole.
    fly(&mut run, 0);
    run.job_read("job-0", JobRead::Found(job_with("Complete")), SEC);
    assert_eq!(run.next_move(), Move::Join);
    run.finished(0, Ok(()));

    // One fails after its Job succeeded.
    fly(&mut run, 0);
    run.job_read("job-1", JobRead::Found(job_with("Complete")), SEC);
    assert_eq!(
        run.finished(1, Err("it drifted".to_string())).as_deref(),
        Some("its Job finished but it drifted")
    );

    // One fails in its Job.
    fly(&mut run, 0);
    assert!(matches!(
        run.job_read("job-2", JobRead::Found(job_with("Failed")), SEC),
        PollStep::Diagnose { at: 2, last_seen: None }
    ));
    match run.job_failed("job-2", "exited 1") {
        PollStep::Failed { at, reason } => {
            assert_eq!(at, 2);
            assert_eq!(reason, "its job job-2 failed: exited 1");
        }
        other => panic!("{other:?}"),
    }

    // One is refused, one has no name.
    run.take();
    run.refuse("tainted".to_string());
    run.take();
    run.pass_over();

    assert_eq!(run.next_move(), Move::Over);
    let why = run.result("ns", "label", "value").unwrap_err();
    assert_eq!(
        why,
        "3 node(s) failed:\n  worker-1: its Job finished but it drifted\n  worker-2: its job job-2 \
         failed: exited 1\n  worker-3: tainted\nThe full logs of the per-node Jobs that are still \
         around: kubectl logs -n ns -l label=value --all-containers --prefix"
    );
}

#[test]
fn a_run_without_failures_says_how_many_nodes_it_reached() {
    let mut run = FanOut::new(names(2), 2);
    fly(&mut run, 0);
    // A node back in the selection is left alone, which is a success.
    run.take();
    run.leave_alone();
    run.job_read("job-0", JobRead::Found(job_with("Complete")), SEC);
    run.finished(0, Ok(()));
    assert_eq!(run.next_move(), Move::Over);
    assert_eq!(run.result("ns", "label", "value"), Ok(2));
}

#[test]
fn a_node_that_was_passed_over_is_no_success() {
    let mut run = FanOut::new(names(3), 1);
    fly(&mut run, 0);
    run.job_read("job-0", JobRead::Found(job_with("Complete")), SEC);
    run.finished(0, Ok(()));
    run.take();
    run.pass_over();
    run.take();
    run.pass_over();
    assert_eq!(run.next_move(), Move::Over);
    assert_eq!(
        run.result("ns", "label", "value").unwrap_err(),
        "2 selected node(s) have no name, so no Job could be dispatched to them"
    );
}

#[test]
fn a_job_that_is_gone_fails_its_node_at_once() {
    let mut run = FanOut::new(names(1), 1);
    fly(&mut run, 0);
    match run.job_read("job-0", JobRead::Refused(error(404)), SEC) {
        PollStep::Failed { at, reason } => {
            assert_eq!(at, 0);
            assert_eq!(
                reason,
                "its job job-0 no longer exists, so its result cannot be established"
            );
        }
        other => panic!("{other:?}"),
    }
    assert!(matches!(
        run.job_read("job-0", JobRead::TimedOut, SEC),
        PollStep::NotInFlight
    ));
}

#[test]
fn a_job_that_stays_unreadable_fails_its_node_in_the_end() {
    let mut run = FanOut::new(names(2), 2);
    fly(&mut run, 0);
    fly(&mut run, 0);
    assert_eq!(
        run.begin_poll(10 * SEC),
        vec!["job-0".to_string(), "job-1".to_string()]
    );
    assert!(matches!(
        run.job_read("job-0", JobRead::Refused(error(403)), 11 * SEC),
        PollStep::Unread
    ));
    // A read in between starts the count anew.
    assert!(matches!(
        run.job_read("job-1", JobRead::Found(JobRecord::default()), 11 * SEC),
        PollStep::Running
    ));
    run.begin_poll(200 * SEC);
    match run.job_read("job-0", JobRead::Refused(error(403)), 310 * SEC) {
        PollStep::Failed { reason, .. } => assert_eq!(
            reason,
            "its job job-0 has been unreadable for 300s (status 403), so its result cannot be \
             established"
        ),
        other => panic!("{other:?}"),
    }
    assert!(matches!(
        run.job_read("job-1", JobRead::TimedOut, 310 * SEC),
        PollStep::Unread
    ));
    match run.job_read("job-1", JobRead::TimedOut, 501 * SEC) {
        PollStep::Failed { reason, .. } => assert_eq!(
            reason,
            "its job job-1 has been unreadable for 301s because its GET requests keep timing out \
             after 15s, so its result cannot be established"
        ),
        other => panic!("{other:?}"),
    }
}

#[test]
fn a_job_that_goes_nowhere_is_asked_now_and_then() {
    let mut run = FanOut::new(names(1), 1);
    fly(&mut run, 0);
    let mut read = |now: u64| run.job_read("job-0", JobRead::Found(JobRecord::default()), now);

    assert!(matches!(read(120 * SEC - 1), PollStep::Running));
    assert!(matches!(
        read(125 * SEC),
        PollStep::Stalled { at: 0, waited_secs: 125 }
    ));
    assert!(matches!(read(130 * SEC), PollStep::Running));
    assert!(matches!(read(425 * SEC - 1), PollStep::Running));
    assert!(matches!(
        read(425 * SEC),
        PollStep::Stalled { waited_secs: 425, .. }
    ));

    assert_eq!(
        run.waiting_for("job-0", 425, "ImagePullBackOff".to_string())
            .as_deref(),
        Some("its job job-0 has been going 425s without running: ImagePullBackOff")
    );
    match run.job_read("job-0", JobRead::Found(job_with("Failed")), 500 * SEC) {
        PollStep::Diagnose { last_seen, .. } => {
            assert_eq!(last_seen.as_deref(), Some("ImagePullBackOff"))
        }
        other => panic!("{other:?}"),
    }
}

#[test]
fn a_selected_node_is_known_by_its_name_and_uid() {
    assert!(matches!(identify(&Node::default()), Identity::Nameless));
    let mut nameless = node("w");
    nameless.uid = None;
    match identify(&nameless) {
        Identity::Unknown { name, reason } => {
            assert_eq!(name, "w");
            assert_eq!(reason, "the selected Node has no UID; refusing to dispatch to it");
        }
        other => panic!("{other:?}"),
    }
    assert!(matches!(identify(&node("w")), Identity::Known { .. }));
    assert_eq!(uid_of(None), None);
    assert_eq!(uid_of(Some(&node("w"))), Some("uid-1"));
}

#[test]
fn a_replacement_machine_is_never_acted_on() {
    assert!(matches!(
        reread("w", "uid-1", Ok(node("w"))),
        Reread::Same(_)
    ));
    match reread("w", "uid-0", Ok(node("w"))) {
        Reread::Replaced { reason } => assert_eq!(
            reason,
            "was selected as UID uid-0 but now has UID Some(\"uid-1\"); refusing to mutate a \
             replacement machine under a stale identity"
        ),
        other => panic!("{other:?}"),
    }
    match reread("w", "uid-0", Ok(Node::default())) {
        Reread::Replaced { reason } => assert!(reason.contains("now has UID None;"), "{reason}"),
        other => panic!("{other:?}"),
    }
    match reread("w", "uid-1", Err(error(500))) {
        Reread::Unread { reason } => assert_eq!(
            reason,
            "could not re-read it before dispatch (failed to get node w: status 500)"
        ),
        other => panic!("{other:?}"),
    }
}

fn flags() -> Args {
    Args::new("t".to_string(), "p".to_string())
}

fn nothing_tolerated() -> PodAdmission {
    PodAdmission {
        tolerations: Vec::new(),
        host_network: false,
    }
}

fn refusal(vetting: Vetting) -> String {
    match vetting {
        Vetting::Refuse { reason } => reason,
        other => panic!("{other:?}"),
    }
}

#[test]
fn a_node_is_looked_at_once_more_before_its_job() {
    let admission = nothing_tolerated();
    let mut args = flags();
    assert!(matches!(
        revalidate(&args, true, &node("w"), &admission),
        Vetting::Go(_)
    ));
    assert_eq!(
        refusal(revalidate(&args, false, &node("w"), &admission)),
        "no longer matches the selection; refusing to act on a stale selection, leaving the node \
         as it is"
    );

    args.removed_node_cleanup = true;
    assert!(matches!(
        revalidate(&args, true, &node("w"), &admission),
        Vetting::LeaveAlone
    ));
    assert!(matches!(
        revalidate(&args, false, &node("w"), &admission),
        Vetting::Go(_)
    ));

    let mut args = flags();
    let mut tainted = node("w");
    tainted.taints = Some(vec![Taint {
        key: "k".to_string(),
        effect: "NoExecute".to_string(),
        ..Default::default()
    }]);
    assert_eq!(
        refusal(revalidate(&args, true, &tainted, &admission)),
        "acquired the untolerated taint k:NoExecute before dispatch; refusing to start a Job the \
         taint manager would evict"
    );
    args.ignore_node_taints = true;
    assert!(matches!(
        revalidate(&args, true, &tainted, &admission),
        Vetting::Go(_)
    ));
    // An explicit list skips taint admission.
    args.ignore_node_taints = false;
    args.nodes = Some("w".to_string());
    assert!(matches!(
        revalidate(&args, true, &tainted, &admission),
        Vetting::Go(_)
    ));
    // The pass that cleans removed nodes acts on those that the list does not name.
    args.removed_node_cleanup = true;
    args.nodes = Some("v".to_string());
    assert!(refusal(revalidate(&args, false, &tainted, &admission))
        .starts_with("acquired the untolerated taint k:NoExecute"));
}

#[test]
fn facts_that_are_required_have_to_be_reported() {
    let admission = nothing_tolerated();
    let mut args = flags();
    args.require_node_runtime_version = true;
    args.require_node_machine_id = true;
    let reporting = |version: &str, machine: &str| Node {
        status: Some(NodeStatus {
            node_info: Some(NodeInfo {
                container_runtime_version: version.to_string(),
                machine_id: machine.to_string(),
            }),
            ..Default::default()
        }),
        ..node("w")
    };

    assert!(refusal(revalidate(&args, true, &reporting("", "m"), &admission))
        .starts_with("reports no containerRuntimeVersion"));
    assert!(refusal(revalidate(&args, true, &reporting("v", ""), &admission))
        .starts_with("reports no machineID"));
    match revalidate(&args, true, &reporting("v", "m"), &admission) {
        Vetting::Go(facts) => {
            assert_eq!(facts.name, "w");
            assert_eq!(facts.container_runtime_version.as_deref(), Some("v"));
            assert_eq!(facts.machine_id.as_deref(), Some("m"));
        }
        other => panic!("{other:?}"),
    }
}

#[test]
fn a_name_that_is_taken_is_not_a_failure_yet() {
    assert!(matches!(creation("j", Ok(())), Creation::Created));
    assert!(matches!(creation("j", Err(error(409))), Creation::Taken));
    match creation("j", Err(error(403))) {
        Creation::Refused { reason } => {
            assert_eq!(reason, "its job j could not be created: status 403")
        }
        other => panic!("{other:?}"),
    }
}

#[test]
fn satisfied_nodes_are_left_out() {
    let mut ops = NodeOps::new("p");
    ops.labelling = Some(NodeLabelling {
        key: "ready".to_string(),
        pending_value: "false".to_string(),
        instance: None,
    });
    ops.label_value = Some("true".to_string());
    let labelled = |name: &str, value: &str| {
        let mut labels = StringMap::new();
        labels.insert("ready".to_string(), value.to_string());
        Node {
            labels: Some(labels),
            ..node(name)
        }
    };
    let left = unsatisfied(
        &ops,
        vec![labelled("a", "true"), labelled("b", "false"), node("c")],
    );
    let names: Vec<_> = left.iter().filter_map(|n| n.name.as_deref()).collect();
    assert_eq!(names, vec!["b", "c"]);
}

#[test]
fn a_run_dispatches_to_what_is_left_to_do() {
    let mut args = Args::new("job.yaml".to_string(), "rollout".to_string());
    let mut ops = NodeOps::new("p");
    ops.labelling = Some(NodeLabelling {
        key: "k".to_string(),
        pending_value: "false".to_string(),
        instance: None,
    });
    ops.label_value = Some("true".to_string());
    let done = || {
        let mut labels = StringMap::new();
        labels.insert("k".to_string(), "true".to_string());
        Node {
            labels: Some(labels),
            ..node("done")
        }
    };

    assert!(matches!(plan(&args, &ops, vec![]), Plan::NothingSelected));
    match plan(&args, &ops, vec![done()]) {
        Plan::Roll { nodes, left_alone } => assert_eq!((nodes.len(), left_alone), (1, 0)),
        other => panic!("{other:?}"),
    }
    args.skip_satisfied_nodes = true;
    assert!(matches!(
        plan(&args, &ops, vec![done()]),
        Plan::AllSatisfied { selected: 1 }
    ));
    match plan(&args, &ops, vec![done(), node("open")]) {
        Plan::Roll { nodes, left_alone } => {
            assert_eq!(nodes[0].name.as_deref(), Some("open"));
            assert_eq!((nodes.len(), left_alone), (1, 1));
        }
        other => panic!("{other:?}"),
    }
}
