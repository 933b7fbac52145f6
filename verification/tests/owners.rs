use k8s_job_dispatcher::job::{
    interpret_status, job_name, sanitize_label_value, sanitize_node, JobOutcome, TrackingLabels,
};
use k8s_job_dispatcher::labels::StringMap;
use k8s_job_dispatcher::objects::{ApiError, Condition, JobRecord, OwnerReference, PodRecord};
use k8s_job_dispatcher::owners::{
    adopt_or_replace, foreign_owner_of, job_disposition, owned_jobs_selector, owner_ref_for_job,
    owning_job_of_pod, stale_job_exists, stale_job_names, Adoption, Disposition,
};
use k8s_job_dispatcher::takeover::{
    ClearStep, Clearing, LiveRunSearch, ReplaceStep, Replacement, SearchStep, Sweep,
};

fn owner(uid: &str) -> OwnerReference {
    OwnerReference {
        uid: uid.to_string(),
        name: "rollout-install".to_string(),
        kind: "Job".to_string(),
        api_version: "batch/v1".to_string(),
        ..Default::default()
    }
}

fn existing_job(owner_label: &str, owned_by: Option<&OwnerReference>) -> JobRecord {
    let mut labels = StringMap::new();
    labels.insert(TrackingLabels::default().owner, owner_label.to_string());
    JobRecord {
        name: Some("rollout-install-node1".to_string()),
        labels: Some(labels),
        owner_references: owned_by.map(|reference| vec![reference.clone()]),
        ..Default::default()
    }
}

fn disposition_of(
    existing: &JobRecord,
    owner_value: &str,
    owner: Option<&OwnerReference>,
) -> Disposition {
    job_disposition(existing, owner_value, owner, &TrackingLabels::default())
}

fn error(code: u16) -> ApiError {
    ApiError {
        code: Some(code),
        message: format!("status {code}"),
    }
}

fn with_condition(type_: &str, status: &str) -> JobRecord {
    JobRecord {
        conditions: Some(vec![Condition {
            type_: type_.to_string(),
            status: status.to_string(),
        }]),
        ..Default::default()
    }
}

#[test]
fn a_job_from_another_run_is_never_adopted() {
    let existing = existing_job("someone-else", Some(&owner("uid-1")));
    assert_eq!(
        disposition_of(&existing, "rollout-install", Some(&owner("uid-1"))),
        Disposition::NotOurs
    );
}

#[test]
fn a_job_from_an_earlier_run_is_replaced() {
    let existing = existing_job("rollout-install", Some(&owner("uid-old")));
    assert_eq!(
        disposition_of(&existing, "rollout-install", Some(&owner("uid-new"))),
        Disposition::Stale
    );

    let orphan = existing_job("rollout-install", None);
    assert_eq!(
        disposition_of(&orphan, "rollout-install", Some(&owner("uid-new"))),
        Disposition::Stale
    );
}

#[test]
fn this_runs_own_job_is_adopted() {
    let existing = existing_job("rollout-install", Some(&owner("uid-1")));
    assert_eq!(
        disposition_of(&existing, "rollout-install", Some(&owner("uid-1"))),
        Disposition::Current
    );

    // Outside a Helm hook there is no owner, so the label is all there is.
    let existing = existing_job("rollout-install", None);
    assert_eq!(
        disposition_of(&existing, "rollout-install", None),
        Disposition::Current
    );
}

fn pod_owned_by(references: &[OwnerReference]) -> PodRecord {
    PodRecord {
        owner_references: Some(references.to_vec()),
    }
}

fn controller(kind: &str, api_version: &str) -> OwnerReference {
    OwnerReference {
        uid: "uid-of-the-run".to_string(),
        name: "rollout-reconcile-29283840".to_string(),
        kind: kind.to_string(),
        api_version: api_version.to_string(),
        controller: Some(true),
        block_owner_deletion: Some(true),
    }
}

#[test]
fn the_job_that_created_the_pod_becomes_the_owner() {
    let pod = pod_owned_by(&[controller("Job", "batch/v1")]);
    let owner = owning_job_of_pod(&pod, "rollout-reconcile-29283840-abcde").unwrap();

    assert_eq!(owner.name, "rollout-reconcile-29283840");
    assert_eq!(owner.uid, "uid-of-the-run");
    // Never a controller reference, whatever the pod's own says.
    assert_eq!(owner.controller, Some(false));
    assert_eq!(owner.block_owner_deletion, Some(false));
}

#[test]
fn a_pod_no_job_created_has_no_owner_to_offer() {
    for pod in [
        pod_owned_by(&[]),
        pod_owned_by(&[controller("ReplicaSet", "apps/v1")]),
        pod_owned_by(&[controller("Job", "example.com/v1")]),
        PodRecord::default(),
    ] {
        assert!(owning_job_of_pod(&pod, "some-pod").is_err());
    }
}

#[test]
fn the_owning_job_is_found_among_other_references() {
    let pod = pod_owned_by(&[
        controller("ReplicaSet", "apps/v1"),
        controller("Job", "batch/v1"),
    ]);

    assert_eq!(
        owning_job_of_pod(&pod, "some-pod").unwrap().name,
        "rollout-reconcile-29283840"
    );
}

#[test]
fn a_job_this_run_owns_has_no_other_run_behind_it() {
    let ours = owner("uid-1");
    assert!(foreign_owner_of(&existing_job("rollout-install", Some(&ours)), &ours).is_none());
}

#[test]
fn a_job_owned_by_another_run_names_it() {
    let theirs = OwnerReference {
        name: "rollout-install-dispatcher".to_string(),
        ..owner("uid-theirs")
    };
    let found = foreign_owner_of(
        &existing_job("rollout-install", Some(&theirs)),
        &owner("uid-ours"),
    );

    assert_eq!(
        found.map(|reference| reference.name).as_deref(),
        Some("rollout-install-dispatcher")
    );
}

#[test]
fn a_job_with_nobody_behind_it_is_the_sweeps_to_take() {
    let outsider = OwnerReference {
        api_version: "example.com/v1".to_string(),
        ..owner("uid-theirs")
    };
    for job in [
        existing_job("rollout-install", None),
        existing_job("rollout-install", Some(&outsider)),
    ] {
        assert!(foreign_owner_of(&job, &owner("uid-ours")).is_none());
    }
}

#[test]
fn an_owner_that_was_named_has_to_have_a_uid() {
    let found = JobRecord {
        uid: Some("uid-1".to_string()),
        ..Default::default()
    };
    let owner = owner_ref_for_job("driver", Ok(found)).unwrap();
    assert_eq!(owner.api_version, "batch/v1");
    assert_eq!(owner.kind, "Job");
    assert_eq!(owner.name, "driver");
    assert_eq!(owner.uid, "uid-1");
    assert_eq!(owner.controller, Some(false));

    assert_eq!(
        owner_ref_for_job("driver", Ok(JobRecord::default())).unwrap_err(),
        "owner job driver has no uid"
    );
    assert_eq!(
        owner_ref_for_job("driver", Err(error(403))).unwrap_err(),
        "failed to get owner job driver: status 403"
    );
}

#[test]
fn a_taken_name_is_adopted_replaced_or_refused() {
    let tracking = TrackingLabels::default();
    let ours = owner("uid-1");
    let decide = |existing| adopt_or_replace("j", existing, "run", Some(&ours), &tracking);

    assert!(matches!(
        decide(Ok(existing_job("run", Some(&ours)))),
        Adoption::Adopt
    ));
    assert!(matches!(
        decide(Ok(existing_job("run", None))),
        Adoption::Replace
    ));
    match decide(Ok(existing_job("other", Some(&ours)))) {
        Adoption::Refuse(why) => assert_eq!(
            why,
            "job j already exists but is not labeled k8s-job-dispatcher/owner=run; refusing to \
             adopt a Job that is not this run's"
        ),
        other => panic!("{other:?}"),
    }
    match decide(Err(error(500))) {
        Adoption::Refuse(why) => {
            assert_eq!(why, "failed to fetch the pre-existing job j: status 500")
        }
        other => panic!("{other:?}"),
    }
}

#[test]
fn leftovers_are_listed_by_name() {
    let tracking = TrackingLabels::default();
    let ours = owner("uid-1");
    let mut nameless = existing_job("run", None);
    nameless.name = None;
    let jobs = [
        existing_job("run", Some(&ours)),
        existing_job("run", Some(&owner("uid-old"))),
        nameless,
        existing_job("other", None),
    ];
    assert_eq!(
        stale_job_names(&jobs, "run", &ours, &tracking),
        vec!["rollout-install-node1".to_string()]
    );
    assert!(stale_job_exists(&jobs, "run", &ours, &tracking));
    assert!(!stale_job_exists(&jobs[..1], "run", &ours, &tracking));
    assert_eq!(
        owned_jobs_selector(&tracking, "run"),
        "k8s-job-dispatcher/owner=run"
    );
}

#[test]
fn a_job_is_over_only_when_a_condition_says_so() {
    assert_eq!(
        interpret_status(&with_condition("Complete", "True")),
        JobOutcome::Succeeded
    );
    assert_eq!(
        interpret_status(&with_condition("Failed", "True")),
        JobOutcome::Failed
    );
    assert_eq!(
        interpret_status(&with_condition("Failed", "False")),
        JobOutcome::Running
    );
    assert_eq!(
        interpret_status(&with_condition("Suspended", "True")),
        JobOutcome::Running
    );
    assert_eq!(interpret_status(&JobRecord::default()), JobOutcome::Running);
}

fn read_back(uid: &str, over: bool) -> JobRecord {
    let mut found = if over {
        with_condition("Complete", "True")
    } else {
        JobRecord::default()
    };
    found.uid = Some(uid.to_string());
    found
}

#[test]
fn a_live_run_is_found_behind_its_jobs() {
    let ours = owner("uid-ours");
    let page = [
        existing_job("run", Some(&ours)),
        existing_job("run", Some(&owner("uid-a"))),
        existing_job("run", Some(&owner("uid-a"))),
        existing_job("run", Some(&owner("uid-b"))),
    ];

    let mut search = LiveRunSearch::new(&ours);
    assert!(matches!(
        search.page(&page, Some("next".to_string())),
        SearchStep::Ask { .. }
    ));
    // The first is over, so the second is asked about; each once.
    assert!(matches!(
        search.answer(Ok(read_back("uid-a", true))),
        SearchStep::Ask { .. }
    ));
    match search.answer(Ok(read_back("uid-b", false))) {
        SearchStep::Holder { name } => assert_eq!(name, "rollout-install"),
        other => panic!("{other:?}"),
    }
}

#[test]
fn leftovers_of_ended_runs_hold_nothing() {
    let ours = owner("uid-ours");
    let mut search = LiveRunSearch::new(&ours);
    let page = [
        existing_job("run", Some(&owner("uid-gone"))),
        existing_job("run", Some(&owner("uid-reused"))),
    ];
    assert!(matches!(
        search.page(&page, Some("more".to_string())),
        SearchStep::Ask { .. }
    ));
    assert!(matches!(search.answer(Err(error(404))), SearchStep::Ask { .. }));
    // The name was reused by a later Job, which is running.
    match search.answer(Ok(read_back("uid-later", false))) {
        SearchStep::List { token } => assert_eq!(token, "more"),
        other => panic!("{other:?}"),
    }
    // An empty token ends the list as a missing one does.
    assert!(matches!(
        search.page(&page, Some(String::new())),
        SearchStep::Nobody
    ));
}

#[test]
fn a_run_that_cannot_be_asked_about_stops_the_search() {
    let ours = owner("uid-ours");
    let mut search = LiveRunSearch::new(&ours);
    assert!(matches!(
        search.page(&[existing_job("run", Some(&owner("uid-a")))], None),
        SearchStep::Ask { .. }
    ));
    match search.answer(Err(error(403))) {
        SearchStep::Fail(why) => {
            assert!(why.starts_with("failed to read the Job rollout-install that owns"));
            assert!(why.ends_with("stand aside: status 403"), "{why}");
        }
        other => panic!("{other:?}"),
    }
}

#[test]
fn stale_jobs_are_deleted_a_few_at_a_time() {
    let names: Vec<String> = (0..20).map(|i| format!("job-{i}")).collect();
    let mut sweep = Sweep::new(names);
    let mut started = Vec::new();
    while let Some(name) = sweep.next() {
        started.push(name);
    }
    assert_eq!(started.len(), 16);
    assert_eq!(started[15], "job-15");
    assert!(!sweep.is_done());

    assert!(sweep.deleted("job-0", Ok(())).is_ok());
    assert!(sweep.deleted("job-1", Err(error(404))).is_ok());
    assert_eq!(
        sweep.deleted("job-2", Err(error(500))).unwrap_err(),
        "failed to delete the stale per-node job job-2: status 500"
    );
    let mut more = 0;
    while sweep.next().is_some() {
        more += 1;
    }
    assert_eq!(more, 3);
    for i in 0..16 {
        assert!(sweep.deleted(&format!("job-{i}"), Ok(())).is_ok());
        sweep.next();
    }
    assert!(sweep.deleted("job-19", Ok(())).is_ok());
    assert!(sweep.is_done());
}

#[test]
fn stale_jobs_that_do_not_go_stop_the_run() {
    let mut clearing = Clearing::new();
    assert!(matches!(clearing.looked(false), ClearStep::Clear));
    for _ in 0..29 {
        assert!(matches!(clearing.looked(true), ClearStep::Wait));
        assert!(matches!(clearing.waited(), ClearStep::Look));
    }
    assert!(matches!(clearing.looked(true), ClearStep::Wait));
    match clearing.waited() {
        ClearStep::Fail(why) => assert_eq!(
            why,
            "stale per-node Jobs were still terminating after 60s; refusing to start more Jobs \
             beyond the configured parallelism"
        ),
        other => panic!("{other:?}"),
    }
}

#[test]
fn a_stale_job_is_recreated_once_its_name_is_free() {
    let mut replacement = Replacement::new("j");
    assert!(matches!(replacement.deleted(Err(error(404))), ReplaceStep::Create));
    for _ in 0..29 {
        assert!(matches!(
            replacement.created(Err(error(409))),
            ReplaceStep::Wait
        ));
        assert!(matches!(replacement.waited(), ReplaceStep::Create));
    }
    assert!(matches!(
        replacement.created(Err(error(409))),
        ReplaceStep::Wait
    ));
    match replacement.waited() {
        ReplaceStep::Fail(why) => assert_eq!(
            why,
            "the stale job j was still being deleted 60s after it was asked to go; giving up on \
             recreating it"
        ),
        other => panic!("{other:?}"),
    }

    let mut replacement = Replacement::new("j");
    assert!(matches!(replacement.deleted(Ok(())), ReplaceStep::Create));
    assert!(matches!(replacement.created(Ok(())), ReplaceStep::Done));
    match replacement.created(Err(error(403))) {
        ReplaceStep::Fail(why) => assert_eq!(why, "failed to recreate the job j: status 403"),
        other => panic!("{other:?}"),
    }
    match Replacement::new("j").deleted(Err(error(403))) {
        ReplaceStep::Fail(why) => assert_eq!(why, "failed to delete the stale job j: status 403"),
        other => panic!("{other:?}"),
    }
}

#[test]
fn a_job_is_named_after_its_prefix_and_node() {
    assert_eq!(job_name("rollout-install", "node1"), "rollout-install-node1");
    // Sanitizing changes it, so it carries a hash.
    let dotted = job_name("rollout-install", "node1.example.com");
    assert!(dotted.starts_with("rollout-install-node1-example-com-"), "{dotted}");
    assert_ne!(dotted, job_name("rollout-install", "node1-example.com"));
    // Two long names that start alike stay apart, and fit.
    let long = "n".repeat(70);
    let one = job_name("p", &format!("{long}a"));
    let other = job_name("p", &format!("{long}b"));
    assert_eq!(one.len(), 63);
    assert_ne!(one, other);
    // So do two long prefixes.
    assert_ne!(
        job_name(&format!("{long}a"), "w"),
        job_name(&format!("{long}b"), "w")
    );
    assert!(job_name("", "").starts_with("job-"));
}

#[test]
fn names_are_sanitized() {
    assert_eq!(sanitize_node("Worker.Example.COM"), "worker-example-com");
    assert_eq!(sanitize_node("--a_b--"), "a-b");
    assert_eq!(sanitize_label_value("my release!"), "my-release");
    assert_eq!(sanitize_label_value("_v1.2_x-"), "v1.2_x");
    assert_eq!(sanitize_label_value(&"a".repeat(80)).len(), 63);
}
