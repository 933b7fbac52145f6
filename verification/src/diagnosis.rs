//! What a Job's pods say about it: why it failed, or what it waits for. The Job's own status
//! holds no reason.

use crate::text;
use vstd::prelude::*;
use vstd::string::*;

verus! {

/// How a container ended.
#[derive(Debug)]
pub struct ExitRecord {
    pub code: i32,
    pub reason: Option<String>,
    /// What it left in its termination log.
    pub message: Option<String>,
}

/// A container of a pod, or one of its init containers.
#[derive(Debug)]
pub struct ContainerRecord {
    pub name: String,
    pub running: bool,
    /// Why it is not running yet, as a reason and a message.
    pub waiting: Option<(String, Option<String>)>,
    pub exit: Option<ExitRecord>,
}

/// A pod of a Job.
#[derive(Debug)]
pub struct PodReport {
    /// Why it has no node yet.
    pub unscheduled: Option<String>,
    /// The init containers, then the others.
    pub containers: Vec<ContainerRecord>,
}

/// A number that may be negative, in decimal.
pub open spec fn signed(n: int) -> Seq<char> {
    if n < 0 {
        "-"@ + text::decimal((0 - n) as nat)
    } else {
        text::decimal(n as nat)
    }
}

/// Writes a number that may be negative in decimal.
fn signed_number(n: i32) -> (r: String)
    ensures
        r@ == signed(n as int),
{
    if n < 0 {
        "-".to_string().concat(text::number((0 - n as i64) as u64).as_str())
    } else {
        text::number(n as u64)
    }
}

/// What stands behind a colon, where anything is to be said.
pub open spec fn detail_text(content: Option<Seq<char>>) -> Seq<char> {
    match content {
        Some(content) if text::trimmed(content).len() > 0 => ": "@ + text::trimmed(content),
        _ => Seq::empty(),
    }
}

/// Says what stands behind a colon.
fn say_detail(content: &Option<String>) -> (r: String)
    ensures
        r@ == detail_text(text::opt_text(*content)),
{
    match content {
        Some(content) => {
            let content: &str = text::trim(content.as_str());
            if content.is_empty() {
                String::new()
            } else {
                ": ".to_string().concat(content)
            }
        },
        None => String::new(),
    }
}

/// Whether a container failed.
pub open spec fn has_failed(container: ContainerRecord) -> bool {
    container.exit matches Some(exit) && exit.code != 0
}

/// The first container that failed, in the order of the pods and of their containers.
pub open spec fn first_failed(containers: Seq<ContainerRecord>) -> Option<ContainerRecord>
    decreases containers.len(),
{
    if containers.len() == 0 {
        None
    } else if has_failed(containers[0]) {
        Some(containers[0])
    } else {
        first_failed(containers.drop_first())
    }
}

/// The first container that failed, over all pods.
pub open spec fn first_failed_of(pods: Seq<PodReport>) -> Option<ContainerRecord>
    decreases pods.len(),
{
    if pods.len() == 0 {
        None
    } else if first_failed(pods[0].containers@) is Some {
        first_failed(pods[0].containers@)
    } else {
        first_failed_of(pods.drop_first())
    }
}

/// What is said of a container that failed: its exit code, and the message it left or else
/// the reason its runtime gives.
pub open spec fn exit_text(container: ContainerRecord) -> Seq<char> {
    match container.exit {
        Some(exit) => container.name@ + " exited "@ + signed(exit.code as int) + (
        if detail_text(text::opt_text(exit.message)).len() > 0 {
            detail_text(text::opt_text(exit.message))
        } else {
            detail_text(text::opt_text(exit.reason))
        }),
        None => container.name@,
    }
}

/// Says how a container failed.
fn say_exit(container: &ContainerRecord) -> (r: String)
    ensures
        r@ == exit_text(*container),
{
    match &container.exit {
        Some(exit) => {
            let message: String = say_detail(&exit.message);
            let detail: String = if message.as_str().is_empty() {
                say_detail(&exit.reason)
            } else {
                message
            };
            container.name.clone().concat(" exited ").concat(
                signed_number(exit.code).as_str(),
            ).concat(detail.as_str())
        },
        None => container.name.clone(),
    }
}

/// The reason of a Job's `Failed` condition, in brackets.
pub open spec fn bracketed(reason: Option<Seq<char>>) -> Seq<char> {
    match reason {
        Some(reason) if reason.len() > 0 => " ["@ + reason + "]"@,
        _ => Seq::empty(),
    }
}

/// Why a Job failed: what its first failing container left, or else what it was last seen
/// waiting for, followed by the Job's own reason.
pub open spec fn failure_text(
    pods: Option<Seq<PodReport>>,
    reason: Option<Seq<char>>,
    last_seen: Option<Seq<char>>,
) -> Seq<char> {
    let found = match pods {
        Some(pods) => first_failed_of(pods),
        None => None,
    };
    (match (found, last_seen) {
        (Some(container), _) => exit_text(container),
        (None, Some(waiting)) => "its pod never ran; it was last seen waiting: "@ + waiting,
        (None, None) => "its pod left no account of why"@,
    }) + bracketed(reason)
}

/// The place of the first container of a pod that failed.
fn find_failed(containers: &Vec<ContainerRecord>) -> (r: Option<&ContainerRecord>)
    ensures
        match r {
            Some(container) => first_failed(containers@) == Some(*container),
            None => first_failed(containers@) is None,
        },
{
    let mut i: usize = 0;
    assert(containers@.skip(0) =~= containers@);
    while i < containers.len()
        invariant
            i <= containers@.len(),
            first_failed(containers@) == first_failed(containers@.skip(i as int)),
        decreases containers@.len() - i,
    {
        let container: &ContainerRecord = &containers[i];
        let failed: bool = match &container.exit {
            Some(exit) => exit.code != 0,
            None => false,
        };
        assert(containers@.skip(i as int)[0] == *container);
        assert(containers@.skip(i as int).drop_first() =~= containers@.skip(i + 1));
        if failed {
            return Some(container);
        }
        i = i + 1;
    }
    None
}

/// Says why a Job failed, given its pods where they could be listed.
pub fn why_the_job_failed(
    pods: &Option<Vec<PodReport>>,
    reason: &Option<String>,
    last_seen: &Option<String>,
) -> (r: String)
    ensures
        r@ == failure_text(
            match *pods {
                Some(pods) => Some(pods@),
                None => None,
            },
            text::opt_text(*reason),
            text::opt_text(*last_seen),
        ),
{
    let mut said: Option<String> = None;
    if let Some(pods) = pods {
        let mut i: usize = 0;
        assert(pods@.skip(0) =~= pods@);
        while i < pods.len()
            invariant
                i <= pods@.len(),
                match said {
                    Some(said) => first_failed_of(pods@) matches Some(container) && said@
                        == exit_text(container),
                    None => first_failed_of(pods@) == first_failed_of(pods@.skip(i as int)),
                },
            decreases pods@.len() - i,
        {
            if said.is_none() {
                assert(pods@.skip(i as int)[0] == pods@[i as int]);
                assert(pods@.skip(i as int).drop_first() =~= pods@.skip(i + 1));
                if let Some(container) = find_failed(&pods[i].containers) {
                    said = Some(say_exit(container));
                }
            }
            i = i + 1;
        }
    }
    let why: String = match said {
        Some(said) => said,
        None => match last_seen {
            Some(waiting) => "its pod never ran; it was last seen waiting: ".to_string().concat(
                waiting.as_str(),
            ),
            None => "its pod left no account of why".to_string(),
        },
    };
    match reason {
        Some(reason) => {
            if reason.as_str().is_empty() {
                assert(why@ + Seq::<char>::empty() =~= why@);
                why
            } else {
                let tail: String = " [".to_string().concat(reason.as_str()).concat("]");
                why.concat(tail.as_str())
            }
        },
        None => {
            assert(why@ + Seq::<char>::empty() =~= why@);
            why
        },
    }
}

/// Whether a container of a pod runs.
pub open spec fn runs(pod: PodReport) -> bool {
    exists|i: int| 0 <= i < pod.containers@.len() && (#[trigger] pod.containers@[i]).running
}

/// What is said of a container that waits.
pub open spec fn waiting_text(container: ContainerRecord) -> Option<Seq<char>> {
    match container.waiting {
        Some((reason, message)) => Some(
            container.name@ + " is waiting: "@ + reason@ + detail_text(text::opt_text(message)),
        ),
        None => None,
    }
}

/// The first container that waits.
pub open spec fn first_waiting(containers: Seq<ContainerRecord>) -> Option<Seq<char>>
    decreases containers.len(),
{
    if containers.len() == 0 {
        None
    } else if waiting_text(containers[0]) is Some {
        waiting_text(containers[0])
    } else {
        first_waiting(containers.drop_first())
    }
}

/// What a pod waits for: a node, or its first container that does not start. A pod that
/// runs waits for nothing.
pub open spec fn pod_waits_for(pod: PodReport) -> Option<Seq<char>> {
    if runs(pod) {
        None
    } else {
        match pod.unscheduled {
            Some(why) => Some("its pod has no node yet"@ + detail_text(Some(why@))),
            None => first_waiting(pod.containers@),
        }
    }
}

/// What the pods of a Job wait for: the first of them that waits. One that runs is enough
/// for there to be nothing to say.
pub open spec fn pods_wait_for(pods: Seq<PodReport>) -> Option<Seq<char>>
    decreases pods.len(),
{
    if pods.len() == 0 {
        None
    } else if pod_waits_for(pods[0]) is Some {
        pod_waits_for(pods[0])
    } else {
        pods_wait_for(pods.drop_first())
    }
}

/// Whether any pod runs.
pub open spec fn any_runs(pods: Seq<PodReport>) -> bool {
    exists|i: int| 0 <= i < pods.len() && runs(#[trigger] pods[i])
}

/// What a Job waits for.
pub open spec fn job_waits_for(pods: Seq<PodReport>) -> Option<Seq<char>> {
    if any_runs(pods) {
        None
    } else if pods.len() == 0 {
        Some("no pod has been created for it"@)
    } else {
        pods_wait_for(pods)
    }
}

/// Whether a container of a pod runs.
fn is_running(pod: &PodReport) -> (r: bool)
    ensures
        r == runs(*pod),
{
    let mut i: usize = 0;
    while i < pod.containers.len()
        invariant
            i <= pod.containers@.len(),
            forall|j: int| 0 <= j < i ==> !(#[trigger] pod.containers@[j]).running,
        decreases pod.containers@.len() - i,
    {
        if pod.containers[i].running {
            return true;
        }
        i = i + 1;
    }
    false
}

/// Says what a pod that does not run waits for.
fn say_waiting(pod: &PodReport) -> (r: Option<String>)
    requires
        !runs(*pod),
    ensures
        text::opt_text(r) == pod_waits_for(*pod),
{
    if let Some(_) = &pod.unscheduled {
        let why: String = say_detail(&pod.unscheduled);
        return Some("its pod has no node yet".to_string().concat(why.as_str()));
    }
    let mut i: usize = 0;
    assert(pod.containers@.skip(0) =~= pod.containers@);
    while i < pod.containers.len()
        invariant
            i <= pod.containers@.len(),
            !runs(*pod),
            pod.unscheduled is None,
            first_waiting(pod.containers@) == first_waiting(pod.containers@.skip(i as int)),
        decreases pod.containers@.len() - i,
    {
        let container: &ContainerRecord = &pod.containers[i];
        assert(pod.containers@.skip(i as int)[0] == *container);
        assert(pod.containers@.skip(i as int).drop_first() =~= pod.containers@.skip(i + 1));
        if let Some(waiting) = &container.waiting {
            let detail: String = say_detail(&waiting.1);
            return Some(
                container.name.clone().concat(" is waiting: ").concat(waiting.0.as_str()).concat(
                    detail.as_str(),
                ),
            );
        }
        i = i + 1;
    }
    None
}

/// Says what a Job waits for, unless one of its pods runs.
pub fn what_the_job_waits_for(pods: &Vec<PodReport>) -> (r: Option<String>)
    ensures
        text::opt_text(r) == job_waits_for(pods@),
{
    let mut i: usize = 0;
    while i < pods.len()
        invariant
            i <= pods@.len(),
            forall|j: int| 0 <= j < i ==> !runs(#[trigger] pods@[j]),
        decreases pods@.len() - i,
    {
        if is_running(&pods[i]) {
            return None;
        }
        i = i + 1;
    }
    if pods.len() == 0 {
        return Some("no pod has been created for it".to_string());
    }
    let mut at: usize = 0;
    assert(pods@.skip(0) =~= pods@);
    while at < pods.len()
        invariant
            at <= pods@.len(),
            pods@.len() > 0,
            forall|j: int| 0 <= j < pods@.len() ==> !runs(#[trigger] pods@[j]),
            pods_wait_for(pods@) == pods_wait_for(pods@.skip(at as int)),
        decreases pods@.len() - at,
    {
        assert(pods@.skip(at as int)[0] == pods@[at as int]);
        assert(pods@.skip(at as int).drop_first() =~= pods@.skip(at + 1));
        if let Some(why) = say_waiting(&pods[at]) {
            return Some(why);
        }
        at = at + 1;
    }
    None
}

/// A failed Job is explained by the first of its containers that exited with something other
/// than zero, wherever it stands.
pub proof fn law_the_first_failed_container_explains(containers: Seq<ContainerRecord>, at: int)
    requires
        0 <= at < containers.len(),
        containers[at].exit is Some,
        containers[at].exit->0.code != 0,
        forall|j: int|
            0 <= j < at ==> ((#[trigger] containers[j]).exit is Some ==> containers[j].exit->0.code
                == 0),
    ensures
        first_failed(containers) == Some(containers[at]),
    decreases at,
{
    if at > 0 {
        let rest = containers.drop_first();
        assert(containers[0].exit is Some ==> containers[0].exit->0.code == 0);
        assert forall|j: int| 0 <= j < at - 1 implies ((#[trigger] rest[j]).exit is Some
            ==> rest[j].exit->0.code == 0) by {
            assert(rest[j] == containers[j + 1]);
        }
        law_the_first_failed_container_explains(rest, at - 1);
    }
}

/// Where no container failed, none explains it.
pub proof fn law_without_a_failed_container_none_explains(containers: Seq<ContainerRecord>)
    requires
        forall|j: int|
            0 <= j < containers.len() ==> ((#[trigger] containers[j]).exit is Some
                ==> containers[j].exit->0.code == 0),
    ensures
        first_failed(containers) is None,
    decreases containers.len(),
{
    if containers.len() > 0 {
        let rest = containers.drop_first();
        assert(containers[0].exit is Some ==> containers[0].exit->0.code == 0);
        assert forall|j: int| 0 <= j < rest.len() implies ((#[trigger] rest[j]).exit is Some
            ==> rest[j].exit->0.code == 0) by {
            assert(rest[j] == containers[j + 1]);
        }
        law_without_a_failed_container_none_explains(rest);
    }
}

/// The first pod with a failed container explains its Job.
pub proof fn law_the_first_failed_pod_explains(pods: Seq<PodReport>, at: int)
    requires
        0 <= at < pods.len(),
        first_failed(pods[at].containers@) is Some,
        forall|j: int| 0 <= j < at ==> first_failed((#[trigger] pods[j]).containers@) is None,
    ensures
        first_failed_of(pods) == first_failed(pods[at].containers@),
    decreases at,
{
    if at > 0 {
        let rest = pods.drop_first();
        assert(first_failed(pods[0].containers@) is None);
        assert forall|j: int| 0 <= j < at - 1 implies first_failed(
            (#[trigger] rest[j]).containers@,
        ) is None by {
            assert(rest[j] == pods[j + 1]);
        }
        law_the_first_failed_pod_explains(rest, at - 1);
    }
}

/// A Job with a running container waits for nothing, and one without a pod waits for one.
pub proof fn law_a_running_job_waits_for_nothing(pods: Seq<PodReport>)
    ensures
        (exists|i: int, k: int|
            0 <= i < pods.len() && 0 <= k < pods[i].containers@.len() && (
            #[trigger] pods[i].containers@[k]).running) ==> job_waits_for(pods) is None,
        pods.len() == 0 ==> job_waits_for(pods) is Some,
{
    if exists|i: int, k: int|
        0 <= i < pods.len() && 0 <= k < pods[i].containers@.len() && (
        #[trigger] pods[i].containers@[k]).running {
        let (i, k) = choose|i: int, k: int|
            0 <= i < pods.len() && 0 <= k < pods[i].containers@.len() && (
            #[trigger] pods[i].containers@[k]).running;
        assert(pods[i].containers@[k].running);
        assert(runs(pods[i]));
    }
}

/// What a container left in its termination log is preferred to the reason that the kubelet
/// gives, and both are said without white space around them.
pub proof fn law_the_last_words_are_preferred(
    container: ContainerRecord,
    exit: ExitRecord,
    message: Seq<char>,
)
    requires
        container.exit == Some(exit),
        exit.message is Some,
        message.len() > 0,
        text::is_bare(message),
        text::spells(exit.message->0@, message),
    ensures
        exit_text(container) == container.name@ + " exited "@ + signed(exit.code as int) + ": "@
            + message,
{
    text::law_trimming_gives_bare_words(exit.message->0@, message);
    assert(exit_text(container) =~= container.name@ + " exited "@ + signed(exit.code as int)
        + ": "@ + message);
}

/// Why a Job failed is what its first failed container says; without one, what it was last
/// seen waiting for; and the reason of the Job itself, where it gives one, comes last.
pub proof fn law_a_failure_is_explained_by_what_is_known(
    pods: Seq<PodReport>,
    last_seen: Option<Seq<char>>,
    reason: Option<Seq<char>>,
)
    ensures
        first_failed_of(pods) matches Some(container) ==> exit_text(container).is_prefix_of(
            failure_text(Some(pods), reason, last_seen),
        ),
        first_failed_of(pods) is None && last_seen is Some ==> failure_text(
            Some(pods),
            None,
            last_seen,
        ) == "its pod never ran; it was last seen waiting: "@ + last_seen->0,
        reason is Some && reason->0.len() > 0 ==> failure_text(Some(pods), reason, last_seen)
            == failure_text(Some(pods), None, last_seen) + " ["@ + reason->0 + "]"@,
{
    let whole = failure_text(Some(pods), reason, last_seen);
    if let Some(container) = first_failed_of(pods) {
        assert(whole.subrange(0, exit_text(container).len() as int) =~= exit_text(container));
    }
    assert(failure_text(Some(pods), None, last_seen) + bracketed(reason) =~= whole);
    if reason is Some && reason->0.len() > 0 {
        assert(whole =~= failure_text(Some(pods), None, last_seen) + " ["@ + reason->0 + "]"@);
    }
    if first_failed_of(pods) is None && last_seen is Some {
        assert(failure_text(Some(pods), None, last_seen)
            =~= "its pod never ran; it was last seen waiting: "@ + last_seen->0);
    }
}

/// A Job that runs nowhere waits for what its first waiting pod waits for.
pub proof fn law_the_first_waiting_pod_is_told(pods: Seq<PodReport>, at: int)
    requires
        0 <= at < pods.len(),
        pod_waits_for(pods[at]) is Some,
        forall|j: int| 0 <= j < at ==> pod_waits_for(#[trigger] pods[j]) is None,
    ensures
        pods_wait_for(pods) == pod_waits_for(pods[at]),
        !any_runs(pods) ==> job_waits_for(pods) == pod_waits_for(pods[at]),
    decreases at,
{
    if at > 0 {
        let rest = pods.drop_first();
        assert(pod_waits_for(pods[0]) is None);
        assert forall|j: int| 0 <= j < at - 1 implies pod_waits_for(#[trigger] rest[j]) is None by {
            assert(rest[j] == pods[j + 1]);
        }
        if !any_runs(pods) {
            assert forall|i: int| 0 <= i < rest.len() implies !runs(#[trigger] rest[i]) by {
                assert(rest[i] == pods[i + 1]);
            }
        }
        law_the_first_waiting_pod_is_told(rest, at - 1);
    }
}

/// A pod that has no node yet says so; one that has waits for its first waiting container,
/// by its reason.
pub proof fn law_a_pod_tells_what_it_waits_for(pod: PodReport, at: int)
    requires
        !runs(pod),
        pod.unscheduled is None,
        0 <= at < pod.containers@.len(),
        pod.containers@[at].waiting is Some,
        forall|j: int| 0 <= j < at ==> (#[trigger] pod.containers@[j]).waiting is None,
    ensures
        pod_waits_for(pod) is Some,
        (pod.containers@[at].name@ + " is waiting: "@).is_prefix_of(pod_waits_for(pod)->0),
{
    lemma_first_waiting(pod.containers@, at);
    let name = pod.containers@[at].name@ + " is waiting: "@;
    let said = pod_waits_for(pod)->0;
    assert(said.subrange(0, name.len() as int) =~= name);
}

/// The first container that waits is found.
proof fn lemma_first_waiting(containers: Seq<ContainerRecord>, at: int)
    requires
        0 <= at < containers.len(),
        containers[at].waiting is Some,
        forall|j: int| 0 <= j < at ==> (#[trigger] containers[j]).waiting is None,
    ensures
        first_waiting(containers) == waiting_text(containers[at]),
        waiting_text(containers[at]) is Some,
    decreases at,
{
    if at > 0 {
        let rest = containers.drop_first();
        assert(containers[0].waiting is None);
        assert forall|j: int| 0 <= j < at - 1 implies (#[trigger] rest[j]).waiting is None by {
            assert(rest[j] == containers[j + 1]);
        }
        lemma_first_waiting(rest, at - 1);
    }
}

} // verus!
