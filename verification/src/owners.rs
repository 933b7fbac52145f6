//! Who owns the per-node Jobs: this run, an earlier one, or another that is still working.

use crate::job;
use crate::job::TrackingLabels;
use crate::objects;
use crate::objects::{ApiError, JobRecord, OwnerModel, OwnerReference, PodRecord};
use crate::text;
use vstd::prelude::*;
use vstd::string::*;

verus! {

/// The kind alone is not enough: another API group is free to have a Job of its own.
pub open spec fn is_batch_job(reference: OwnerModel) -> bool {
    &&& reference.kind == "Job"@
    &&& text::split_at_each(reference.api_version, '/')[0] == "batch"@
}

/// Whether a reference is to a batch Job, of whatever version.
pub fn references_a_batch_job(reference: &OwnerReference) -> (r: bool)
    ensures
        r == is_batch_job(reference@),
{
    let parts: Vec<String> = text::split(reference.api_version.as_str(), '/');
    proof {
        lemma_split_has_parts(reference.api_version@, '/');
        assert(text::texts(parts@)[0] == parts@[0]@);
    }
    text::same(reference.kind.as_str(), "Job") && text::same(parts[0].as_str(), "batch")
}

/// Splitting a text gives at least one part.
proof fn lemma_split_has_parts(s: Seq<char>, c: char)
    ensures
        text::split_at_each(s, c).len() > 0,
{
}

/// The reference that the per-node Jobs get. Non-controller, so it does not interfere with
/// the Job controller's own ownership of pods.
pub open spec fn owner_like(reference: OwnerModel) -> OwnerModel {
    OwnerModel { controller: Some(false), block_owner_deletion: Some(false), ..reference }
}

/// What is said of an owner Job that cannot own anything.
pub open spec fn no_uid_text(name: Seq<char>) -> Seq<char> {
    "owner job "@ + name + " has no uid"@
}

/// The reference to an owner Job that was named.
pub fn owner_ref_for_job(name: &str, fetched: Result<JobRecord, ApiError>) -> (r: Result<
    OwnerReference,
    String,
>)
    ensures
        match fetched {
            Err(error) => r matches Err(why) && why@ == "failed to get owner job "@ + name@ + ": "@
                + error.message@,
            Ok(job) => match job.uid {
                None => r matches Err(why) && why@ == no_uid_text(name@),
                Some(uid) => r matches Ok(owner) && owner@ == (OwnerModel {
                    api_version: "batch/v1"@,
                    kind: "Job"@,
                    name: name@,
                    uid: uid@,
                    controller: Some(false),
                    block_owner_deletion: Some(false),
                }),
            },
        },
{
    let job: JobRecord = match fetched {
        Ok(job) => job,
        Err(error) => {
            return Err(
                "failed to get owner job ".to_string().concat(name).concat(": ").concat(
                    error.message.as_str(),
                ),
            );
        },
    };
    match job.uid {
        Some(uid) => Ok(
            OwnerReference {
                api_version: "batch/v1".to_string(),
                kind: "Job".to_string(),
                name: name.to_string(),
                uid,
                controller: Some(false),
                block_owner_deletion: Some(false),
            },
        ),
        None => Err("owner job ".to_string().concat(name).concat(" has no uid")),
    }
}

/// The first reference to a batch Job in a list, but for the Job of one UID.
pub open spec fn first_job_among(references: Seq<OwnerModel>, but: Option<Seq<char>>) -> Option<
    OwnerModel,
>
    decreases references.len(),
{
    if references.len() == 0 {
        None
    } else if is_batch_job(references[0]) && but != Some(references[0].uid) {
        Some(references[0])
    } else {
        first_job_among(references.drop_first(), but)
    }
}

/// The first reference to a batch Job in a list, but for the Job of one UID.
#[verifier::loop_isolation(false)]
fn find_job(references: &Option<Vec<OwnerReference>>, but: Option<&str>) -> (r: Option<
    OwnerReference,
>)
    ensures
        match r {
            Some(found) => first_job_among(
                objects::owner_models(*references),
                text::opt_str(but),
            ) == Some(found@),
            None => first_job_among(
                objects::owner_models(*references),
                text::opt_str(but),
            ) is None,
        },
{
    let list: &Vec<OwnerReference> = match references {
        Some(list) => list,
        None => {
            return None;
        },
    };
    let ghost all = objects::owner_models(*references);
    let ghost skip = text::opt_str(but);
    let mut i: usize = 0;
    assert(all.skip(0) =~= all);
    while i < list.len()
        invariant
            i <= list@.len(),
            first_job_among(all, skip) == first_job_among(all.skip(i as int), skip),
        decreases list@.len() - i,
    {
        assert(all.skip(i as int).drop_first() =~= all.skip(i + 1));
        assert(all.skip(i as int)[0] == list@[i as int]@);
        let other: bool = match but {
            Some(uid) => !text::same(list[i].uid.as_str(), uid),
            None => true,
        };
        if references_a_batch_job(&list[i]) && other {
            return Some(list[i].clone());
        }
        i = i + 1;
    }
    None
}

/// What is said of a pod that no Job created.
pub open spec fn unowned_text(pod_name: Seq<char>) -> Seq<char> {
    "pod "@ + pod_name
        + " is not owned by a Job, so there is nothing for the per-node Jobs to be garbage-collected with. --owner-job-from-pod is for a dispatcher running as a Job it cannot name, such as a CronJob's; anything else should either name its Job with --owner-job-name or pass neither"@
}

/// The Job that created a pod, as an owner. Read off the pod rather than by fetching the
/// Job: the uid there was written by the Job controller, so there is nothing a GET could
/// confirm about it.
pub fn owning_job_of_pod(pod: &PodRecord, pod_name: &str) -> (r: Result<OwnerReference, String>)
    ensures
        match first_job_among(objects::owner_models(pod.owner_references), None) {
            Some(found) => r matches Ok(owner) && owner@ == owner_like(found),
            None => r matches Err(why) && why@ == unowned_text(pod_name@),
        },
{
    match find_job(&pod.owner_references, None) {
        Some(found) => Ok(
            OwnerReference {
                api_version: found.api_version,
                kind: found.kind,
                name: found.name,
                uid: found.uid,
                controller: Some(false),
                block_owner_deletion: Some(false),
            },
        ),
        None => Err(
            "pod ".to_string().concat(pod_name).concat(
                " is not owned by a Job, so there is nothing for the per-node Jobs to be garbage-collected with. --owner-job-from-pod is for a dispatcher running as a Job it cannot name, such as a CronJob's; anything else should either name its Job with --owner-job-name or pass neither",
            ),
        ),
    }
}

/// The Job behind a per-node Job, where it is not ours. An orphan yields `None`: there is
/// no run behind it to stand aside for.
pub fn foreign_owner_of(job: &JobRecord, ours: &OwnerReference) -> (r: Option<OwnerReference>)
    ensures
        match r {
            Some(found) => first_job_among(
                objects::owner_models(job.owner_references),
                Some(ours.uid@),
            ) == Some(found@),
            None => first_job_among(
                objects::owner_models(job.owner_references),
                Some(ours.uid@),
            ) is None,
        },
{
    find_job(&job.owner_references, Some(ours.uid.as_str()))
}

/// Whose a Job with a name of this run's is.
#[derive(Debug, Clone, Copy, PartialEq, Eq, Structural)]
pub enum Disposition {
    NotOurs,
    Stale,
    Current,
}

/// Whether an object is owned by the one with this UID.
pub open spec fn owned_by_uid(references: Seq<OwnerModel>, uid: Seq<char>) -> bool {
    exists|i: int| 0 <= i < references.len() && (#[trigger] references[i]).uid == uid
}

/// Whose a Job is: the owner label cannot tell this run's Job from an earlier run's, since
/// it holds the name prefix, which is the same every time; an owner reference to this run
/// can.
pub open spec fn disposition_of(
    existing: JobRecord,
    owner_value: Seq<char>,
    owner_uid: Option<Seq<char>>,
    tracking: TrackingLabels,
) -> Disposition {
    if !job::is_owned_by(existing, tracking, owner_value) {
        Disposition::NotOurs
    } else {
        match owner_uid {
            None => Disposition::Current,
            Some(uid) => if owned_by_uid(objects::owner_models(existing.owner_references), uid) {
                Disposition::Current
            } else {
                Disposition::Stale
            },
        }
    }
}

/// The UID of an owner that a run may not have.
pub open spec fn uid_of_owner(owner: Option<&OwnerReference>) -> Option<Seq<char>> {
    match owner {
        Some(owner) => Some(owner.uid@),
        None => None,
    }
}

/// The owner label cannot tell this run's Job from an earlier run's: it holds the
/// name prefix, which is the same every time. An `ownerReference` to *this*
/// dispatcher can, and the distinction matters because a finished Job from the
/// previous run would otherwise be read as this one's result.
#[verifier::loop_isolation(false)]
pub fn job_disposition(
    existing: &JobRecord,
    owner_value: &str,
    owner: Option<&OwnerReference>,
    tracking: &TrackingLabels,
) -> (r: Disposition)
    ensures
        r == disposition_of(*existing, owner_value@, uid_of_owner(owner), *tracking),
{
    if !job::job_owned_by(existing, tracking, owner_value) {
        return Disposition::NotOurs;
    }
    // Without an owner of our own there is nothing to compare against.
    let owner: &OwnerReference = match owner {
        Some(owner) => owner,
        None => {
            return Disposition::Current;
        },
    };
    let ghost all = objects::owner_models(existing.owner_references);
    if let Some(list) = &existing.owner_references {
        let mut i: usize = 0;
        while i < list.len()
            invariant
                i <= list@.len(),
                all == objects::owner_models(Some(*list)),
                forall|j: int| 0 <= j < i ==> (#[trigger] all[j]).uid != owner.uid@,
            decreases list@.len() - i,
        {
            assert(all[i as int] == list@[i as int]@);
            if text::same(list[i].uid.as_str(), owner.uid.as_str()) {
                return Disposition::Current;
            }
            i = i + 1;
        }
    }
    Disposition::Stale
}

/// A Job of another name prefix is never adopted and never swept away, whoever owns it.
pub proof fn law_other_runs_jobs_are_never_taken(
    existing: JobRecord,
    owner_value: Seq<char>,
    owner_uid: Option<Seq<char>>,
    tracking: TrackingLabels,
)
    requires
        !job::is_owned_by(existing, tracking, owner_value),
    ensures
        disposition_of(existing, owner_value, owner_uid, tracking) == Disposition::NotOurs,
{
}

/// A Job that this run owns is never taken for an earlier run's leftover, and there is no
/// other run behind a Job that only this run owns.
pub proof fn law_own_jobs_are_never_swept(
    existing: JobRecord,
    owner_value: Seq<char>,
    ours: OwnerModel,
    tracking: TrackingLabels,
)
    requires
        objects::owner_models(existing.owner_references) == seq![ours],
    ensures
        disposition_of(existing, owner_value, Some(ours.uid), tracking) != Disposition::Stale,
        first_job_among(objects::owner_models(existing.owner_references), Some(ours.uid)) is None,
{
    let all = objects::owner_models(existing.owner_references);
    assert(all[0] == ours);
    reveal_with_fuel(first_job_among, 2);
}

/// Without an owner nothing is taken for an earlier run's leftover, so nothing is deleted.
pub proof fn law_without_an_owner_nothing_is_stale(
    existing: JobRecord,
    owner_value: Seq<char>,
    tracking: TrackingLabels,
)
    ensures
        disposition_of(existing, owner_value, None, tracking) != Disposition::Stale,
{
}

/// What to do about a Job that already has the name of one that is to be created.
#[derive(Debug)]
pub enum Adoption {
    /// It is this run's own.
    Adopt,
    /// It was left by an earlier run.
    Replace,
    /// It is neither, and why nothing is done about it.
    Refuse(String),
}

/// What is said of a Job that is not this run's.
pub open spec fn not_ours_text(name: Seq<char>, label: Seq<char>, value: Seq<char>) -> Seq<char> {
    "job "@ + name + " already exists but is not labeled "@ + label + "="@ + value
        + "; refusing to adopt a Job that is not this run's"@
}

/// What to do about a Job that has the name.
pub open spec fn adoption_gives(
    name: Seq<char>,
    fetched: Result<JobRecord, ApiError>,
    owner_value: Seq<char>,
    owner: Option<Seq<char>>,
    tracking: TrackingLabels,
    r: Adoption,
) -> bool {
    match fetched {
        Err(error) => r matches Adoption::Refuse(why) && why@
            == "failed to fetch the pre-existing job "@ + name + ": "@ + error.message@,
        Ok(existing) => match disposition_of(existing, owner_value, owner, tracking) {
            Disposition::NotOurs => r matches Adoption::Refuse(why) && why@ == not_ours_text(
                name,
                tracking.owner@,
                owner_value,
            ),
            Disposition::Stale => r is Replace,
            Disposition::Current => r is Adopt,
        },
    }
}

/// Job names derive from the node and the name prefix, so one that exists is either this
/// run's own (the dispatcher restarted) or one left by a previous run - and those need
/// opposite treatment.
pub fn adopt_or_replace(
    name: &str,
    fetched: Result<JobRecord, ApiError>,
    owner_value: &str,
    owner: Option<&OwnerReference>,
    tracking: &TrackingLabels,
) -> (r: Adoption)
    ensures
        adoption_gives(name@, fetched, owner_value@, uid_of_owner(owner), *tracking, r),
{
    let existing: JobRecord = match fetched {
        Ok(existing) => existing,
        Err(error) => {
            return Adoption::Refuse(
                "failed to fetch the pre-existing job ".to_string().concat(name).concat(": ").concat(
                    error.message.as_str(),
                ),
            );
        },
    };
    match job_disposition(&existing, owner_value, owner, tracking) {
        Disposition::NotOurs => Adoption::Refuse(
            "job ".to_string().concat(name).concat(" already exists but is not labeled ").concat(
                tracking.owner.as_str(),
            ).concat("=").concat(owner_value).concat(
                "; refusing to adopt a Job that is not this run's",
            ),
        ),
        Disposition::Stale => Adoption::Replace,
        Disposition::Current => Adoption::Adopt,
    }
}

/// The names of the Jobs on a page that an earlier run left behind.
pub open spec fn stale_among(
    jobs: Seq<JobRecord>,
    owner_value: Seq<char>,
    owner_uid: Seq<char>,
    tracking: TrackingLabels,
) -> Seq<Seq<char>>
    decreases jobs.len(),
{
    if jobs.len() == 0 {
        Seq::empty()
    } else {
        let rest = stale_among(jobs.drop_last(), owner_value, owner_uid, tracking);
        match jobs.last().name {
            Some(name) => if disposition_of(jobs.last(), owner_value, Some(owner_uid), tracking)
                == Disposition::Stale {
                rest.push(name@)
            } else {
                rest
            },
            None => rest,
        }
    }
}

/// The names of the Jobs on a page that an earlier run left behind.
pub fn stale_job_names(
    jobs: &[JobRecord],
    owner_value: &str,
    owner: &OwnerReference,
    tracking: &TrackingLabels,
) -> (r: Vec<String>)
    ensures
        text::texts(r@) == stale_among(jobs@, owner_value@, owner.uid@, *tracking),
{
    let mut names: Vec<String> = Vec::new();
    let mut i: usize = 0;
    assert(text::texts(names@) =~= stale_among(jobs@.take(0), owner_value@, owner.uid@, *tracking));
    while i < jobs.len()
        invariant
            i <= jobs@.len(),
            text::texts(names@) == stale_among(
                jobs@.take(i as int),
                owner_value@,
                owner.uid@,
                *tracking,
            ),
        decreases jobs@.len() - i,
    {
        let ghost before = names@;
        proof {
            assert(jobs@.take(i + 1).drop_last() =~= jobs@.take(i as int));
            assert(jobs@.take(i + 1).last() == jobs@[i as int]);
        }
        if let Some(name) = &jobs[i].name {
            match job_disposition(&jobs[i], owner_value, Some(owner), tracking) {
                Disposition::Stale => {
                    names.push(name.clone());
                    assert(text::texts(names@) =~= text::texts(before).push(name@));
                },
                _ => {},
            }
        }
        i = i + 1;
    }
    assert(jobs@.take(jobs@.len() as int) =~= jobs@);
    names
}

/// Whether a page still holds a Job that an earlier run left behind.
pub fn stale_job_exists(
    jobs: &[JobRecord],
    owner_value: &str,
    owner: &OwnerReference,
    tracking: &TrackingLabels,
) -> (r: bool)
    ensures
        r == exists|i: int|
            0 <= i < jobs@.len() && disposition_of(
                #[trigger] jobs@[i],
                owner_value@,
                Some(owner.uid@),
                *tracking,
            ) == Disposition::Stale,
{
    let mut i: usize = 0;
    while i < jobs.len()
        invariant
            i <= jobs@.len(),
            forall|j: int|
                0 <= j < i ==> disposition_of(
                    #[trigger] jobs@[j],
                    owner_value@,
                    Some(owner.uid@),
                    *tracking,
                ) != Disposition::Stale,
        decreases jobs@.len() - i,
    {
        match job_disposition(&jobs[i], owner_value, Some(owner), tracking) {
            Disposition::Stale => {
                return true;
            },
            _ => {},
        }
        i = i + 1;
    }
    false
}

/// The label selector that finds the Jobs of a name prefix.
pub fn owned_jobs_selector(tracking: &TrackingLabels, owner_value: &str) -> (r: String)
    ensures
        r@ == tracking.owner@ + "="@ + owner_value@,
{
    tracking.owner.clone().concat("=").concat(owner_value)
}

/// Whether a Job carries a label at a value.
pub open spec fn is_labelled(job: JobRecord, key: Seq<char>, value: Seq<char>) -> bool {
    job.labels matches Some(map) && map@.contains_key(key) && map@[key] == value
}

/// Whether a Job names an owner by its UID.
pub open spec fn names_owner(job: JobRecord, uid: Seq<char>) -> bool {
    job.owner_references matches Some(list) && exists|i: int|
        0 <= i < list@.len() && (#[trigger] list@[i]).uid@ == uid
}

/// Whose a Job is shows in its owner label and its owner references: without the label at the
/// run's value it is not the run's; with it, it is this run's where the run's Job is among
/// its owners, wherever in their list, and otherwise it was left by an earlier run. A run
/// without a Job of its own takes every Job with the label for its own.
pub proof fn law_a_job_belongs_to_whom_it_names(
    existing: JobRecord,
    owner_value: Seq<char>,
    owner_uid: Option<Seq<char>>,
    tracking: TrackingLabels,
)
    ensures
        disposition_of(existing, owner_value, owner_uid, tracking) == Disposition::NotOurs
            <==> !is_labelled(existing, tracking.owner@, owner_value),
        disposition_of(existing, owner_value, owner_uid, tracking) == Disposition::Current
            <==> is_labelled(existing, tracking.owner@, owner_value) && (owner_uid matches Some(uid)
            ==> names_owner(existing, uid)),
{
    if let Some(uid) = owner_uid {
        let all = objects::owner_models(existing.owner_references);
        if let Some(list) = existing.owner_references {
            assert(forall|i: int| 0 <= i < list@.len() ==> #[trigger] all[i] == list@[i]@);
            if owned_by_uid(all, uid) {
                let i = choose|i: int| 0 <= i < all.len() && (#[trigger] all[i]).uid == uid;
                assert(list@[i].uid@ == uid);
            }
            if names_owner(existing, uid) {
                let i = choose|i: int| 0 <= i < list@.len() && (#[trigger] list@[i]).uid@ == uid;
                assert(all[i].uid == uid);
            }
        }
    }
}

/// What a Job that has the name of one to be created is met with: this run's own is adopted,
/// an earlier run's is replaced, and anyone else's, or one that could not be read, is
/// refused.
pub proof fn law_a_taken_name_is_met_by_whose_job_has_it(
    name: Seq<char>,
    fetched: Result<JobRecord, ApiError>,
    owner_value: Seq<char>,
    owner: Option<Seq<char>>,
    tracking: TrackingLabels,
    r: Adoption,
)
    requires
        adoption_gives(name, fetched, owner_value, owner, tracking, r),
    ensures
        r is Adopt <==> fetched is Ok && is_labelled(fetched->Ok_0, tracking.owner@, owner_value)
            && (owner matches Some(uid) ==> names_owner(fetched->Ok_0, uid)),
        r is Replace <==> fetched is Ok && is_labelled(fetched->Ok_0, tracking.owner@, owner_value)
            && (owner is Some && !names_owner(fetched->Ok_0, owner->0)),
{
    if let Ok(existing) = fetched {
        law_a_job_belongs_to_whom_it_names(existing, owner_value, owner, tracking);
    }
}

/// The Jobs that are swept away are the named ones that carry the run's owner label without
/// naming the run's Job, all of them and no others.
pub proof fn law_exactly_the_stale_jobs_are_swept(
    jobs: Seq<JobRecord>,
    owner_value: Seq<char>,
    owner_uid: Seq<char>,
    tracking: TrackingLabels,
    name: Seq<char>,
)
    ensures
        stale_among(jobs, owner_value, owner_uid, tracking).contains(name) <==> exists|i: int|
            {
                &&& 0 <= i < jobs.len()
                &&& (#[trigger] jobs[i]).name is Some
                &&& jobs[i].name->0@ == name
                &&& is_labelled(jobs[i], tracking.owner@, owner_value)
                &&& !names_owner(jobs[i], owner_uid)
            },
    decreases jobs.len(),
{
    let all = stale_among(jobs, owner_value, owner_uid, tracking);
    if jobs.len() > 0 {
        let rest = jobs.drop_last();
        let before = stale_among(rest, owner_value, owner_uid, tracking);
        let last = jobs[jobs.len() - 1];
        law_exactly_the_stale_jobs_are_swept(rest, owner_value, owner_uid, tracking, name);
        law_a_job_belongs_to_whom_it_names(last, owner_value, Some(owner_uid), tracking);
        assert(jobs.last() == last);
        assert(forall|i: int| 0 <= i < rest.len() ==> #[trigger] rest[i] == jobs[i]);
        let hit = last.name is Some && is_labelled(last, tracking.owner@, owner_value)
            && !names_owner(last, owner_uid);
        if before.contains(name) {
            let k = choose|k: int| 0 <= k < before.len() && before[k] == name;
            assert(all[k] == name);
            let i = choose|i: int|
                {
                    &&& 0 <= i < rest.len()
                    &&& (#[trigger] rest[i]).name is Some
                    &&& rest[i].name->0@ == name
                    &&& is_labelled(rest[i], tracking.owner@, owner_value)
                    &&& !names_owner(rest[i], owner_uid)
                };
            assert(jobs[i] == rest[i]);
        } else if hit && last.name->0@ == name {
            assert(all[all.len() - 1] == name);
        } else {
            if all.contains(name) {
                let k = choose|k: int| 0 <= k < all.len() && all[k] == name;
                if k < before.len() {
                    assert(before[k] == name);
                }
            }
            assert forall|i: int| 0 <= i < jobs.len() && (#[trigger] jobs[i]).name is Some
                && jobs[i].name->0@ == name && is_labelled(jobs[i], tracking.owner@, owner_value)
                implies names_owner(jobs[i], owner_uid) by {
                if i < rest.len() {
                    assert(rest[i] == jobs[i]);
                }
            }
        }
    }
}

/// A batch Job is told by its kind and by the group of its API version, whatever the version
/// is.
pub proof fn law_batch_jobs_are_told_by_their_group(reference: OwnerModel, version: Seq<char>)
    requires
        reference.kind == "Job"@,
    ensures
        reference.api_version == "batch/"@ + version ==> is_batch_job(reference),
        is_batch_job(reference) ==> reference.api_version == "batch"@ || "batch/"@.is_prefix_of(
            reference.api_version,
        ),
{
    reveal_strlit("batch/");
    reveal_strlit("batch");
    let s = reference.api_version;
    let parts = text::split_at_each(s, '/');
    text::lemma_first_at(s, '/');
    let k = text::first_at(s, '/');
    assert(parts[0] =~= s.take(k));
    if s == "batch/"@ + version {
        assert(s[5] == '/');
        assert(forall|j: int| 0 <= j < 5 ==> s[j] == "batch/"@[j]);
        assert(k == 5);
        assert(s.take(5) =~= "batch"@);
    }
    if is_batch_job(reference) {
        if k < s.len() {
            assert(k == 5);
            assert(s.subrange(0, 6) =~= "batch/"@) by {
                assert forall|j: int| 0 <= j < 5 implies s[j] == "batch"@[j] by {
                    assert(s.take(k)[j] == s[j]);
                }
            }
        } else {
            assert(s.take(k) =~= s);
        }
    }
}

/// What owns something else is no batch Job.
pub proof fn law_only_jobs_are_batch_jobs(reference: OwnerModel)
    requires
        reference.kind != "Job"@,
    ensures
        !is_batch_job(reference),
{
}

/// The Job behind a list of owners is the first batch Job among them that is not the one to
/// be left out, wherever in the list it stands.
pub proof fn law_the_first_other_job_is_found(
    references: Seq<OwnerModel>,
    but: Option<Seq<char>>,
    at: int,
)
    requires
        0 <= at < references.len(),
        is_batch_job(references[at]),
        but != Some(references[at].uid),
        forall|j: int|
            0 <= j < at ==> !is_batch_job(#[trigger] references[j]) || but == Some(
                references[j].uid,
            ),
    ensures
        first_job_among(references, but) == Some(references[at]),
    decreases at,
{
    if at > 0 {
        let rest = references.drop_first();
        assert(!is_batch_job(references[0]) || but == Some(references[0].uid));
        assert forall|j: int| 0 <= j < at - 1 implies !is_batch_job(#[trigger] rest[j]) || but
            == Some(rest[j].uid) by {
            assert(rest[j] == references[j + 1]);
        }
        law_the_first_other_job_is_found(rest, but, at - 1);
    }
}

/// Whatever is found behind a list of owners is a batch Job of the list, and not the one to
/// be left out.
pub proof fn law_what_is_found_is_another_job(references: Seq<OwnerModel>, but: Option<Seq<char>>)
    ensures
        first_job_among(references, but) matches Some(found) ==> references.contains(found)
            && is_batch_job(found) && but != Some(found.uid),
    decreases references.len(),
{
    if references.len() > 0 && !(is_batch_job(references[0]) && but != Some(references[0].uid)) {
        let rest = references.drop_first();
        law_what_is_found_is_another_job(rest, but);
        if let Some(found) = first_job_among(rest, but) {
            let i = choose|i: int| 0 <= i < rest.len() && rest[i] == found;
            assert(references[i + 1] == found);
        }
    } else if references.len() > 0 {
        assert(references[0] == references[0]);
    }
}

/// The per-node Jobs name their owner without letting it be their controller or hold up its
/// deletion, and as the same object in every other way.
pub proof fn law_owners_are_named_as_they_are(reference: OwnerModel)
    ensures
        owner_like(reference).uid == reference.uid,
        owner_like(reference).name == reference.name,
        owner_like(reference).kind == reference.kind,
        owner_like(reference).api_version == reference.api_version,
        owner_like(reference).controller == Some(false),
        owner_like(reference).block_owner_deletion == Some(false),
{
}

} // verus!
