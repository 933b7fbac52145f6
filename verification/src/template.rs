//! The Job template that is cloned per node.

use crate::node_filter;
use crate::node_filter::{PodAdmission, Toleration, TolerationModel};
use vstd::prelude::*;

verus! {

#[verifier::external_type_specification]
#[verifier::external_body]
pub struct ExJob(k8s_openapi::api::batch::v1::Job);

#[verifier::external_type_specification]
#[verifier::external_body]
pub struct ExYamlError(serde_yaml::Error);

/// What decides, in the pod spec of a template, which nodes its pods may run on.
#[derive(Debug)]
pub struct PodFields {
    pub tolerations: Option<Vec<Toleration>>,
    pub host_network: Option<bool>,
}

/// What decides, in the pod spec of a template, which nodes its pods may run on.
pub ghost struct PodFieldsModel {
    pub tolerations: Option<Seq<TolerationModel>>,
    pub host_network: Option<bool>,
}

impl View for PodFields {
    type V = PodFieldsModel;

    open spec fn view(&self) -> PodFieldsModel {
        PodFieldsModel {
            tolerations: match self.tolerations {
                Some(list) => Some(node_filter::toleration_models(list@)),
                None => None,
            },
            host_network: self.host_network,
        }
    }
}

/// The view of a pod spec that may be missing.
pub open spec fn fields_view(fields: Option<PodFields>) -> Option<PodFieldsModel> {
    match fields {
        Some(fields) => Some(fields@),
        None => None,
    }
}

/// Whether a text is the YAML of a batch/v1 Job, and the deciding fields of its pod spec
/// where it has one.
pub uninterp spec fn yaml_job(content: Seq<char>) -> Option<Option<PodFieldsModel>>;

/// The Job that a text is the YAML of, where it is one.
pub uninterp spec fn yaml_template(content: Seq<char>) -> k8s_openapi::api::batch::v1::Job;

/// `serde_yaml::from_str` into a Job: whether the text is one, which Job it is, and the
/// tolerations and the host network of its pod spec beside it, where it has one. What else
/// the Job holds is left to the name.
#[verifier::external_body]
fn parse_job(content: &str) -> (r: Result<
    (k8s_openapi::api::batch::v1::Job, Option<PodFields>),
    serde_yaml::Error,
>)
    ensures
        match r {
            Ok(parsed) => parsed.0 == yaml_template(content@) && yaml_job(content@) == Some(
                fields_view(parsed.1),
            ),
            Err(_) => yaml_job(content@) is None,
        },
{
    let job: k8s_openapi::api::batch::v1::Job = serde_yaml::from_str(content)?;
    let pod = job.spec.as_ref().and_then(|spec| spec.template.spec.as_ref());
    let fields = pod.map(|pod| PodFields {
        tolerations: pod.tolerations.clone().map(|list| list.into_iter().map(|t| Toleration {
            key: t.key,
            operator: t.operator,
            value: t.value,
            effect: t.effect,
            toleration_seconds: t.toleration_seconds,
        }).collect()),
        host_network: pod.host_network,
    });
    Ok((job, fields))
}

/// A text that is no Job.
#[derive(Debug)]
pub struct TemplateError {
    pub cause: serde_yaml::Error,
}

/// The Job that is cloned per node, and what decides which nodes it may run on.
#[derive(Debug)]
pub struct JobTemplate {
    job: k8s_openapi::api::batch::v1::Job,
    pod: Option<PodFields>,
}

impl JobTemplate {
    /// The deciding fields of the pod spec.
    pub closed spec fn pod_fields(self) -> Option<PodFieldsModel> {
        fields_view(self.pod)
    }

    /// Reads a template.
    pub fn parse(content: &str) -> (r: Result<Self, TemplateError>)
        ensures
            match r {
                Ok(template) => template.job_value() == yaml_template(content@) && yaml_job(
                    content@,
                ) == Some(template.pod_fields()),
                Err(_) => yaml_job(content@) is None,
            },
    {
        match parse_job(content) {
            Ok((job, pod)) => Ok(JobTemplate { job, pod }),
            Err(cause) => Err(TemplateError { cause }),
        }
    }

    /// The Job itself.
    pub closed spec fn job_value(self) -> k8s_openapi::api::batch::v1::Job {
        self.job
    }

    /// The Job itself.
    pub fn job(&self) -> (r: &k8s_openapi::api::batch::v1::Job)
        ensures
            *r == self.job_value(),
    {
        &self.job
    }

    /// Which tainted nodes the Job may run on.
    pub fn admission(&self) -> (r: PodAdmission)
        ensures
            node_filter::toleration_models(r.tolerations@) == tolerations_of(self.pod_fields()),
            r.host_network == host_network_of(self.pod_fields()),
    {
        template_admission(&self.pod)
    }
}

/// The tolerations of a pod spec; one that says none, or is missing, has none.
pub open spec fn tolerations_of(pod: Option<PodFieldsModel>) -> Seq<TolerationModel> {
    match pod {
        Some(pod) => match pod.tolerations {
            Some(list) => list,
            None => Seq::empty(),
        },
        None => Seq::empty(),
    }
}

/// Whether a pod spec asks for the host's network.
pub open spec fn host_network_of(pod: Option<PodFieldsModel>) -> bool {
    pod is Some && pod->0.host_network == Some(true)
}

/// A copy of a toleration.
fn copy_toleration(toleration: &Toleration) -> (r: Toleration)
    ensures
        r == *toleration,
{
    Toleration {
        key: crate::text::copy_opt(&toleration.key),
        operator: crate::text::copy_opt(&toleration.operator),
        value: crate::text::copy_opt(&toleration.value),
        effect: crate::text::copy_opt(&toleration.effect),
        toleration_seconds: toleration.toleration_seconds,
    }
}

/// What the pod spec of a template says about the nodes it may run on.
pub fn template_admission(pod: &Option<PodFields>) -> (r: PodAdmission)
    ensures
        node_filter::toleration_models(r.tolerations@) == tolerations_of(fields_view(*pod)),
        r.host_network == host_network_of(fields_view(*pod)),
{
    let mut tolerations: Vec<Toleration> = Vec::new();
    let mut host_network: bool = false;
    if let Some(pod) = pod {
        if let Some(list) = &pod.tolerations {
            let mut i: usize = 0;
            while i < list.len()
                invariant
                    i <= list@.len(),
                    tolerations@ == list@.take(i as int),
                    host_network == false,
                decreases list@.len() - i,
            {
                tolerations.push(copy_toleration(&list[i]));
                assert(list@.take(i + 1) =~= list@.take(i as int).push(list@[i as int]));
                i = i + 1;
            }
            assert(list@.take(list@.len() as int) =~= list@);
        }
        if let Some(host) = pod.host_network {
            host_network = host;
        }
    }
    assert(node_filter::toleration_models(tolerations@) =~= tolerations_of(fields_view(*pod)));
    PodAdmission { tolerations, host_network }
}

/// A pod tolerates what its spec says, and nothing where it says nothing; it uses the host's
/// network only where its spec says so.
pub proof fn law_pods_are_what_their_spec_says(pod: PodFieldsModel)
    ensures
        pod.tolerations is Some ==> tolerations_of(Some(pod)) == pod.tolerations->0,
        pod.tolerations is None ==> tolerations_of(Some(pod)).len() == 0,
        tolerations_of(None).len() == 0,
        host_network_of(Some(pod)) <==> pod.host_network == Some(true),
        !host_network_of(None),
{
}

} // verus!
