//! The Kubernetes objects of a run, with the fields that its decisions read.

use crate::labels::StringMap;
use vstd::prelude::*;

verus! {

/// A taint of a node (`spec.taints`).
#[derive(Debug, Default)]
pub struct Taint {
    pub key: String,
    pub effect: String,
    pub value: Option<String>,
    /// When a `NoExecute` taint was added, as the node writes it.
    pub time_added: Option<String>,
}

/// An entry of `metadata.ownerReferences`.
#[derive(Debug, Default)]
pub struct OwnerReference {
    pub api_version: String,
    pub kind: String,
    pub name: String,
    pub uid: String,
    pub controller: Option<bool>,
    pub block_owner_deletion: Option<bool>,
}

/// An entry of `status.conditions`.
#[derive(Debug, Default)]
pub struct Condition {
    pub type_: String,
    pub status: String,
}

/// What a node says about its software (`status.nodeInfo`).
#[derive(Debug, Default)]
pub struct NodeInfo {
    pub container_runtime_version: String,
    pub machine_id: String,
}

/// The status of a node.
#[derive(Debug, Default)]
pub struct NodeStatus {
    pub node_info: Option<NodeInfo>,
    /// The names of `runtimeHandlers`; an entry may come without one.
    pub runtime_handlers: Option<Vec<Option<String>>>,
    pub conditions: Option<Vec<Condition>>,
}

/// A node.
#[derive(Debug, Default)]
pub struct Node {
    pub name: Option<String>,
    pub uid: Option<String>,
    pub resource_version: Option<String>,
    pub labels: Option<StringMap>,
    pub annotations: Option<StringMap>,
    pub taints: Option<Vec<Taint>>,
    pub status: Option<NodeStatus>,
}

/// A Job, as the run reads it back.
#[derive(Debug, Default)]
pub struct JobRecord {
    pub name: Option<String>,
    pub uid: Option<String>,
    pub labels: Option<StringMap>,
    pub owner_references: Option<Vec<OwnerReference>>,
    pub conditions: Option<Vec<Condition>>,
}

/// A pod, as the run reads it back.
#[derive(Debug, Default)]
pub struct PodRecord {
    pub owner_references: Option<Vec<OwnerReference>>,
}

/// A request that the apiserver, or the way to it, refused.
#[derive(Debug)]
pub struct ApiError {
    /// The status code of an answer; a request that got none has no code.
    pub code: Option<u16>,
    pub message: String,
}

/// What a taint is.
pub ghost struct TaintModel {
    pub key: Seq<char>,
    pub effect: Seq<char>,
    pub value: Option<Seq<char>>,
    pub time_added: Option<Seq<char>>,
}

impl View for Taint {
    type V = TaintModel;

    open spec fn view(&self) -> TaintModel {
        TaintModel {
            key: self.key@,
            effect: self.effect@,
            value: crate::text::opt_text(self.value),
            time_added: crate::text::opt_text(self.time_added),
        }
    }
}

impl Clone for Taint {
    fn clone(&self) -> (r: Self)
        ensures
            r@ == self@,
    {
        Taint {
            key: self.key.clone(),
            effect: self.effect.clone(),
            value: crate::text::copy_opt(&self.value),
            time_added: crate::text::copy_opt(&self.time_added),
        }
    }
}

/// What an owner reference is.
pub ghost struct OwnerModel {
    pub api_version: Seq<char>,
    pub kind: Seq<char>,
    pub name: Seq<char>,
    pub uid: Seq<char>,
    pub controller: Option<bool>,
    pub block_owner_deletion: Option<bool>,
}

impl View for OwnerReference {
    type V = OwnerModel;

    open spec fn view(&self) -> OwnerModel {
        OwnerModel {
            api_version: self.api_version@,
            kind: self.kind@,
            name: self.name@,
            uid: self.uid@,
            controller: self.controller,
            block_owner_deletion: self.block_owner_deletion,
        }
    }
}

impl Clone for OwnerReference {
    fn clone(&self) -> (r: Self)
        ensures
            r == *self,
    {
        OwnerReference {
            api_version: self.api_version.clone(),
            kind: self.kind.clone(),
            name: self.name.clone(),
            uid: self.uid.clone(),
            controller: self.controller,
            block_owner_deletion: self.block_owner_deletion,
        }
    }
}

/// The views of the taints of a node; a node without the list has none.
pub open spec fn taint_models(taints: Option<Vec<Taint>>) -> Seq<TaintModel> {
    match taints {
        Some(list) => list@.map_values(|t: Taint| t@),
        None => Seq::empty(),
    }
}

/// The owner references of an object; an object without the list has none.
pub open spec fn owner_models(references: Option<Vec<OwnerReference>>) -> Seq<OwnerModel> {
    match references {
        Some(list) => list@.map_values(|o: OwnerReference| o@),
        None => Seq::empty(),
    }
}

/// A taint is modelled by everything that it says.
pub proof fn law_taints_are_modelled_whole(taint: Taint)
    ensures
        taint@.key == taint.key@,
        taint@.effect == taint.effect@,
        taint@.value is Some <==> taint.value is Some,
        taint.value matches Some(value) ==> taint@.value == Some(value@),
        taint@.time_added is Some <==> taint.time_added is Some,
        taint.time_added matches Some(time) ==> taint@.time_added == Some(time@),
{
}

/// An owner is modelled by everything that it says.
pub proof fn law_owners_are_modelled_whole(owner: OwnerReference)
    ensures
        owner@.api_version == owner.api_version@,
        owner@.kind == owner.kind@,
        owner@.name == owner.name@,
        owner@.uid == owner.uid@,
        owner@.controller == owner.controller,
        owner@.block_owner_deletion == owner.block_owner_deletion,
{
}

/// What a node's taints and a Job's owners are modelled by is each of them, in order, and
/// nothing where there are none.
pub proof fn law_lists_are_modelled_in_order(
    taints: Vec<Taint>,
    owners: Vec<OwnerReference>,
)
    ensures
        taint_models(Some(taints)).len() == taints@.len(),
        forall|i: int| 0 <= i < taints@.len() ==> #[trigger] taint_models(Some(taints))[i]
            == taints@[i]@,
        taint_models(None).len() == 0,
        owner_models(Some(owners)).len() == owners@.len(),
        forall|i: int| 0 <= i < owners@.len() ==> #[trigger] owner_models(Some(owners))[i]
            == owners@[i]@,
        owner_models(None).len() == 0,
{
}

} // verus!
