//! Lists: resources that hold other resources.

use crate::document::{entry_models, Node, YamlValue};
use crate::error::PolicyError;
use crate::pod::PodSpec;
use crate::policy::AgentPolicy;
use crate::text::{join, join_spec, lemma_split_of_join, split, split_spec, view_all};
use crate::yaml::{lemma_list_item_by_item, lemma_list_policy_refusal, lemma_list_serialized,
    lemma_list_wf, lemma_list_write_refusal, K8sResource, PolicyData, Serialized, SerializedView};
use vstd::prelude::*;

verus! {

/// A list: the documents of its items, and the resources that they hold.
#[derive(Debug, PartialEq)]
pub struct List {
    pub api_version: String,
    pub kind: String,
    pub items: Vec<YamlValue>,
    pub resources: Vec<K8sResource>,
}

/// The document of a list: its version, its kind and its items.
pub open spec fn list_document(api_version: Seq<char>, kind: Seq<char>, items: Seq<Node>) -> Node {
    Node::Mapping(
        seq![
            (Node::String("apiVersion"@), Node::String(api_version)),
            (Node::String("kind"@), Node::String(kind)),
            (Node::String("items"@), Node::Sequence(items)),
        ],
    )
}

/// The document of an item of a list that is written out: the document of
/// the resource with its policy, or for a resource that is written out as
/// it came the document that the list had for it.
pub open spec fn item_document(item: Node, serialized: Option<SerializedView>) -> Node {
    match serialized {
        Some(SerializedView::Document(document)) => document,
        _ => item,
    }
}

/// The policies of the items of a list as one text, a colon between each
/// two.
pub fn join_policies(policies: &Vec<String>) -> (r: String)
    ensures
        r@ == join_spec(view_all(policies@), ":"@),
{
    join(policies, ":")
}

impl List {
    /// Takes the resources of the items, one for each item and in their
    /// order, each prepared on its own. A number of resources other than
    /// that of the items is refused.
    pub fn init(&mut self, resources: Vec<K8sResource>) -> (r: Result<(), PolicyError>)
        ensures
            r is Ok == (resources@.len() == old(self).items@.len()),
            r is Ok ==> final(self).resources == resources,
            r is Err ==> final(self).resources == old(self).resources,
            r matches Err(e) ==> e == (PolicyError::PolicyCount {
                expected: old(self).items@.len() as usize,
                found: resources@.len() as usize,
            }),
            final(self).items == old(self).items,
            final(self).api_version == old(self).api_version,
            final(self).kind == old(self).kind,
    {
        if resources.len() != self.items.len() {
            return Err(
                PolicyError::PolicyCount { expected: self.items.len(), found: resources.len() },
            );
        }
        self.resources = resources;
        Ok(())
    }

    /// The pod of the list: it has none.
    pub fn get_pod_spec(&self) -> (r: Option<&PodSpec>)
        ensures
            r is None,
    {
        None
    }

    /// Resolves the policies of the items, in order.
    pub fn generate_policy(&self, agent_policy: &AgentPolicy) -> (r: Result<
        Vec<PolicyData>,
        PolicyError,
    >)
        requires
            K8sResource::List(*self).wf(),
            agent_policy.wf(),
        ensures
            r is Ok == K8sResource::List(*self).resolves(agent_policy),
            r matches Ok(items) ==> K8sResource::List(*self).described_by(
                agent_policy,
                &PolicyData::Items(items),
            ),
            r matches Err(e) ==> K8sResource::List(*self).policy_refusal(agent_policy, e),
        decreases self,
    {
        let mut policies: Vec<PolicyData> = Vec::new();
        let mut i: usize = 0;
        proof {
            lemma_list_item_by_item(self, agent_policy);
            lemma_list_wf(self);
        }
        while i < self.resources.len()
            invariant
                i <= self.resources.len(),
                forall|k: int|
                    0 <= k < self.resources@.len() ==> (#[trigger] self.resources@[k]).wf(),
                K8sResource::List(*self).resolves(agent_policy) ==> forall|k: int|
                    0 <= k < self.resources@.len() ==> (#[trigger] self.resources@[k]).resolves(
                        agent_policy,
                    ),
                agent_policy.wf(),
                policies@.len() == i,
                forall|k: int|
                    0 <= k < i ==> (#[trigger] self.resources@[k]).resolves(agent_policy),
                forall|k: int|
                    0 <= k < i ==> (#[trigger] self.resources@[k]).described_by(
                        agent_policy,
                        &policies@[k],
                    ),
            decreases self.resources.len() - i,
        {
            assert(decreases_to!(self.resources => self.resources[i as int]));
            match self.resources[i].generate_policy(agent_policy) {
                Ok(data) => {
                    policies.push(data);
                },
                Err(e) => {
                    proof {
                        lemma_list_policy_refusal(self, agent_policy, e, i as int);
                    }
                    return Err(e);
                },
            }
            i += 1;
        }
        proof {
            lemma_list_item_by_item(self, agent_policy);
        }
        Ok(policies)
    }

    /// The text of the document of the list with the policy of each item
    /// written into the item. The policy holds the policies of the items, a
    /// colon between each two; a policy that does not split into one piece
    /// for each item is refused, and so is a document that has no text.
    pub fn serialize(&self, policy: &str) -> (r: Result<String, PolicyError>)
        ensures
            r is Ok == K8sResource::List(*self).serialized_text(policy@) is Some,
            r matches Ok(text) ==> K8sResource::List(*self).serialized_text(policy@) == Some(text@),
            r matches Err(e) ==> if K8sResource::List(*self).serialized(policy@) is Some {
                e matches PolicyError::MalformedField(_)
            } else {
                K8sResource::List(*self).write_refusal(policy@, e)
            },
    {
        match self.document_with_policy(policy) {
            Ok(document) => crate::yaml::render_document(&document),
            Err(e) => Err(e),
        }
    }

    /// The document of the list with the policy of each item written into
    /// the item.
    pub fn document_with_policy(&self, policy: &str) -> (r: Result<YamlValue, PolicyError>)
        ensures
            r is Ok == K8sResource::List(*self).serialized(policy@) is Some,
            r matches Ok(document) ==> Some(SerializedView::Document(document.model()))
                == K8sResource::List(*self).serialized(policy@),
            r matches Err(e) ==> K8sResource::List(*self).write_refusal(policy@, e),
        decreases self,
    {
        let policies = split(policy, ':');
        let len = policies.len();
        proof {
            lemma_list_serialized(self, policy@);
        }
        if len != self.resources.len() {
            return Err(PolicyError::PolicyCount { expected: self.resources.len(), found: len });
        }
        let ghost pieces = split_spec(policy@, ':');
        let mut items: Vec<YamlValue> = Vec::new();
        let mut i: usize = 0;
        while i < len
            invariant
                i <= len,
                K8sResource::List(*self).serialized(policy@) is Some ==> forall|k: int|
                    0 <= k < self.resources@.len() ==> (#[trigger] self.resources@[k]).serialized(
                        pieces[k],
                    ) is Some,
                len == self.resources.len(),
                len == policies.len(),
                pieces == view_all(policies@),
                pieces == split_spec(policy@, ':'),
                items@.len() == i,
                forall|k: int|
                    0 <= k < i ==> (#[trigger] self.resources@[k]).serialized(pieces[k]) is Some,
                forall|k: int|
                    0 <= k < i ==> (#[trigger] items@[k]).model() == item_document(
                        if k < self.items@.len() {
                            self.items@[k].model()
                        } else {
                            Node::Null
                        },
                        self.resources@[k].serialized(pieces[k]),
                    ),
            decreases len - i,
        {
            assert(pieces[i as int] == policies@[i as int]@);
            assert(decreases_to!(self.resources => self.resources[i as int]));
            match self.resources[i].document_with_policy(policies[i].as_str()) {
                Ok(Serialized::Document(document)) => {
                    items.push(document);
                },
                Ok(Serialized::Text(_)) => {
                    if i < self.items.len() {
                        items.push(self.items[i].duplicate());
                    } else {
                        items.push(YamlValue::Null);
                    }
                },
                Err(e) => {
                    proof {
                        lemma_list_write_refusal(self, policy@, e, i as int);
                    }
                    return Err(e);
                },
            }
            i += 1;
        }
        let ghost item_models = Seq::new(
            self.resources@.len(),
            |k: int|
                if 0 <= k < self.resources@.len() {
                    item_document(
                        if k < self.items@.len() {
                            self.items@[k].model()
                        } else {
                            Node::Null
                        },
                        self.resources@[k].serialized(pieces[k]),
                    )
                } else {
                    Node::Null
                },
        );
        let sequence = YamlValue::Sequence(items);
        assert(sequence.model()->Sequence_0 =~= item_models);
        proof {
            lemma_list_serialized(self, policy@);
            let view = K8sResource::List(*self).serialized(policy@)->0;
            assert(items_of(view) =~= item_models);
        }
        let mut entries: Vec<(YamlValue, YamlValue)> = Vec::new();
        entries.push(
            (YamlValue::String("apiVersion".to_string()), YamlValue::String(self.api_version.clone())),
        );
        entries.push((YamlValue::String("kind".to_string()), YamlValue::String(self.kind.clone())));
        entries.push((YamlValue::String("items".to_string()), sequence));
        assert(entry_models(entries@) =~= seq![
            (Node::String("apiVersion"@), Node::String(self.api_version@)),
            (Node::String("kind"@), Node::String(self.kind@)),
            (Node::String("items"@), Node::Sequence(item_models)),
        ]);
        Ok(YamlValue::Mapping(entries))
    }
}

/// The items of the document of a list.
pub open spec fn items_of(document: SerializedView) -> Seq<Node> {
    match document {
        SerializedView::Document(Node::Mapping(entries)) if entries.len() == 3 => match entries[2].1 {
            Node::Sequence(items) => items,
            _ => Seq::<Node>::empty(),
        },
        _ => Seq::<Node>::empty(),
    }
}

/// A list that is written out with the joined policies of its items has
/// as many item documents as it has items, each the document of its item
/// with the policy of that item; provided that the list has an item, that
/// no policy holds a colon, and that each item can be written out with its
/// policy.
pub proof fn lemma_list_round_trip(list: &List, policies: Seq<Seq<char>>)
    requires
        policies.len() == list.resources@.len(),
        policies.len() >= 1,
        forall|i: int| 0 <= i < policies.len() ==> !(#[trigger] policies[i]).contains(':'),
        forall|i: int|
            0 <= i < policies.len() ==> (#[trigger] list.resources@[i]).serialized(policies[i])
                is Some,
    ensures
        K8sResource::List(*list).serialized(join_spec(policies, ":"@)) is Some,
        items_of(K8sResource::List(*list).serialized(join_spec(policies, ":"@))->0).len()
            == policies.len(),
        forall|i: int|
            0 <= i < policies.len() ==> (#[trigger] items_of(
                K8sResource::List(*list).serialized(join_spec(policies, ":"@))->0,
            )[i]) == item_document(
                if i < list.items@.len() {
                    list.items@[i].model()
                } else {
                    Node::Null
                },
                list.resources@[i].serialized(policies[i]),
            ),
{
    reveal_strlit(":");
    assert(":"@ =~= seq![':']);
    lemma_split_of_join(policies, ':');
    lemma_list_serialized(list, join_spec(policies, ":"@));
}

} // verus!
