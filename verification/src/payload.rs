//! Finding a node's payload by its identity.
//!
//! An op is handed a node's identity and nothing else, so what the node
//! declares is looked up in a map built from the tree.

use crate::profile;
use crate::profile::{NodeId, ProfileNode};
use std::collections::HashMap;
use vstd::prelude::*;

verus! {

/// The nodes of a tree by identity.
pub type PayloadMap<'a> = HashMap<u64, &'a ProfileNode>;

/// `known` with every node of `nodes` added in order: a later node takes
/// the place of an earlier one of the same identity.
pub open spec fn recorded<'a>(
    known: Map<u64, &'a ProfileNode>,
    nodes: Seq<ProfileNode>,
) -> Map<u64, &'a ProfileNode>
    decreases nodes.len(),
{
    if nodes.len() == 0 {
        known
    } else {
        recorded(known, nodes.drop_last()).insert(nodes.last().id().0, &nodes.last())
    }
}

/// Recording two lists in turn is recording them joined.
proof fn lemma_recorded_joined<'a>(
    known: Map<u64, &'a ProfileNode>,
    first: Seq<ProfileNode>,
    second: Seq<ProfileNode>,
)
    ensures
        recorded(recorded(known, first), second) == recorded(known, first + second),
    decreases second.len(),
{
    if second.len() == 0 {
        assert(first + second =~= first);
    } else {
        lemma_recorded_joined(known, first, second.drop_last());
        assert((first + second).drop_last() =~= first + second.drop_last());
        assert((first + second).last() == second.last());
    }
}

/// Records `node` and everything under it.
fn collect<'a>(node: &'a ProfileNode, map: &mut PayloadMap<'a>)
    ensures
        final(map)@ == recorded(old(map)@, profile::preorder(*node)),
    decreases node,
{
    broadcast use vstd::std_specs::hash::group_hash_axioms;

    let ghost known = map@;
    let ghost own = seq![*node];
    map.insert(node.node_id().0, node);
    proof {
        assert(own.drop_last() =~= Seq::<ProfileNode>::empty());
        assert(recorded(known, own.drop_last()) == known);
        assert(map@ == recorded(known, own));
    }
    match node {
        ProfileNode::Spec { env, phases, .. } => {
            collect_slots(&env.entries, map);
            collect_list(phases, map);
            proof {
                let slots = profile::preorder_slots(env.entries@);
                lemma_recorded_joined(known, own, slots);
                lemma_recorded_joined(known, own + slots, profile::preorder_list(phases@));
            }
        },
        ProfileNode::ShExec { env, .. } => {
            collect_slots(&env.entries, map);
            proof {
                lemma_recorded_joined(known, own, profile::preorder_slots(env.entries@));
            }
        },
        ProfileNode::SyncPull { env, .. } => {
            collect_slots(&env.entries, map);
            proof {
                lemma_recorded_joined(known, own, profile::preorder_slots(env.entries@));
            }
        },
        ProfileNode::StagingPush { env, .. } => {
            collect_slots(&env.entries, map);
            proof {
                lemma_recorded_joined(known, own, profile::preorder_slots(env.entries@));
            }
        },
        ProfileNode::FsWrite { content, .. } => {
            collect(content, map);
            proof {
                lemma_recorded_joined(known, own, profile::preorder(**content));
            }
        },
        ProfileNode::NetHttpGet { headers, .. } => {
            collect_slots(&headers.entries, map);
            proof {
                lemma_recorded_joined(known, own, profile::preorder_slots(headers.entries@));
            }
        },
        ProfileNode::NetHttpPost { headers, body, .. } => {
            collect_slots(&headers.entries, map);
            proof {
                lemma_recorded_joined(known, own, profile::preorder_slots(headers.entries@));
            }
            match body {
                Some(body) => {
                    collect(body, map);
                    proof {
                        lemma_recorded_joined(
                            known,
                            own + profile::preorder_slots(headers.entries@),
                            profile::preorder(**body),
                        );
                    }
                },
                None => {
                    assert(own + profile::preorder_slots(headers.entries@)
                        + Seq::<ProfileNode>::empty() =~= own + profile::preorder_slots(
                        headers.entries@,
                    ));
                },
            }
        },
        _ => {},
    }
}

/// Records every value node of a slot.
fn collect_slots<'a>(entries: &'a Vec<(String, ProfileNode)>, map: &mut PayloadMap<'a>)
    ensures
        final(map)@ == recorded(old(map)@, profile::preorder_slots(entries@)),
    decreases entries,
{
    let ghost known = map@;
    let mut i: usize = 0;
    assert(entries@.take(0) =~= Seq::<(String, ProfileNode)>::empty());
    while i < entries.len()
        invariant
            i <= entries@.len(),
            map@ == recorded(known, profile::preorder_slots(entries@.take(i as int))),
        decreases entries@.len() - i,
    {
        collect(&entries[i].1, map);
        proof {
            let upto = entries@.take(i + 1);
            assert(upto.drop_last() =~= entries@.take(i as int));
            lemma_recorded_joined(
                known,
                profile::preorder_slots(upto.drop_last()),
                profile::preorder(upto.last().1),
            );
        }
        i = i + 1;
    }
    assert(entries@.take(i as int) =~= entries@);
}

/// Records every node of a list.
fn collect_list<'a>(nodes: &'a Vec<ProfileNode>, map: &mut PayloadMap<'a>)
    ensures
        final(map)@ == recorded(old(map)@, profile::preorder_list(nodes@)),
    decreases nodes,
{
    let ghost known = map@;
    let mut i: usize = 0;
    assert(nodes@.take(0) =~= Seq::<ProfileNode>::empty());
    while i < nodes.len()
        invariant
            i <= nodes@.len(),
            map@ == recorded(known, profile::preorder_list(nodes@.take(i as int))),
        decreases nodes@.len() - i,
    {
        collect(&nodes[i], map);
        proof {
            let upto = nodes@.take(i + 1);
            assert(upto.drop_last() =~= nodes@.take(i as int));
            lemma_recorded_joined(
                known,
                profile::preorder_list(upto.drop_last()),
                profile::preorder(upto.last()),
            );
        }
        i = i + 1;
    }
    assert(nodes@.take(i as int) =~= nodes@);
}

/// The payload of every node of the tree, root included.
pub open spec fn payloads_of<'a>(root: ProfileNode) -> Map<u64, &'a ProfileNode> {
    recorded(Map::empty(), profile::preorder(root))
}

/// Walks the tree depth-first and returns every node, root included, by
/// its identity.
pub fn build_payload_map<'a>(root: &'a ProfileNode) -> (r: PayloadMap<'a>)
    ensures
        r@ == payloads_of(*root),
{
    let mut map: PayloadMap<'a> = HashMap::new();
    collect(root, &mut map);
    map
}

/// The payload recorded for `node`.
pub fn payload_at<'a>(map: &PayloadMap<'a>, node: NodeId) -> (r: Option<&'a ProfileNode>)
    ensures
        match r {
            Some(payload) => map@.contains_pair(node.0, payload),
            None => !map@.contains_key(node.0),
        },
{
    broadcast use vstd::std_specs::hash::group_hash_axioms;

    match map.get(&node.0) {
        Some(payload) => Some(*payload),
        None => None,
    }
}

/// An identity is recorded when it was before or when a node has it.
proof fn lemma_recorded_ids<'a>(
    known: Map<u64, &'a ProfileNode>,
    nodes: Seq<ProfileNode>,
    id: u64,
)
    ensures
        recorded(known, nodes).contains_key(id) <==> known.contains_key(id) || exists|i: int|
            0 <= i < nodes.len() && (#[trigger] nodes[i]).id().0 == id,
    decreases nodes.len(),
{
    if nodes.len() > 0 {
        let shorter = nodes.drop_last();
        lemma_recorded_ids(known, shorter, id);
        assert forall|i: int| 0 <= i < shorter.len() implies shorter[i] == nodes[i] by {}
        if nodes.last().id().0 == id {
            assert(nodes[nodes.len() - 1].id().0 == id);
        } else if exists|i: int| 0 <= i < nodes.len() && (#[trigger] nodes[i]).id().0 == id {
            let i = choose|i: int| 0 <= i < nodes.len() && (#[trigger] nodes[i]).id().0 == id;
            assert(shorter[i].id().0 == id);
        }
    }
}

/// Every node of the tree is found under its identity, and whatever is
/// found under an identity is a node of the tree that has it.
pub proof fn law_every_node_is_found(root: ProfileNode, id: u64)
    ensures
        payloads_of(root).contains_key(id) <==> exists|i: int|
            0 <= i < profile::preorder(root).len() && (#[trigger] profile::preorder(
                root,
            )[i]).id().0 == id,
        payloads_of(root).contains_key(id) ==> {
            &&& payloads_of(root)[id].id().0 == id
            &&& profile::preorder(root).contains(*payloads_of(root)[id])
        },
{
    let nodes = profile::preorder(root);
    lemma_recorded_ids(Map::empty(), nodes, id);
    lemma_found_is_recorded(Map::empty(), nodes, id);
}

/// Starting from nothing, what is found was recorded.
proof fn lemma_found_is_recorded<'a>(
    known: Map<u64, &'a ProfileNode>,
    nodes: Seq<ProfileNode>,
    id: u64,
)
    requires
        !known.contains_key(id),
    ensures
        recorded(known, nodes).contains_key(id) ==> {
            &&& recorded(known, nodes)[id].id().0 == id
            &&& nodes.contains(*recorded(known, nodes)[id])
        },
    decreases nodes.len(),
{
    if nodes.len() > 0 {
        let shorter = nodes.drop_last();
        lemma_found_is_recorded(known, shorter, id);
        if nodes.last().id().0 == id {
            assert(nodes[nodes.len() - 1] == nodes.last());
        } else if recorded(known, shorter).contains_key(id) {
            let at = shorter.index_of(*recorded(known, shorter)[id]);
            assert(nodes[at] == *recorded(known, shorter)[id]);
        }
    }
}

/// The node itself, every phase of a profile, and every value that a
/// phase is handed are in the tree, and so can be found.
pub proof fn law_phases_and_values_are_in_the_tree(root: ProfileNode, i: int)
    ensures
        profile::preorder(root).contains(root),
        root matches ProfileNode::Spec { phases, .. } ==> (0 <= i < phases@.len()
            ==> profile::preorder(root).contains(phases@[i]) && payloads_of(root).contains_key(
            phases@[i].id().0,
        )),
        root matches ProfileNode::Spec { env, .. } ==> (0 <= i < env.entries@.len()
            ==> profile::preorder(root).contains(env.entries@[i].1)),
        root matches ProfileNode::ShExec { env, .. } ==> (0 <= i < env.entries@.len()
            ==> profile::preorder(root).contains(env.entries@[i].1)),
        root matches ProfileNode::SyncPull { env, .. } ==> (0 <= i < env.entries@.len()
            ==> profile::preorder(root).contains(env.entries@[i].1)),
        root matches ProfileNode::StagingPush { env, .. } ==> (0 <= i < env.entries@.len()
            ==> profile::preorder(root).contains(env.entries@[i].1)),
        root matches ProfileNode::NetHttpGet { headers, .. } ==> (0 <= i < headers.entries@.len()
            ==> profile::preorder(root).contains(headers.entries@[i].1)),
        root matches ProfileNode::NetHttpPost { headers, body, .. } ==> {
            &&& 0 <= i < headers.entries@.len() ==> profile::preorder(root).contains(
                headers.entries@[i].1,
            )
            &&& body is Some ==> profile::preorder(root).contains(*body->0)
        },
        root matches ProfileNode::FsWrite { content, .. } ==> profile::preorder(root).contains(
            *content,
        ),
{
    let own = seq![root];
    assert(own[0] == root);
    lemma_root_leads(root);
    match root {
        ProfileNode::Spec { env, phases, .. } => {
            let slots = profile::preorder_slots(env.entries@);
            let list = profile::preorder_list(phases@);
            if 0 <= i < phases@.len() {
                lemma_in_list(phases@, i);
                lemma_contains_right(own + slots, list, phases@[i]);
                law_every_node_is_found(root, phases@[i].id().0);
                let at = profile::preorder(root).index_of(phases@[i]);
                assert(profile::preorder(root)[at].id().0 == phases@[i].id().0);
            }
            if 0 <= i < env.entries@.len() {
                lemma_in_slots(env.entries@, i);
                lemma_contains_right(own, slots, env.entries@[i].1);
                lemma_contains_left(own + slots, list, env.entries@[i].1);
            }
        },
        ProfileNode::ShExec { env, .. } => {
            if 0 <= i < env.entries@.len() {
                lemma_in_slots(env.entries@, i);
                lemma_contains_right(
                    own,
                    profile::preorder_slots(env.entries@),
                    env.entries@[i].1,
                );
            }
        },
        ProfileNode::SyncPull { env, .. } => {
            if 0 <= i < env.entries@.len() {
                lemma_in_slots(env.entries@, i);
                lemma_contains_right(
                    own,
                    profile::preorder_slots(env.entries@),
                    env.entries@[i].1,
                );
            }
        },
        ProfileNode::StagingPush { env, .. } => {
            if 0 <= i < env.entries@.len() {
                lemma_in_slots(env.entries@, i);
                lemma_contains_right(
                    own,
                    profile::preorder_slots(env.entries@),
                    env.entries@[i].1,
                );
            }
        },
        ProfileNode::NetHttpGet { headers, .. } => {
            if 0 <= i < headers.entries@.len() {
                lemma_in_slots(headers.entries@, i);
                lemma_contains_right(
                    own,
                    profile::preorder_slots(headers.entries@),
                    headers.entries@[i].1,
                );
            }
        },
        ProfileNode::NetHttpPost { headers, body, .. } => {
            let slots = profile::preorder_slots(headers.entries@);
            let below = match body {
                Some(body) => profile::preorder(*body),
                None => Seq::empty(),
            };
            if 0 <= i < headers.entries@.len() {
                lemma_in_slots(headers.entries@, i);
                lemma_contains_right(own, slots, headers.entries@[i].1);
                lemma_contains_left(own + slots, below, headers.entries@[i].1);
            }
            if let Some(body) = body {
                lemma_root_leads(*body);
                lemma_contains_right(own + slots, below, *body);
            }
        },
        ProfileNode::FsWrite { content, .. } => {
            lemma_root_leads(*content);
            lemma_contains_right(own, profile::preorder(*content), *content);
        },
        _ => {},
    }
}

proof fn lemma_contains_right(a: Seq<ProfileNode>, b: Seq<ProfileNode>, node: ProfileNode)
    requires
        b.contains(node),
    ensures
        (a + b).contains(node),
{
    let k = b.index_of(node);
    assert((a + b)[a.len() + k] == node);
}

proof fn lemma_contains_left(a: Seq<ProfileNode>, b: Seq<ProfileNode>, node: ProfileNode)
    requires
        a.contains(node),
    ensures
        (a + b).contains(node),
{
    let k = a.index_of(node);
    assert((a + b)[k] == node);
}

/// A tree begins with its own root.
proof fn lemma_root_leads(root: ProfileNode)
    ensures
        profile::preorder(root).len() > 0,
        profile::preorder(root)[0] == root,
        profile::preorder(root).contains(root),
{
    assert(profile::preorder(root)[0] == root);
}

proof fn lemma_in_list(nodes: Seq<ProfileNode>, i: int)
    requires
        0 <= i < nodes.len(),
    ensures
        profile::preorder_list(nodes).contains(nodes[i]),
    decreases nodes.len(),
{
    let before = profile::preorder_list(nodes.drop_last());
    let last = profile::preorder(nodes.last());
    if i == nodes.len() - 1 {
        lemma_root_leads(nodes.last());
        lemma_contains_right(before, last, nodes[i]);
    } else {
        lemma_in_list(nodes.drop_last(), i);
        lemma_contains_left(before, last, nodes[i]);
    }
}

proof fn lemma_in_slots(entries: Seq<(String, ProfileNode)>, i: int)
    requires
        0 <= i < entries.len(),
    ensures
        profile::preorder_slots(entries).contains(entries[i].1),
    decreases entries.len(),
{
    let before = profile::preorder_slots(entries.drop_last());
    let last = profile::preorder(entries.last().1);
    if i == entries.len() - 1 {
        lemma_root_leads(entries.last().1);
        lemma_contains_right(before, last, entries[i].1);
    } else {
        lemma_in_slots(entries.drop_last(), i);
        lemma_contains_left(before, last, entries[i].1);
    }
}

} // verus!
