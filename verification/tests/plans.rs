//! Nodes by identity, steps by identity, and what a run suspends on.

use lm_provision::admission::{
    is_lifecycle_op, DIRECT_OPS, HTTP_GET_CALL_LABEL, HTTP_POST_CALL_LABEL,
    LIFECYCLE_STEP_CALL_LABEL, TRANSFER_CALL_LABEL,
};
use lm_provision::calls::{call_kind, EffectRoute, NodeKind, ProfileCallAst};
use lm_provision::payload::build_payload_map;
use lm_provision::profile::{ModelItemSpec, NodeId, ProfileNode, Slots};
use lm_provision::steps::{lifecycle_op_name, max_node_id, StepPlan};
use std::cell::Cell;

/// Hands out node identities, counting up.
struct IdGen(Cell<u64>);

impl IdGen {
    fn new() -> Self {
        IdGen(Cell::new(1))
    }

    fn node(&self) -> NodeId {
        let id = self.0.get();
        self.0.set(id + 1);
        NodeId(id)
    }
}

fn spec(phases: Vec<ProfileNode>, ids: &IdGen) -> ProfileNode {
    ProfileNode::Spec {
        id: ids.node(),
        name: "step-plan".to_string(),
        version: None,
        description: None,
        capabilities: vec!["net.transfer".to_string(), "sh.exec".to_string()],
        env: Default::default(),
        env_secrets: Vec::new(),
        paths: Vec::new(),
        http_allowlist: Vec::new(),
        phases,
    }
}

fn model(src: &str, dst: &str) -> ModelItemSpec {
    ModelItemSpec {
        src: src.to_string(),
        name: None,
        dst: Some(dst.to_string()),
        subdir: None,
        kind: None,
        sha256: None,
    }
}

#[test]
fn map_contains_the_root_and_every_phase_node() {
    let ids = IdGen::new();
    let root_id = ids.node();
    let apt_id = ids.node();
    let sh_id = ids.node();

    let root = ProfileNode::Spec {
        id: root_id,
        name: "demo".to_string(),
        version: None,
        description: None,
        capabilities: vec!["sh.exec".to_string()],
        env: Slots::new(),
        env_secrets: Vec::new(),
        paths: Vec::new(),
        http_allowlist: Vec::new(),
        phases: vec![
            ProfileNode::SystemApt {
                id: apt_id,
                packages: vec!["git".to_string()],
            },
            ProfileNode::ShExec {
                id: sh_id,
                argv: vec!["ls".to_string()],
                env: Default::default(),
            },
        ],
    };

    let map = build_payload_map(&root);
    assert_eq!(map.len(), 3);
    assert!(matches!(map.get(&root_id.0), Some(ProfileNode::Spec { .. })));
    assert!(matches!(
        map.get(&apt_id.0),
        Some(ProfileNode::SystemApt { .. })
    ));
    assert!(matches!(map.get(&sh_id.0), Some(ProfileNode::ShExec { .. })));
}

#[test]
fn the_projected_op_names_are_the_registrys_lifecycle_ops() {
    let ids = IdGen::new();
    let phases = vec![
        ProfileNode::SystemApt {
            id: ids.node(),
            packages: vec!["git".into()],
        },
        ProfileNode::Models {
            id: ids.node(),
            models: Ok(Vec::new()),
        },
        ProfileNode::PostInstall {
            id: ids.node(),
            script: "true".into(),
        },
    ];
    for phase in &phases {
        let name = lifecycle_op_name(phase).expect("a lifecycle phase names its op");
        assert!(
            is_lifecycle_op(name),
            "{name} is not registered as a lifecycle op",
        );
    }
    // …and a direct op is not one of them.
    assert_eq!(
        lifecycle_op_name(&ProfileNode::ShExec {
            id: ids.node(),
            argv: vec!["true".into()],
            env: Default::default(),
        }),
        None
    );
    for name in DIRECT_OPS {
        assert!(!is_lifecycle_op(name));
    }
}

#[test]
fn a_phase_projects_one_node_per_step_above_every_real_id() {
    let ids = IdGen::new();
    let models = ProfileNode::Models {
        id: ids.node(),
        models: Ok(vec![
            model("https://e/a.bin", "a.bin"),
            model("https://e/b.bin", "b.bin"),
        ]),
    };
    let phase_id = models.node_id();
    let root = spec(vec![models], &ids);
    let ceiling = max_node_id(&root);

    let plan = StepPlan::build(&root);
    let phase = plan.phase(phase_id).expect("the phase is projected");
    assert_eq!(phase.op, "models");
    assert_eq!(phase.steps.len(), 2);
    assert_eq!(phase.nodes.len(), 2);
    for (offset, node) in phase.nodes.iter().enumerate() {
        assert!(node.0 > ceiling, "n{} collides with the tree", node.0);
        let (_, step_ref, step) = plan.locate(*node).expect("the node resolves to its step");
        assert_eq!(step_ref.phase, phase_id);
        assert_eq!(step_ref.index, offset + 1);
        assert_eq!(step, &phase.steps[offset]);
    }
}

#[test]
fn an_expansion_failure_leaves_the_phase_on_its_op() {
    let ids = IdGen::new();
    let models = ProfileNode::Models {
        id: ids.node(),
        models: Err("expected ident at line 1 column 2".to_string()),
    };
    let phase_id = models.node_id();
    let root = spec(vec![models], &ids);
    let plan = StepPlan::build(&root);
    assert!(plan.phase(phase_id).is_none());
    assert_eq!(plan.projected_phases().len(), 0);
}

#[test]
fn an_empty_expansion_leaves_the_phase_on_its_op() {
    let ids = IdGen::new();
    let models = ProfileNode::Models {
        id: ids.node(),
        models: Ok(Vec::new()),
    };
    let phase_id = models.node_id();
    let root = spec(vec![models], &ids);
    let plan = StepPlan::build(&root);
    assert!(plan.phase(phase_id).is_none());
}

#[test]
fn a_foreign_node_does_not_resolve_to_a_step() {
    let ids = IdGen::new();
    let apt = ProfileNode::SystemApt {
        id: ids.node(),
        packages: vec!["git".into()],
    };
    let phase_id = apt.node_id();
    let root = spec(vec![apt], &ids);
    let plan = StepPlan::build(&root);
    assert!(plan.locate(phase_id).is_none());
    assert!(plan.locate(NodeId(u64::MAX)).is_none());
}

#[test]
fn identities_rise_in_declaration_order_over_all_phases() {
    let ids = IdGen::new();
    let apt = ProfileNode::SystemApt {
        id: ids.node(),
        packages: vec!["git".into()],
    };
    let sh = ProfileNode::ShExec {
        id: ids.node(),
        argv: vec!["true".into()],
        env: Default::default(),
    };
    let models = ProfileNode::Models {
        id: ids.node(),
        models: Ok(vec![
            model("https://e/a.bin", "a.bin"),
            model("https://e/b.bin", "b.bin"),
        ]),
    };
    let (first, last) = (apt.node_id(), models.node_id());
    let root = spec(vec![apt, sh, models], &ids);
    assert!(StepPlan::has_room(&root));
    let plan = StepPlan::build(&root);
    let from = max_node_id(&root) + 1;
    assert_eq!(plan.phase(first).unwrap().nodes, vec![NodeId(from)]);
    assert_eq!(
        plan.phase(last).unwrap().nodes,
        vec![NodeId(from + 1), NodeId(from + 2)]
    );
    let mut listed: Vec<NodeId> = plan.projected_phases().iter().map(|(id, _)| *id).collect();
    listed.sort_by_key(|id| id.0);
    assert_eq!(listed, vec![first, last]);
}

#[test]
fn a_profile_whose_identities_are_used_up_has_no_room() {
    let phase = ProfileNode::SystemApt {
        id: NodeId(u64::MAX - 1),
        packages: vec!["git".into()],
    };
    let ids = IdGen::new();
    assert!(!StepPlan::has_room(&spec(vec![phase], &ids)));
    let phase = ProfileNode::SystemApt {
        id: NodeId(u64::MAX - 2),
        packages: vec!["git".into()],
    };
    assert!(StepPlan::has_room(&spec(vec![phase], &ids)));
    assert!(StepPlan::has_room(&ProfileNode::EnvLiteral {
        id: NodeId(u64::MAX),
        value: String::new(),
    }));
}

#[test]
fn the_highest_identity_is_found_wherever_it_sits() {
    let mut headers = Slots::new();
    headers.insert(
        "h".to_string(),
        ProfileNode::EnvLiteral {
            id: NodeId(70),
            value: "v".into(),
        },
    );
    let post = ProfileNode::NetHttpPost {
        id: NodeId(3),
        url: "https://h".into(),
        headers,
        body: Some(Box::new(ProfileNode::EnvLiteral {
            id: NodeId(90),
            value: "b".into(),
        })),
        body_json: None,
        timeout_sec: None,
    };
    assert_eq!(max_node_id(&post), 90);
    let ids = IdGen::new();
    assert_eq!(max_node_id(&spec(vec![post], &ids)), 90);
}

// ---------------------------------------------------------------------
// What a run suspends on
// ---------------------------------------------------------------------

fn label(node: &ProfileNode) -> Option<String> {
    match call_kind(node) {
        Some(NodeKind::Call { label, .. }) => Some(label),
        _ => None,
    }
}

#[test]
fn the_three_single_effect_phases_are_the_routable_ones() {
    let ids = IdGen::new();
    assert_eq!(
        label(&ProfileNode::NetTransfer {
            id: ids.node(),
            src: "https://example.com/a.bin".into(),
            dst: "/workspace/a.bin".into(),
        })
        .as_deref(),
        Some(TRANSFER_CALL_LABEL)
    );
    assert_eq!(
        label(&ProfileNode::NetHttpGet {
            id: ids.node(),
            url: "https://example.com/ping".into(),
            headers: Default::default(),
            timeout_sec: None,
        })
        .as_deref(),
        Some(HTTP_GET_CALL_LABEL)
    );
    assert_eq!(
        label(&ProfileNode::NetHttpPost {
            id: ids.node(),
            url: "https://example.com/echo".into(),
            headers: Default::default(),
            body: None,
            body_json: None,
            timeout_sec: None,
        })
        .as_deref(),
        Some(HTTP_POST_CALL_LABEL)
    );

    // A lifecycle phase and a non-network direct op stay on their op.
    assert!(call_kind(&ProfileNode::SystemApt {
        id: ids.node(),
        packages: vec!["git".into()],
    })
    .is_none());
    assert!(call_kind(&ProfileNode::ShExec {
        id: ids.node(),
        argv: vec!["true".into()],
        env: Default::default(),
    })
    .is_none());
}

#[test]
fn the_route_decides_the_node_kind_the_engine_sees() {
    let ids = IdGen::new();
    let phase_ids = [ids.node(), ids.node(), ids.node()];
    let root = ProfileNode::Spec {
        id: ids.node(),
        name: "routing".into(),
        version: None,
        description: None,
        capabilities: vec![
            "net.transfer".into(),
            "net.http_get".into(),
            "net.http_post".into(),
        ],
        env: Default::default(),
        env_secrets: Vec::new(),
        paths: vec!["/workspace".into()],
        http_allowlist: vec!["https://example.com".into()],
        phases: vec![
            ProfileNode::NetTransfer {
                id: phase_ids[0],
                src: "https://example.com/a.bin".into(),
                dst: "/workspace/a.bin".into(),
            },
            ProfileNode::NetHttpGet {
                id: phase_ids[1],
                url: "https://example.com/ping".into(),
                headers: Default::default(),
                timeout_sec: None,
            },
            ProfileNode::NetHttpPost {
                id: phase_ids[2],
                url: "https://example.com/echo".into(),
                headers: Default::default(),
                body: None,
                body_json: None,
                timeout_sec: None,
            },
        ],
    };

    // No lifecycle phase here, so the plan projects nothing and the
    // routing under test is the network phases' alone.
    let plan = StepPlan::build(&root);
    let on_op = ProfileCallAst::new(&root, EffectRoute::Op, &plan);
    let on_call = ProfileCallAst::new(&root, EffectRoute::Call, &plan);
    let expected = [
        TRANSFER_CALL_LABEL,
        HTTP_GET_CALL_LABEL,
        HTTP_POST_CALL_LABEL,
    ];
    for (id, expected) in phase_ids.into_iter().zip(expected) {
        assert!(
            !matches!(on_op.node_kind(id), Some(NodeKind::Call { .. })),
            "n{}: the op route leaves the node's own kind alone",
            id.0
        );
        match on_call.node_kind(id) {
            Some(NodeKind::Call { label, .. }) => assert_eq!(label, expected, "n{}", id.0),
            other => panic!("n{}: expected a Call, got {other:?}", id.0),
        }
    }
}

#[test]
fn a_call_declares_names_and_forms_but_no_value() {
    let mut headers = Slots::new();
    headers.insert(
        "Authorization".to_string(),
        ProfileNode::EnvLiteral {
            id: NodeId(2),
            value: "Bearer hidden".into(),
        },
    );
    let node = ProfileNode::NetHttpPost {
        id: NodeId(1),
        url: "https://h/x".into(),
        headers,
        body: Some(Box::new(ProfileNode::EnvLiteral {
            id: NodeId(3),
            value: "hidden body".into(),
        })),
        body_json: Some("{}".into()),
        timeout_sec: Some(5),
    };
    match call_kind(&node) {
        Some(NodeKind::Call { payload, .. }) => {
            assert_eq!(payload["url"], "https://h/x");
            assert_eq!(payload["header_names"][0], "Authorization");
            assert_eq!(payload["body"], "body+body_json");
            assert_eq!(payload["timeout_sec"], 5);
            assert_eq!(payload.as_object().unwrap().len(), 4);
            assert!(!payload.to_string().contains("hidden"));
        }
        other => panic!("expected a Call, got {other:?}"),
    }
    let get = ProfileNode::NetHttpGet {
        id: NodeId(1),
        url: "https://h".into(),
        headers: Slots::new(),
        timeout_sec: None,
    };
    match call_kind(&get) {
        Some(NodeKind::Call { payload, .. }) => {
            assert_eq!(payload["timeout_sec"], serde_json::Value::Null);
            assert_eq!(payload["header_names"], serde_json::Value::Array(Vec::new()));
        }
        other => panic!("expected a Call, got {other:?}"),
    }
}

#[test]
fn a_list_of_steps_is_run_in_turn_and_each_step_declares_itself() {
    let ids = IdGen::new();
    let mut env = Slots::new();
    env.insert(
        "B2_KEY".to_string(),
        ProfileNode::EnvSecret {
            id: ids.node(),
            name: "B2_KEY".into(),
        },
    );
    let pull = ProfileNode::SyncPull {
        id: ids.node(),
        src: "b2://bucket/m.bin".into(),
        dst: "/workspace/m.bin".into(),
        env,
        revision: None,
    };
    let ready = ProfileNode::ServiceReady {
        id: ids.node(),
        name: "llm".into(),
        check_url: "http://127.0.0.1:9000/health".into(),
        timeout_sec: Some(7),
    };
    let (pull_id, ready_id) = (pull.node_id(), ready.node_id());
    let root = spec(vec![pull, ready], &ids);
    let plan = StepPlan::build(&root);
    let ast = ProfileCallAst::new(&root, EffectRoute::Op, &plan);
    let step = match ast.node_kind(pull_id) {
        Some(NodeKind::InTurn { children }) => {
            assert_eq!(children.len(), 1);
            children[0]
        }
        other => panic!("expected a list, got {other:?}"),
    };
    match ast.node_kind(step) {
        Some(NodeKind::Call { label, payload }) => {
            assert_eq!(label, LIFECYCLE_STEP_CALL_LABEL);
            assert_eq!(payload["phase"], "sync.pull");
            assert_eq!(payload["step"], 1);
            assert_eq!(payload["of"], 1);
            assert_eq!(payload["effect"], "sh.exec");
            assert_eq!(payload["argv"][0], "b2");
            assert_eq!(payload["env_names"][0], "B2_KEY");
        }
        other => panic!("expected a Call, got {other:?}"),
    }
    let poll = match ast.node_kind(ready_id) {
        Some(NodeKind::InTurn { children }) => children[0],
        other => panic!("expected a list, got {other:?}"),
    };
    match ast.node_kind(poll) {
        Some(NodeKind::Call { payload, .. }) => {
            assert_eq!(payload["url"], "http://127.0.0.1:9000/health");
            assert_eq!(payload["timeout_sec"], 7);
            assert_eq!(payload["effect"], "net.http_get");
        }
        other => panic!("expected a Call, got {other:?}"),
    }
    assert!(ast.node_kind(NodeId(0)).is_none());
}
