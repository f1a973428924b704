//! What a unit of work demands.

use lm_provision::demand::{direct, env_ref, step, Demand};
use lm_provision::lifecycle::Step;
use lm_provision::profile::{NodeId, ProfileNode, Slots};

#[test]
fn a_download_gates_its_destination_path_and_its_source_url() {
    let demand = direct(&ProfileNode::NetTransfer {
        id: NodeId(1),
        src: "https://example.com/a.bin".into(),
        dst: "/workspace/a.bin".into(),
    })
    .expect("a download resolves");
    assert_eq!(demand.capability, Some("net.transfer"));
    assert_eq!(demand.paths, vec!["/workspace/a.bin".to_string()]);
    assert_eq!(demand.urls, vec!["https://example.com/a.bin".to_string()]);
}

#[test]
fn an_upload_gates_its_source_path_and_its_destination_url() {
    let demand = direct(&ProfileNode::NetTransfer {
        id: NodeId(1),
        src: "/workspace/a.bin".into(),
        dst: "https://example.com/a.bin".into(),
    })
    .expect("an upload resolves");
    assert_eq!(demand.paths, vec!["/workspace/a.bin".to_string()]);
    assert_eq!(demand.urls, vec!["https://example.com/a.bin".to_string()]);
}

#[test]
fn an_hf_step_gates_the_resolved_host() {
    let demand = step(&Step::Transfer {
        src: "https://huggingface.co/o/r/resolve/main/a.bin".into(),
        dst: "/workspace/a.bin".into(),
    })
    .expect("resolves");
    assert_eq!(
        demand.urls,
        vec!["https://huggingface.co/o/r/resolve/main/a.bin".to_string()]
    );
}

#[test]
fn a_note_step_demands_nothing() {
    assert_eq!(
        step(&Step::Note("nothing to run".into())).unwrap(),
        Demand::default()
    );
}

#[test]
fn an_env_ref_in_any_slot_demands_the_capability() {
    let mut env = Slots::new();
    env.insert(
        "MODE".to_string(),
        ProfileNode::EnvRef {
            id: NodeId(1),
            name: "SHARED".into(),
        },
    );
    assert_eq!(
        env_ref(&ProfileNode::ShExec {
            id: NodeId(2),
            argv: vec!["true".into()],
            env,
        }),
        Some("env.ref")
    );
    assert_eq!(
        env_ref(&ProfileNode::ShExec {
            id: NodeId(3),
            argv: vec!["true".into()],
            env: Default::default(),
        }),
        None
    );
}

fn refers() -> Slots {
    let mut slots = Slots::new();
    slots.insert(
        "a".to_string(),
        ProfileNode::EnvLiteral {
            id: NodeId(1),
            value: "v".into(),
        },
    );
    slots.insert(
        "b".to_string(),
        ProfileNode::EnvRef {
            id: NodeId(2),
            name: "SHARED".into(),
        },
    );
    slots
}

#[test]
fn a_reference_is_found_wherever_it_sits() {
    let content = |node| ProfileNode::FsWrite {
        id: NodeId(3),
        path: "/p".into(),
        content: Box::new(node),
    };
    assert_eq!(
        env_ref(&content(ProfileNode::EnvRef {
            id: NodeId(4),
            name: "S".into()
        })),
        Some("env.ref")
    );
    assert_eq!(
        env_ref(&content(ProfileNode::EnvSecret {
            id: NodeId(4),
            name: "S".into()
        })),
        None
    );
    assert_eq!(
        env_ref(&ProfileNode::NetHttpGet {
            id: NodeId(3),
            url: "https://h".into(),
            headers: refers(),
            timeout_sec: None,
        }),
        Some("env.ref")
    );
    let post = |headers, body| ProfileNode::NetHttpPost {
        id: NodeId(3),
        url: "https://h".into(),
        headers,
        body,
        body_json: None,
        timeout_sec: None,
    };
    assert_eq!(env_ref(&post(refers(), None)), Some("env.ref"));
    assert_eq!(
        env_ref(&post(
            Slots::new(),
            Some(Box::new(ProfileNode::EnvRef {
                id: NodeId(4),
                name: "S".into()
            }))
        )),
        Some("env.ref")
    );
    assert_eq!(env_ref(&post(Slots::new(), None)), None);
    assert_eq!(
        env_ref(&ProfileNode::SyncPull {
            id: NodeId(3),
            src: "https://h/a".into(),
            dst: "/a".into(),
            env: refers(),
            revision: None,
        }),
        Some("env.ref")
    );
    assert_eq!(
        env_ref(&ProfileNode::StagingPush {
            id: NodeId(3),
            src: "/a".into(),
            dst: "b2://b/a".into(),
            env: refers(),
            revision: None,
        }),
        Some("env.ref")
    );
}

#[test]
fn each_direct_phase_demands_its_capability_and_targets() {
    let demand = direct(&ProfileNode::MountBind {
        id: NodeId(1),
        src: "/s".into(),
        dst: "/d".into(),
    })
    .unwrap();
    assert_eq!(demand.capability, Some("mount.bind"));
    assert_eq!(demand.paths, vec!["/s".to_string(), "/d".to_string()]);
    let demand = direct(&ProfileNode::MountUmount {
        id: NodeId(1),
        path: "/d".into(),
    })
    .unwrap();
    assert_eq!(demand.capability, Some("mount.umount"));
    assert_eq!(demand.paths, vec!["/d".to_string()]);
    let demand = direct(&ProfileNode::FsWrite {
        id: NodeId(1),
        path: "/f".into(),
        content: Box::new(ProfileNode::EnvLiteral {
            id: NodeId(2),
            value: "x".into(),
        }),
    })
    .unwrap();
    assert_eq!(demand.capability, Some("fs.write"));
    let demand = direct(&ProfileNode::ShExec {
        id: NodeId(1),
        argv: vec!["true".into()],
        env: Slots::new(),
    })
    .unwrap();
    assert_eq!(demand.capability, Some("sh.exec"));
    assert!(demand.paths.is_empty() && demand.urls.is_empty());
    let demand = step(&Step::Sh(vec!["true".into()])).unwrap();
    assert_eq!(demand.capability, Some("sh.exec"));
}

#[test]
fn a_transfer_without_a_direction_demands_nothing_that_could_be_named() {
    assert!(direct(&ProfileNode::NetTransfer {
        id: NodeId(1),
        src: "/a".into(),
        dst: "/b".into(),
    })
    .is_err());
}
