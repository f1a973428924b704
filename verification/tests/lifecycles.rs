//! The steps that each lifecycle phase expands to, and how they read.

use lm_provision::condition::{describe, Assert, Checkout, Done, ModelFile};
use lm_provision::context::kind_of;
use lm_provision::exec::ExecError;
use lm_provision::lifecycle::{
    expand, PlannedStep, Step, COMFYUI_HEALTH_TIMEOUT_SEC, SERVICE_READY_TIMEOUT_SEC,
};
use lm_provision::names::EnvMap;
use lm_provision::profile::{
    CustomNodeSpec, Decoded, LlmModelSpec, ModelItemSpec, NodeId, ProfileNode, Slots,
};
use lm_provision::running::render_dry;
use std::cell::Cell;

/// Hands out node identities, counting up.
struct IdGen(Cell<u64>);

impl IdGen {
    fn new() -> Self {
        IdGen(Cell::new(1))
    }

    fn node(&self) -> NodeId {
        let id = self.0.get();
        self.0.set(id + 1);
        NodeId(id)
    }
}

fn node_id(ids: &IdGen) -> NodeId {
    ids.node()
}

/// The entries of a JSON list, read one by one.
fn entries<T>(json: &str, read: impl Fn(&serde_json::Value) -> T) -> Decoded<T> {
    let value: serde_json::Value =
        serde_json::from_str(json).map_err(|err| format!("{err}"))?;
    let list = value.as_array().ok_or("not a list".to_string())?;
    Ok(list.iter().map(read).collect())
}

/// A text of an entry, if it has one.
fn text(entry: &serde_json::Value, key: &str) -> Option<String> {
    entry.get(key).and_then(|value| value.as_str()).map(str::to_string)
}

fn custom_nodes(json: &str) -> Decoded<CustomNodeSpec> {
    entries(json, |entry| CustomNodeSpec {
        name: text(entry, "name").unwrap(),
        repo: text(entry, "repo").unwrap(),
        git_ref: text(entry, "ref"),
        pip: entry.get("pip").and_then(|value| value.as_bool()).unwrap_or(false),
    })
}

fn models(json: &str) -> Decoded<ModelItemSpec> {
    entries(json, |entry| ModelItemSpec {
        src: text(entry, "src").unwrap(),
        name: text(entry, "name"),
        dst: text(entry, "dst"),
        subdir: text(entry, "subdir"),
        kind: text(entry, "kind"),
        sha256: text(entry, "sha256"),
    })
}

fn llm_models(json: &str) -> Decoded<LlmModelSpec> {
    entries(json, |entry| LlmModelSpec {
        src: text(entry, "src").unwrap(),
        dst_dir: text(entry, "dst_dir"),
        revision: text(entry, "revision"),
    })
}

/// The effects a phase composed, without the conditions beside them.
fn effects(steps: Vec<PlannedStep>) -> Vec<Step> {
    steps.into_iter().map(|planned| planned.step).collect()
}

/// The condition of a phase's `index`-th step, as rendered.
fn condition(steps: &[PlannedStep], index: usize) -> Option<String> {
    steps[index].done.as_ref().map(describe)
}

// expand: one variant per lifecycle op (15 total).
// -------------------------------------------------------------

#[test]
fn expand_system_apt_prepends_the_non_interactive_install_flags() {
    let ids = IdGen::new();
    let payload = ProfileNode::SystemApt {
        id: node_id(&ids),
        packages: vec!["git".to_string(), "curl".to_string()],
    };
    let steps = expand(&payload).expect("system_apt expands");
    assert_eq!(
        effects(steps),
        vec![Step::Sh(vec![
            "apt-get".to_string(),
            "install".to_string(),
            "-y".to_string(),
            "git".to_string(),
            "curl".to_string(),
        ])]
    );
}

#[test]
fn expand_comfyui_install_uses_the_default_repo_when_none_is_given() {
    let ids = IdGen::new();
    let payload = ProfileNode::ComfyUiInstall {
        id: node_id(&ids),
        ref_name: "v0.1.0".to_string(),
        repo: None,
    };
    let steps = expand(&payload).expect("comfyui_install expands");
    assert_eq!(steps.len(), 1);
    match &steps[0].step {
        Step::Sh(argv) => {
            assert_eq!(argv[0], "sh");
            assert_eq!(argv[1], "-c");
            assert!(argv[2]
                .contains("https://github.com/comfyanonymous/ComfyUI.git /workspace/ComfyUI"));
            assert!(argv[2].contains("checkout v0.1.0"));
        }
        other => panic!("expected Sh, got {other:?}"),
    }
}

#[test]
fn expand_comfyui_install_guards_its_clone_with_the_checkout_condition() {
    let ids = IdGen::new();
    let steps = expand(&ProfileNode::ComfyUiInstall {
        id: node_id(&ids),
        ref_name: "v0.1.0".to_string(),
        repo: None,
    })
    .expect("comfyui_install expands");

    assert_eq!(steps.len(), 1, "clone and checkout are one composed step");
    assert_eq!(
        steps[0].done,
        Some(Checkout::new("/workspace/ComfyUI", Some("v0.1.0".to_string())).done()),
    );
    assert_eq!(
        condition(&steps, 0).as_deref(),
        Some("all[exists(/workspace/ComfyUI/.git), git_tree(/workspace/ComfyUI)=v0.1.0]"),
        "the repository first, then the ref it must hold",
    );
}

#[test]
fn expand_comfyui_install_honours_a_declared_repo() {
    let ids = IdGen::new();
    let payload = ProfileNode::ComfyUiInstall {
        id: node_id(&ids),
        ref_name: "main".to_string(),
        repo: Some("fork/ComfyUI".to_string()),
    };
    let steps = expand(&payload).expect("comfyui_install expands");
    match &steps[0].step {
        Step::Sh(argv) => {
            assert!(argv[2].contains("https://github.com/fork/ComfyUI.git"));
        }
        other => panic!("expected Sh, got {other:?}"),
    }
}

/// The check must *fail* on a mismatch, not print a version and
/// leave the comparison to the reader.
#[test]
fn expand_python_version_check_asserts_the_wanted_version() {
    let ids = IdGen::new();
    let payload = ProfileNode::PythonVersionCheck {
        id: node_id(&ids),
        want: "3.12".to_string(),
    };
    let steps = expand(&payload).expect("python_version_check expands");
    assert_eq!(
        effects(steps),
        vec![Step::Sh(vec![
            "python3".to_string(),
            "-c".to_string(),
            "import sys; assert sys.version.startswith(\"3.12\"), \
         \"python version mismatch: want 3.12, got \" + sys.version"
                .to_string(),
        ])]
    );
}

#[test]
fn expand_python_deps_selects_venv_pip_when_in_comfy_venv_is_true() {
    let ids = IdGen::new();
    let payload = ProfileNode::PythonDeps {
        id: node_id(&ids),
        deps: vec!["torch".to_string(), "vllm".to_string()],
        in_comfy_venv: true,
    };
    let steps = expand(&payload).expect("python_deps expands");
    assert_eq!(
        effects(steps),
        vec![Step::Sh(vec![
            "/workspace/ComfyUI/venv/bin/pip".to_string(),
            "install".to_string(),
            "torch".to_string(),
            "vllm".to_string(),
        ])]
    );
}

#[test]
fn expand_python_deps_falls_back_to_system_pip_outside_the_venv() {
    let ids = IdGen::new();
    let payload = ProfileNode::PythonDeps {
        id: node_id(&ids),
        deps: vec!["ruff".to_string()],
        in_comfy_venv: false,
    };
    let steps = expand(&payload).expect("python_deps expands");
    match &steps[0].step {
        Step::Sh(argv) => assert_eq!(argv[0], "pip"),
        other => panic!("expected Sh, got {other:?}"),
    }
}

#[test]
fn expand_custom_nodes_fans_out_clone_ref_and_pip_per_declared_flag() {
    let ids = IdGen::new();
    let payload = ProfileNode::CustomNodes {
        id: node_id(&ids),
        nodes: custom_nodes(r#"[
            {"name":"only-clone","repo":"a/b"},
            {"name":"with-ref","repo":"c/d","ref":"v2"},
            {"name":"with-pip","repo":"e/f","pip":true},
            {"name":"full","repo":"g/h","ref":"main","pip":true}
        ]"#),
    };
    let steps = expand(&payload).expect("custom_nodes expands");
    // only-clone: 1, with-ref: 2, with-pip: 2, full: 3 → 8 steps.
    assert_eq!(steps.len(), 8);
    assert!(matches!(&steps[0].step, Step::Sh(a) if a[2] == "https://github.com/a/b.git"));
    assert!(matches!(&steps[1].step, Step::Sh(a) if a[2] == "https://github.com/c/d.git"));
    assert!(matches!(
        &steps[2].step,
        Step::Sh(a) if a[0] == "git" && a[3] == "checkout" && a[4] == "v2"
    ));
    assert!(matches!(
        &steps[4].step,
        Step::Sh(a) if a[0] == "/workspace/ComfyUI/venv/bin/pip"
    ));
    assert!(matches!(
        &steps[7].step,
        Step::Sh(a) if a[0] == "/workspace/ComfyUI/venv/bin/pip"
            && a[3] == "/workspace/ComfyUI/custom_nodes/full/requirements.txt"
    ));
}

#[test]
fn expand_custom_nodes_conditions_the_clone_and_the_checkout_but_not_the_pip() {
    let ids = IdGen::new();
    let steps = expand(&ProfileNode::CustomNodes {
        id: node_id(&ids),
        nodes: custom_nodes(r#"[{"name":"full","repo":"g/h","ref":"main","pip":true}]"#),
    })
    .expect("custom_nodes expands");
    assert_eq!(steps.len(), 3);

    let node_dir = "/workspace/ComfyUI/custom_nodes/full";
    assert_eq!(
        steps[0].done,
        Some(Checkout::new(node_dir, None).done()),
        "the clone is finished once the repository is there — the ref is the next step's work",
    );
    assert_eq!(
        condition(&steps, 0).as_deref(),
        Some("exists(/workspace/ComfyUI/custom_nodes/full/.git)"),
        "one predicate, no conjunction around it",
    );
    assert_eq!(
        steps[1].done,
        Some(Checkout::new(node_dir, Some("main".to_string())).done()),
    );
    assert_eq!(
        steps[2].done, None,
        "the pip install has no condition: 'the requirements are installed' is not a Checkout",
    );
}

#[test]
fn every_composed_step_declares_its_condition() {
    let ids = IdGen::new();
    // (payload, one `Some(rendered)` / `None` per composed step)
    let cases: Vec<(ProfileNode, Vec<Option<&str>>)> = vec![
        (
            ProfileNode::SystemApt {
                id: node_id(&ids),
                packages: vec!["git".into()],
            },
            vec![None],
        ),
        (
            ProfileNode::ComfyUiInstall {
                id: node_id(&ids),
                ref_name: "v1".into(),
                repo: None,
            },
            vec![Some(
                "all[exists(/workspace/ComfyUI/.git), git_tree(/workspace/ComfyUI)=v1]",
            )],
        ),
        (
            ProfileNode::PythonVersionCheck {
                id: node_id(&ids),
                want: "3.12".into(),
            },
            vec![None],
        ),
        (
            ProfileNode::PythonDeps {
                id: node_id(&ids),
                deps: vec!["torch".into()],
                in_comfy_venv: true,
            },
            vec![None],
        ),
        (
            ProfileNode::CustomNodes {
                id: node_id(&ids),
                nodes: custom_nodes(r#"[{"name":"n","repo":"a/b","ref":"v2","pip":true}]"#),
            },
            vec![
                Some("exists(/workspace/ComfyUI/custom_nodes/n/.git)"),
                Some(
                    "all[exists(/workspace/ComfyUI/custom_nodes/n/.git), \
                     git_tree(/workspace/ComfyUI/custom_nodes/n)=v2]",
                ),
                None,
            ],
        ),
        (
            ProfileNode::SyncPull {
                id: node_id(&ids),
                src: "https://ex/m.bin".into(),
                dst: "/workspace/m.bin".into(),
                env: Default::default(),
                revision: None,
            },
            vec![None],
        ),
        (
            ProfileNode::SyncPush {
                id: node_id(&ids),
                src: "/workspace/out.bin".into(),
                dst: "https://ex/out.bin".into(),
            },
            vec![None],
        ),
        (
            ProfileNode::StagingPush {
                id: node_id(&ids),
                src: "/workspace/out.bin".into(),
                dst: "b2://bucket/out.bin".into(),
                env: Default::default(),
                revision: None,
            },
            vec![None],
        ),
        (
            ProfileNode::Models {
                id: node_id(&ids),
                models: models(r#"[{"src":"https://ex/a.bin","dst":"a.bin"}]"#),
            },
            vec![Some("exists(/workspace/ComfyUI/models/checkpoints/a.bin)")],
        ),
        (
            ProfileNode::LlmModels {
                id: node_id(&ids),
                models: llm_models(r#"[{"src":"hf://owner/repo"}]"#),
            },
            vec![None],
        ),
        (
            ProfileNode::PostInstall {
                id: node_id(&ids),
                script: "true".into(),
            },
            vec![None],
        ),
        (
            ProfileNode::ComfyUiRestart {
                id: node_id(&ids),
                port: 8188,
                extra_args: Vec::new(),
            },
            vec![None],
        ),
        (
            ProfileNode::ComfyUiHealth {
                id: node_id(&ids),
                port: 8188,
                timeout_sec: None,
            },
            vec![None],
        ),
        (
            ProfileNode::ServiceStart {
                id: node_id(&ids),
                name: "llm".into(),
                platform_kind: "ollama".into(),
                model: None,
                port: None,
                dtype: None,
                tensor_parallel_size: None,
                extra_args: Vec::new(),
            },
            vec![None],
        ),
        (
            ProfileNode::ServiceReady {
                id: node_id(&ids),
                name: "llm".into(),
                check_url: "http://127.0.0.1:9000/health".into(),
                timeout_sec: None,
            },
            vec![None],
        ),
    ];
    assert_eq!(cases.len(), 15, "one case per lifecycle kind");

    for (payload, want) in cases {
        let kind = kind_of(&payload);
        let steps = expand(&payload).unwrap_or_else(|err| panic!("{kind} expands: {}", err.to_string()));
        let got: Vec<Option<String>> = (0..steps.len())
            .map(|index| condition(&steps, index))
            .collect();
        let got: Vec<Option<&str>> = got.iter().map(Option::as_deref).collect();
        assert_eq!(got, want, "{kind}");
    }
}

#[test]
fn expand_custom_nodes_returns_effect_failed_on_malformed_json() {
    let ids = IdGen::new();
    let payload = ProfileNode::CustomNodes {
        id: node_id(&ids),
        nodes: custom_nodes("not-json"),
    };
    let err = expand(&payload).expect_err("malformed JSON must fail");
    match err {
        ExecError::EffectFailed { op, message } => {
            assert_eq!(op, "custom_nodes");
            assert!(message.contains("nodes_json parse"));
        }
        other => panic!("expected EffectFailed, got {other:?}"),
    }
}

#[test]
fn expand_sync_pull_maps_an_https_source_to_a_transfer_step() {
    let ids = IdGen::new();
    let payload = ProfileNode::SyncPull {
        id: node_id(&ids),
        src: "https://example.com/m.bin".to_string(),
        dst: "/workspace/m.bin".to_string(),
        env: Default::default(),
        revision: None,
    };
    let steps = expand(&payload).expect("sync_pull expands");
    assert_eq!(
        steps,
        // A `sync.pull` derives no entity, so it keeps running
        // every time.
        vec![PlannedStep::always(Step::Transfer {
            src: "https://example.com/m.bin".to_string(),
            dst: "/workspace/m.bin".to_string(),
        })]
    );
}

#[test]
fn expand_sync_pull_rejects_a_public_b2_source_without_env_as_unsupported() {
    let ids = IdGen::new();
    let payload = ProfileNode::SyncPull {
        id: node_id(&ids),
        src: "b2://bucket/model.safetensors".to_string(),
        dst: "/workspace/model.safetensors".to_string(),
        env: Default::default(),
        revision: None,
    };
    let err = expand(&payload).expect_err("public b2:// (no env) must be unsupported");
    match err {
        ExecError::Unsupported(msg) => {
            assert!(
                msg.contains("download endpoint") && msg.contains("b2 CLI route"),
                "{msg}"
            );
        }
        other => panic!("expected Unsupported, got {other:?}"),
    }
}

#[test]
fn expand_sync_pull_resolves_a_public_hf_source_to_its_https_url() {
    let ids = IdGen::new();
    let payload = ProfileNode::SyncPull {
        id: node_id(&ids),
        src: "hf://owner/repo/model.safetensors".to_string(),
        dst: "/workspace/model.safetensors".to_string(),
        env: Default::default(),
        revision: None,
    };
    assert_eq!(
        expand(&payload).expect("public hf:// resolves"),
        vec![PlannedStep::always(Step::Transfer {
            src: "https://huggingface.co/owner/repo/resolve/main/model.safetensors".to_string(),
            dst: "/workspace/model.safetensors".to_string(),
        })],
    );
}

/// The phase's `revision` reaches the resolved URL on the public
/// route, as it does on the CLI route's `--revision`.
#[test]
fn expand_sync_pull_pins_the_declared_revision_on_the_public_route() {
    let ids = IdGen::new();
    let payload = ProfileNode::SyncPull {
        id: node_id(&ids),
        src: "hf://owner/repo/model.safetensors".to_string(),
        dst: "/workspace/model.safetensors".to_string(),
        env: Default::default(),
        revision: Some("v2".to_string()),
    };
    assert_eq!(
        expand(&payload).expect("public hf:// resolves"),
        vec![PlannedStep::always(Step::Transfer {
            src: "https://huggingface.co/owner/repo/resolve/v2/model.safetensors".to_string(),
            dst: "/workspace/model.safetensors".to_string(),
        })],
    );
}

#[test]
fn expand_sync_pull_b2_with_env_routes_to_the_native_cli() {
    let ids = IdGen::new();
    let mut env = Slots::new();
    env.insert(
        "B2_APPLICATION_KEY".to_string(),
        ProfileNode::EnvSecret {
            id: node_id(&ids),
            name: "B2_APPLICATION_KEY".to_string(),
        },
    );
    let payload = ProfileNode::SyncPull {
        id: node_id(&ids),
        src: "b2://my-bucket/models/model.bin".to_string(),
        dst: "/workspace/model.bin".to_string(),
        env,
        revision: None,
    };
    let steps = expand(&payload).expect("b2 + env expands to a CLI step");
    assert_eq!(
        effects(steps),
        vec![Step::Sh(vec![
            "b2".to_string(),
            "download-file-by-name".to_string(),
            "my-bucket".to_string(),
            "models/model.bin".to_string(),
            "/workspace/model.bin".to_string(),
        ])]
    );
}

#[test]
fn expand_sync_pull_hf_with_env_routes_to_the_native_cli() {
    let ids = IdGen::new();
    let mut env = Slots::new();
    env.insert(
        "HF_TOKEN".to_string(),
        ProfileNode::EnvSecret {
            id: node_id(&ids),
            name: "HF_TOKEN".to_string(),
        },
    );
    let payload = ProfileNode::SyncPull {
        id: node_id(&ids),
        src: "hf://my-org/private-lora/weights/v1.safetensors".to_string(),
        dst: "/workspace/loras".to_string(),
        env,
        revision: None,
    };
    let steps = expand(&payload).expect("hf + env expands to a CLI step");
    assert_eq!(
        effects(steps),
        vec![Step::Sh(vec![
            "hf".to_string(),
            "download".to_string(),
            "my-org/private-lora".to_string(),
            "weights/v1.safetensors".to_string(),
            "--local-dir".to_string(),
            "/workspace/loras".to_string(),
        ])]
    );
}

#[test]
fn expand_sync_pull_hf_prefers_the_url_revision_over_the_payload_one() {
    let ids = IdGen::new();
    let mut env = Slots::new();
    env.insert(
        "HF_TOKEN".to_string(),
        ProfileNode::EnvSecret {
            id: node_id(&ids),
            name: "HF_TOKEN".to_string(),
        },
    );
    let payload = ProfileNode::SyncPull {
        id: node_id(&ids),
        src: "hf://owner/repo@v2.0/weights/model.bin".to_string(),
        dst: "/workspace/models".to_string(),
        env,
        revision: Some("ignored-payload-rev".to_string()),
    };
    let steps = expand(&payload).expect("hf + env + @rev expands");
    assert_eq!(
        effects(steps),
        vec![Step::Sh(vec![
            "hf".to_string(),
            "download".to_string(),
            "owner/repo".to_string(),
            "weights/model.bin".to_string(),
            "--local-dir".to_string(),
            "/workspace/models".to_string(),
            "--revision".to_string(),
            "v2.0".to_string(),
        ])]
    );
}

/// With no `@<rev>` in the URL the payload's `revision` is used.
#[test]
fn expand_sync_pull_hf_falls_back_to_the_payload_revision() {
    let ids = IdGen::new();
    let mut env = Slots::new();
    env.insert(
        "HF_TOKEN".to_string(),
        ProfileNode::EnvSecret {
            id: node_id(&ids),
            name: "HF_TOKEN".to_string(),
        },
    );
    let payload = ProfileNode::SyncPull {
        id: node_id(&ids),
        src: "hf://owner/repo/model.bin".to_string(),
        dst: "/workspace/models".to_string(),
        env,
        revision: Some("abc123".to_string()),
    };
    let steps = expand(&payload).expect("hf + env + payload revision expands");
    match &steps[0].step {
        Step::Sh(argv) => {
            assert_eq!(argv[argv.len() - 2..], ["--revision", "abc123"]);
        }
        other => panic!("expected Sh, got {other:?}"),
    }
}

/// `hf://<owner>/<repo>` with no trailing path names a repo, not a
/// file — that is `llm_models`' snapshot shape, not a `sync.pull`.
#[test]
fn expand_sync_pull_hf_without_a_file_path_is_an_error() {
    let ids = IdGen::new();
    let mut env = Slots::new();
    env.insert(
        "HF_TOKEN".to_string(),
        ProfileNode::EnvSecret {
            id: node_id(&ids),
            name: "HF_TOKEN".to_string(),
        },
    );
    let payload = ProfileNode::SyncPull {
        id: node_id(&ids),
        src: "hf://owner/repo".to_string(),
        dst: "/workspace/models".to_string(),
        env,
        revision: None,
    };
    let err = expand(&payload).expect_err("a repo-only hf:// URI must fail");
    assert!(
        err.to_string().contains("missing the file path segment"),
        "{}",
        err.to_string()
    );
}

#[test]
fn expand_sync_pull_https_with_env_stays_a_plain_transfer() {
    let ids = IdGen::new();
    let mut env = Slots::new();
    env.insert(
        "SOME_VAR".to_string(),
        ProfileNode::EnvLiteral {
            id: node_id(&ids),
            value: "x".to_string(),
        },
    );
    let payload = ProfileNode::SyncPull {
        id: node_id(&ids),
        src: "https://example.com/m.bin".to_string(),
        dst: "/workspace/m.bin".to_string(),
        env,
        revision: None,
    };
    let steps = expand(&payload).expect("https + env stays on the plain download path");
    assert_eq!(
        steps,
        vec![PlannedStep::always(Step::Transfer {
            src: "https://example.com/m.bin".to_string(),
            dst: "/workspace/m.bin".to_string(),
        })]
    );
}

#[test]
fn expand_sync_push_records_a_marker_note() {
    let ids = IdGen::new();
    let payload = ProfileNode::SyncPush {
        id: node_id(&ids),
        src: "/workspace/out.bin".to_string(),
        dst: "https://example.com/out.bin".to_string(),
    };
    let steps = expand(&payload).expect("sync_push expands");
    assert_eq!(steps.len(), 1);
    match &steps[0].step {
        Step::Note(msg) => {
            assert!(msg.contains("marker only"));
            assert!(msg.contains("not executed during apply"));
        }
        other => panic!("expected Note, got {other:?}"),
    }
}

#[test]
fn expand_staging_push_b2_dst_builds_the_upload_argv() {
    let ids = IdGen::new();
    let payload = ProfileNode::StagingPush {
        id: node_id(&ids),
        src: "/workspace/out.bin".to_string(),
        dst: "b2://bucket/out/out.bin".to_string(),
        env: Default::default(),
        revision: None,
    };
    let steps = expand(&payload).expect("b2 staging upload expands to a CLI step");
    assert_eq!(
        effects(steps),
        vec![Step::Sh(vec![
            "b2".to_string(),
            "upload-file".to_string(),
            "bucket".to_string(),
            "/workspace/out.bin".to_string(),
            "out/out.bin".to_string(),
        ])]
    );
}

#[test]
fn expand_staging_push_hf_dst_builds_upload_argv_with_revision_and_path_in_repo() {
    let ids = IdGen::new();
    let payload = ProfileNode::StagingPush {
        id: node_id(&ids),
        src: "/workspace/out.bin".to_string(),
        dst: "hf://owner/repo/artifact.bin".to_string(),
        env: Default::default(),
        revision: Some("main".to_string()),
    };
    let steps = expand(&payload).expect("hf staging upload expands to a CLI step");
    assert_eq!(
        effects(steps),
        vec![Step::Sh(vec![
            "hf".to_string(),
            "upload".to_string(),
            "owner/repo".to_string(),
            "/workspace/out.bin".to_string(),
            "artifact.bin".to_string(),
            "--revision".to_string(),
            "main".to_string(),
        ])]
    );
}

#[test]
fn expand_staging_push_hf_url_revision_wins_over_opts_revision() {
    let ids = IdGen::new();
    let payload = ProfileNode::StagingPush {
        id: node_id(&ids),
        src: "/workspace/out.bin".to_string(),
        dst: "hf://owner/repo@urlrev/artifact.bin".to_string(),
        env: Default::default(),
        revision: Some("optsrev".to_string()),
    };
    let steps = expand(&payload).expect("hf staging upload expands");
    match &steps[0].step {
        Step::Sh(argv) => {
            assert_eq!(argv[2], "owner/repo");
            // The URL-carried @urlrev wins over the opts revision.
            assert_eq!(argv.last().map(String::as_str), Some("urlrev"));
        }
        other => panic!("expected Sh, got {other:?}"),
    }
}

#[test]
fn expand_staging_push_https_dst_composes_a_bridge_upload() {
    let ids = IdGen::new();
    let payload = ProfileNode::StagingPush {
        id: node_id(&ids),
        src: "/workspace/out.bin".to_string(),
        dst: "https://example.com/out.bin".to_string(),
        env: Default::default(),
        revision: None,
    };
    assert_eq!(
        expand(&payload).expect("https upload composes a transfer step"),
        vec![PlannedStep::always(Step::Transfer {
            src: "/workspace/out.bin".to_string(),
            dst: "https://example.com/out.bin".to_string(),
        })],
    );
}

#[test]
fn expand_models_composes_the_target_path_from_subdir_and_dst() {
    let ids = IdGen::new();
    let payload = ProfileNode::Models {
        id: node_id(&ids),
        models: models(r#"[
            {"src":"https://ex/a.bin","dst":"a.bin","subdir":"lora"},
            {"src":"https://ex/b.bin","name":"b.bin","kind":"vae"},
            {"src":"https://ex/c.bin","dst":"c.bin"}
        ]"#),
    };
    let steps = expand(&payload).expect("models expands");
    let existence = |path: &str| {
        Some(Assert::FileExists {
            path: path.to_string(),
        })
    };
    assert_eq!(
        steps,
        vec![
            // No declared digest, so the condition is existence of
            // the composed destination — the same path the step
            // downloads to, derived once.
            PlannedStep {
                step: Step::Transfer {
                    src: "https://ex/a.bin".to_string(),
                    dst: "/workspace/ComfyUI/models/lora/a.bin".to_string(),
                },
                done: existence("/workspace/ComfyUI/models/lora/a.bin"),
            },
            PlannedStep {
                step: Step::Transfer {
                    src: "https://ex/b.bin".to_string(),
                    dst: "/workspace/ComfyUI/models/vae/b.bin".to_string(),
                },
                done: existence("/workspace/ComfyUI/models/vae/b.bin"),
            },
            PlannedStep {
                step: Step::Transfer {
                    src: "https://ex/c.bin".to_string(),
                    dst: "/workspace/ComfyUI/models/checkpoints/c.bin".to_string(),
                },
                done: existence("/workspace/ComfyUI/models/checkpoints/c.bin"),
            },
        ]
    );
}

#[test]
fn expand_models_carries_a_declared_digest_into_the_step_condition() {
    let ids = IdGen::new();
    let digest = "9a129038d9a00aed0cf6a7ea059ca50a813449061ab87848cf1a13eafdf33b2c".to_string();
    let payload = ProfileNode::Models {
        id: node_id(&ids),
        models: models(&format!(r#"[{{"src":"https://ex/a.bin","dst":"a.bin","subdir":"lora","sha256":"{digest}"}}]"#)),
    };

    let steps = expand(&payload).expect("models expands");
    let dst = "/workspace/ComfyUI/models/lora/a.bin";
    assert_eq!(
        steps,
        vec![PlannedStep::done_when(
            Step::Transfer {
                src: "https://ex/a.bin".to_string(),
                dst: dst.to_string(),
            },
            ModelFile::new(dst, Some(digest)).done(),
        )],
    );
}

#[test]
fn expand_models_returns_effect_failed_on_malformed_json() {
    let ids = IdGen::new();
    let payload = ProfileNode::Models {
        id: node_id(&ids),
        models: models("{not json"),
    };
    let err = expand(&payload).expect_err("malformed JSON must fail");
    match err {
        ExecError::EffectFailed { op, .. } => assert_eq!(op, "models"),
        other => panic!("expected EffectFailed, got {other:?}"),
    }
}

#[test]
fn expand_llm_models_builds_the_huggingface_cli_argv() {
    let ids = IdGen::new();
    let payload = ProfileNode::LlmModels {
        id: node_id(&ids),
        models: llm_models(r#"[
            {"src":"hf://owner/repo"},
            {"src":"hf://owner/repo@abc123","dst_dir":"/models/x/"}
        ]"#),
    };
    let steps = expand(&payload).expect("llm_models expands");
    assert_eq!(
        steps[0].step,
        Step::Sh(vec![
            "hf".to_string(),
            "download".to_string(),
            "owner/repo".to_string(),
            "--local-dir".to_string(),
            "/tmp/".to_string(),
        ])
    );
    assert_eq!(
        steps[1].step,
        Step::Sh(vec![
            "hf".to_string(),
            "download".to_string(),
            "owner/repo".to_string(),
            "--local-dir".to_string(),
            "/models/x/".to_string(),
            "--revision".to_string(),
            "abc123".to_string(),
        ])
    );
}

#[test]
fn expand_llm_models_rejects_a_non_hf_source() {
    let ids = IdGen::new();
    let payload = ProfileNode::LlmModels {
        id: node_id(&ids),
        models: llm_models(r#"[{"src":"https://example.com/model"}]"#),
    };
    let err = expand(&payload).expect_err("non-hf src must fail");
    match err {
        ExecError::EffectFailed { op, message } => {
            assert_eq!(op, "llm_models");
            assert!(message.contains("must be an hf:// URI"));
        }
        other => panic!("expected EffectFailed, got {other:?}"),
    }
}

#[test]
fn expand_llm_models_returns_effect_failed_on_malformed_json() {
    let ids = IdGen::new();
    let payload = ProfileNode::LlmModels {
        id: node_id(&ids),
        models: llm_models("not-json"),
    };
    let err = expand(&payload).expect_err("malformed JSON must fail");
    match err {
        ExecError::EffectFailed { op, .. } => assert_eq!(op, "llm_models"),
        other => panic!("expected EffectFailed, got {other:?}"),
    }
}

#[test]
fn expand_post_install_wraps_the_script_in_sh_c() {
    let ids = IdGen::new();
    let payload = ProfileNode::PostInstall {
        id: node_id(&ids),
        script: "echo done".to_string(),
    };
    let steps = expand(&payload).expect("post_install expands");
    assert_eq!(
        effects(steps),
        vec![Step::Sh(vec![
            "sh".to_string(),
            "-c".to_string(),
            "echo done".to_string(),
        ])]
    );
}

// -------------------------------------------------------------
// Launches and the polls that wait for them.
// -------------------------------------------------------------

fn sh_command(planned: &PlannedStep) -> &str {
    match &planned.step {
        Step::Sh(argv) => {
            assert_eq!(argv[..2], ["sh".to_string(), "-c".to_string()]);
            &argv[2]
        }
        other => panic!("expected Sh, got {other:?}"),
    }
}

#[test]
fn expand_comfyui_restart_backgrounds_the_launch_from_the_install_dir() {
    let ids = IdGen::new();
    let payload = ProfileNode::ComfyUiRestart {
        id: node_id(&ids),
        port: 8188,
        extra_args: Vec::new(),
    };
    let steps = expand(&payload).expect("comfyui_restart expands");
    assert_eq!(steps.len(), 1);
    assert_eq!(
        sh_command(&steps[0]),
        "cd /workspace/ComfyUI && { nohup /workspace/ComfyUI/venv/bin/python \
         /workspace/ComfyUI/main.py --port 8188 > /tmp/comfyui.log 2>&1 & \
         pid=$!; echo $pid > /tmp/comfyui.pid; sleep 1; \
         kill -0 $pid 2>/dev/null || { echo 'comfyui died immediately' >&2; \
         tail -100 /tmp/comfyui.log >&2; exit 1; }; }"
    );
}

/// Declared `extra_args` land as argv positions after `--port`.
#[test]
fn expand_comfyui_restart_appends_declared_extra_args() {
    let ids = IdGen::new();
    let payload = ProfileNode::ComfyUiRestart {
        id: node_id(&ids),
        port: 8188,
        extra_args: vec!["--listen".to_string(), "--highvram".to_string()],
    };
    let steps = expand(&payload).expect("comfyui_restart expands");
    assert_eq!(
        sh_command(&steps[0]),
        "cd /workspace/ComfyUI && { nohup /workspace/ComfyUI/venv/bin/python \
         /workspace/ComfyUI/main.py --port 8188 --listen --highvram \
         > /tmp/comfyui.log 2>&1 & pid=$!; echo $pid > /tmp/comfyui.pid; sleep 1; \
         kill -0 $pid 2>/dev/null || { echo 'comfyui died immediately' >&2; \
         tail -100 /tmp/comfyui.log >&2; exit 1; }; }"
    );
}

/// The redirect keeps `Command::output()` from blocking on pipes the
/// backgrounded server would otherwise hold open for its lifetime.
#[test]
fn a_backgrounded_launch_always_redirects_its_output_to_a_file() {
    let ids = IdGen::new();
    let restart = expand(&ProfileNode::ComfyUiRestart {
        id: node_id(&ids),
        port: 8188,
        extra_args: Vec::new(),
    })
    .expect("comfyui_restart expands");
    let start = expand(&ProfileNode::ServiceStart {
        id: node_id(&ids),
        name: "llm".to_string(),
        platform_kind: "ollama".to_string(),
        model: None,
        port: None,
        dtype: None,
        tensor_parallel_size: None,
        extra_args: Vec::new(),
    })
    .expect("service_start expands");

    for step in [&restart[0], &start[0]] {
        let command = sh_command(step);
        assert!(
            command.contains("2>&1 &") && command.contains("> /tmp/"),
            "a detached launch must redirect to a file: {command}"
        );
    }
}

#[test]
fn a_backgrounded_launch_records_its_pid_and_checks_it_survived() {
    let ids = IdGen::new();
    let restart = expand(&ProfileNode::ComfyUiRestart {
        id: node_id(&ids),
        port: 8188,
        extra_args: Vec::new(),
    })
    .expect("comfyui_restart expands");
    let start = expand(&ProfileNode::ServiceStart {
        id: node_id(&ids),
        name: "llm".to_string(),
        platform_kind: "ollama".to_string(),
        model: None,
        port: None,
        dtype: None,
        tensor_parallel_size: None,
        extra_args: Vec::new(),
    })
    .expect("service_start expands");

    for (step, pid_path) in [
        (&restart[0], "/tmp/comfyui.pid"),
        (&start[0], "/tmp/llm.pid"),
    ] {
        let command = sh_command(step);
        assert!(
            command.contains(&format!("pid=$!; echo $pid > {pid_path}")),
            "the launch must record the backgrounded pid: {command}"
        );
        assert!(
            command.contains("sleep 1; kill -0 $pid 2>/dev/null || {"),
            "the launch must settle-check the pid it recorded: {command}"
        );
        assert!(
            command.contains("died immediately") && command.contains("tail -100 /tmp/"),
            "a died-immediately launch must fail with its log tail: {command}"
        );
        assert!(
            command.contains("exit 1"),
            "a died-immediately launch must fail the step: {command}"
        );
    }
}

#[test]
fn each_launch_pid_path_is_the_one_its_poll_watches() {
    let ids = IdGen::new();
    let pairs = [
        (
            expand(&ProfileNode::ComfyUiRestart {
                id: node_id(&ids),
                port: 8188,
                extra_args: Vec::new(),
            })
            .expect("comfyui_restart expands"),
            expand(&ProfileNode::ComfyUiHealth {
                id: node_id(&ids),
                port: 8188,
                timeout_sec: None,
            })
            .expect("comfyui_health expands"),
        ),
        (
            expand(&ProfileNode::ServiceStart {
                id: node_id(&ids),
                name: "engine".to_string(),
                platform_kind: "ollama".to_string(),
                model: None,
                port: None,
                dtype: None,
                tensor_parallel_size: None,
                extra_args: Vec::new(),
            })
            .expect("service_start expands"),
            expand(&ProfileNode::ServiceReady {
                id: node_id(&ids),
                name: "engine".to_string(),
                check_url: "http://127.0.0.1:11434/".to_string(),
                timeout_sec: None,
            })
            .expect("service_ready expands"),
        ),
    ];

    for (launch, poll) in pairs {
        let command = sh_command(&launch[0]);
        match &poll[0].step {
            Step::HttpPoll {
                pid_file: Some(pid_file),
                log_path: Some(log_path),
                ..
            } => {
                assert!(
                    command.contains(&format!("echo $pid > {pid_file}")),
                    "poll watches {pid_file}, launch writes elsewhere: {command}"
                );
                assert!(
                    command.contains(&format!("> {log_path} 2>&1 &")),
                    "poll tails {log_path}, launch logs elsewhere: {command}"
                );
            }
            other => panic!("expected a poll with liveness paths, got {other:?}"),
        }
    }
}

#[test]
fn expand_comfyui_health_polls_the_api_endpoint_not_the_ui_root() {
    let ids = IdGen::new();
    let payload = ProfileNode::ComfyUiHealth {
        id: node_id(&ids),
        port: 8188,
        timeout_sec: None,
    };
    let steps = expand(&payload).expect("comfyui_health expands");
    assert_eq!(
        effects(steps),
        vec![Step::HttpPoll {
            // `/` answers 200 from the UI before the API is usable.
            url: "http://127.0.0.1:8188/object_info".to_string(),
            // An undeclared deadline falls back to the kind default,
            // which is sized for a cold boot rather than for an HTTP
            // round trip.
            timeout_sec: COMFYUI_HEALTH_TIMEOUT_SEC,
            // Wired to `comfyui.restart`'s launch so a ComfyUI that
            // dies during the wait fails the poll at once.
            pid_file: Some("/tmp/comfyui.pid".to_string()),
            log_path: Some("/tmp/comfyui.log".to_string()),
        }]
    );
    assert_eq!(COMFYUI_HEALTH_TIMEOUT_SEC, 180);
}

/// A declared `timeout_sec` replaces the kind default — including
/// when it is shorter, so a profile can ask for a fast failure.
#[test]
fn expand_comfyui_health_honours_a_declared_timeout() {
    let ids = IdGen::new();
    for declared in [30u16, 600] {
        let payload = ProfileNode::ComfyUiHealth {
            id: node_id(&ids),
            port: 8188,
            timeout_sec: Some(declared),
        };
        let steps = expand(&payload).expect("comfyui_health expands");
        assert_eq!(
            effects(steps),
            vec![Step::HttpPoll {
                url: "http://127.0.0.1:8188/object_info".to_string(),
                timeout_sec: u64::from(declared),
                pid_file: Some("/tmp/comfyui.pid".to_string()),
                log_path: Some("/tmp/comfyui.log".to_string()),
            }]
        );
    }
}

fn service_start(
    ids: &IdGen,
    platform_kind: &str,
    model: Option<&str>,
    port: Option<u16>,
    dtype: Option<&str>,
    tensor_parallel_size: Option<u16>,
    extra_args: &[&str],
) -> Vec<PlannedStep> {
    let payload = ProfileNode::ServiceStart {
        id: node_id(ids),
        name: "llm".to_string(),
        platform_kind: platform_kind.to_string(),
        model: model.map(str::to_string),
        port,
        dtype: dtype.map(str::to_string),
        tensor_parallel_size,
        extra_args: extra_args.iter().map(|s| s.to_string()).collect(),
    };
    expand(&payload).expect("service_start expands")
}

#[test]
fn expand_service_start_vllm_uses_the_openai_api_server_entry_point() {
    let ids = IdGen::new();
    let steps = service_start(
        &ids,
        "vllm",
        Some("meta-llama/Llama-3-8B"),
        None,
        None,
        None,
        &[],
    );
    assert_eq!(
        sh_command(&steps[0]),
        "nohup python -m vllm.entrypoints.openai.api_server \
         --model meta-llama/Llama-3-8B > /tmp/llm.log 2>&1 & \
         pid=$!; echo $pid > /tmp/llm.pid; sleep 1; \
         kill -0 $pid 2>/dev/null || { echo 'service llm died immediately' >&2; \
         tail -100 /tmp/llm.log >&2; exit 1; }"
    );
}

#[test]
fn expand_service_start_vllm_appends_declared_knobs_after_dtype() {
    let ids = IdGen::new();
    let steps = service_start(
        &ids,
        "vllm",
        Some("m"),
        Some(9000),
        Some("bfloat16"),
        Some(4),
        &["--max-model-len=8192"],
    );
    assert_eq!(
        sh_command(&steps[0]),
        "nohup python -m vllm.entrypoints.openai.api_server --model m \
         --port 9000 --dtype bfloat16 --tensor-parallel-size 4 \
         --max-model-len=8192 > /tmp/llm.log 2>&1 & \
         pid=$!; echo $pid > /tmp/llm.pid; sleep 1; \
         kill -0 $pid 2>/dev/null || { echo 'service llm died immediately' >&2; \
         tail -100 /tmp/llm.log >&2; exit 1; }"
    );
}

#[test]
fn expand_service_start_ollama_just_serves() {
    let ids = IdGen::new();
    let steps = service_start(&ids, "ollama", None, Some(9999), None, None, &[]);
    assert_eq!(
        sh_command(&steps[0]),
        "nohup ollama serve > /tmp/llm.log 2>&1 & \
         pid=$!; echo $pid > /tmp/llm.pid; sleep 1; \
         kill -0 $pid 2>/dev/null || { echo 'service llm died immediately' >&2; \
         tail -100 /tmp/llm.log >&2; exit 1; }"
    );
}

#[test]
fn expand_service_start_llamacpp_uses_llama_server() {
    let ids = IdGen::new();
    let steps = service_start(
        &ids,
        "llamacpp",
        Some("/models/q4.gguf"),
        None,
        None,
        None,
        &[],
    );
    assert_eq!(
        sh_command(&steps[0]),
        "nohup llama-server --model /models/q4.gguf > /tmp/llm.log 2>&1 & \
         pid=$!; echo $pid > /tmp/llm.pid; sleep 1; \
         kill -0 $pid 2>/dev/null || { echo 'service llm died immediately' >&2; \
         tail -100 /tmp/llm.log >&2; exit 1; }"
    );
}

/// Emitting `--model` with nothing after it would make the next
/// token the model, launching something the profile never asked
/// for — so a missing model is reported, not papered over.
#[test]
fn expand_service_start_notes_out_when_a_required_model_is_absent() {
    let ids = IdGen::new();
    for platform in ["vllm", "llamacpp"] {
        let steps = service_start(&ids, platform, None, None, None, None, &[]);
        match &steps[0].step {
            Step::Note(msg) => {
                assert!(msg.contains("name=llm"), "{msg}");
                assert!(msg.contains("requires `model`"), "{msg}");
            }
            other => panic!("expected Note for {platform}, got {other:?}"),
        }
    }
}

#[test]
fn expand_service_start_notes_out_an_unspecified_platform() {
    let ids = IdGen::new();
    let steps = service_start(&ids, "tgi", Some("m"), None, None, None, &[]);
    match &steps[0].step {
        Step::Note(msg) => {
            assert!(msg.contains("platform_kind=tgi"), "{msg}");
            assert!(msg.contains("vllm / ollama / llamacpp"), "{msg}");
        }
        other => panic!("expected Note, got {other:?}"),
    }
}

#[test]
fn expand_service_ready_polls_the_declared_check_url() {
    let ids = IdGen::new();
    let payload = ProfileNode::ServiceReady {
        id: node_id(&ids),
        name: "llm".to_string(),
        check_url: "http://127.0.0.1:9000/health".to_string(),
        timeout_sec: None,
    };
    let steps = expand(&payload).expect("service_ready expands");
    assert_eq!(
        effects(steps),
        vec![Step::HttpPoll {
            url: "http://127.0.0.1:9000/health".to_string(),
            // Engine start-up, not an HTTP round trip, sets this
            // default.
            timeout_sec: SERVICE_READY_TIMEOUT_SEC,
            // The paths `service.start name=llm` wrote — the poll
            // watches the process it is waiting for.
            pid_file: Some("/tmp/llm.pid".to_string()),
            log_path: Some("/tmp/llm.log".to_string()),
        }]
    );
    assert_eq!(SERVICE_READY_TIMEOUT_SEC, 300);
}

/// A declared `check.timeout_sec` replaces the kind default in
/// both directions.
#[test]
fn expand_service_ready_honours_a_declared_timeout() {
    let ids = IdGen::new();
    for declared in [15u16, 900] {
        let payload = ProfileNode::ServiceReady {
            id: node_id(&ids),
            name: "llm".to_string(),
            check_url: "http://127.0.0.1:9000/health".to_string(),
            timeout_sec: Some(declared),
        };
        let steps = expand(&payload).expect("service_ready expands");
        assert_eq!(
            effects(steps),
            vec![Step::HttpPoll {
                url: "http://127.0.0.1:9000/health".to_string(),
                timeout_sec: u64::from(declared),
                pid_file: Some("/tmp/llm.pid".to_string()),
                log_path: Some("/tmp/llm.log".to_string()),
            }]
        );
    }
}

#[test]
fn the_two_poll_kinds_carry_separate_defaults() {
    let ids = IdGen::new();
    let health = expand(&ProfileNode::ComfyUiHealth {
        id: node_id(&ids),
        port: 8188,
        timeout_sec: None,
    })
    .expect("comfyui_health expands");
    let ready = expand(&ProfileNode::ServiceReady {
        id: node_id(&ids),
        name: "llm".to_string(),
        check_url: "http://127.0.0.1:9000/health".to_string(),
        timeout_sec: None,
    })
    .expect("service_ready expands");
    let deadline = |steps: &[PlannedStep]| match &steps[0].step {
        Step::HttpPoll { timeout_sec, .. } => *timeout_sec,
        other => panic!("expected HttpPoll, got {other:?}"),
    };
    assert_eq!(deadline(&health), 180);
    assert_eq!(deadline(&ready), 300);
}

#[test]
fn expand_rejects_a_non_lifecycle_node() {
    let ids = IdGen::new();
    let payload = ProfileNode::ShExec {
        id: node_id(&ids),
        argv: vec!["ls".to_string()],
        env: Default::default(),
    };
    let err = expand(&payload).expect_err("ShExec is not a lifecycle payload");
    assert!(matches!(
        err,
        ExecError::PayloadVariant {
            expected: "lifecycle",
            ..
        }
    ));
}

#[test]
fn render_dry_labels_each_step_shape() {
    let no_env = EnvMap::new();
    assert_eq!(
        render_dry(&Step::Sh(vec!["ls".into()]), &no_env),
        "sh argv=[\"ls\"]"
    );
    assert!(render_dry(
        &Step::Transfer {
            src: "s".into(),
            dst: "d".into(),
        },
        &no_env
    )
    .starts_with("transfer src=s dst=d"));
    assert_eq!(
        render_dry(
            &Step::HttpPoll {
                url: "u".into(),
                timeout_sec: 5,
                pid_file: None,
                log_path: None,
            },
            &no_env
        ),
        "http_poll url=u timeout=5s"
    );
    assert!(render_dry(&Step::Note("n".into()), &no_env).starts_with("note "));
}

#[test]
fn render_dry_shows_env_keys_but_not_values_for_a_sh_step() {
    let mut env = EnvMap::new();
    env.insert("HF_TOKEN".to_string(), "super-secret".to_string());
    let rendered = render_dry(&Step::Sh(vec!["hf".into()]), &env);
    assert!(
        rendered.contains("env_keys=") && rendered.contains("HF_TOKEN"),
        "{rendered}"
    );
    assert!(
        !rendered.contains("super-secret"),
        "values must be redacted: {rendered}"
    );
}

#[test]
fn render_dry_shows_the_pid_file_a_poll_watches() {
    let no_env = EnvMap::new();
    let rendered = render_dry(
        &Step::HttpPoll {
            url: "http://127.0.0.1:8188/object_info".into(),
            timeout_sec: 180,
            pid_file: Some("/tmp/comfyui.pid".into()),
            log_path: Some("/tmp/comfyui.log".into()),
        },
        &no_env,
    );
    assert_eq!(
        rendered,
        "http_poll url=http://127.0.0.1:8188/object_info timeout=180s \
         pid_file=/tmp/comfyui.pid"
    );
}
