use harnessd::codex_sessions::CodexSessionInfo;
use harnessd::rpc::ScratchCreateResult;
use harnessd::threads::{
    store_path, thread_cleanup, thread_dir, ThreadAttachParams, ThreadCreateParams, ThreadDeleteParams, ThreadError,
    ThreadLinkParams, ThreadListParams, ThreadResolveParams, ThreadStore,
};

fn params(content: &str, needle: &str, prompt: &str) -> ThreadCreateParams {
    ThreadCreateParams {
        workspace: "/w".to_string(),
        file: "/w/main.rs".to_string(),
        offset: content.find(needle).unwrap(),
        content: content.to_string(),
        prompt: prompt.to_string(),
        selection_start: None,
        selection_end: None,
        model: None,
        reasoning_effort: None,
    }
}

#[test]
fn persists_links_and_reanchors() {
    let mut store = ThreadStore::new("/r/threads.json".to_string());
    let content = "fn a() {}\nlet target = 1;\nlet other = 2;\n";
    let created = store.create(&params(content, "target", "fix target"), 10, 10_000).unwrap();
    assert_eq!(created.thread.current_line, 2);
    let linked = store
        .link(
            &ThreadLinkParams {
                thread_id: created.thread.thread_id.clone(),
                codex_session_id: "abc".to_string(),
                codex_session_path: None,
            },
            11,
        )
        .unwrap();
    assert_eq!(linked.thread.codex_session_id.as_deref(), Some("abc"));

    let shifted = "prep();\nfn a() {}\nlet target = 1;\nlet other = 2;\n";
    let listed = store.list(
        &ThreadListParams {
            workspace: "/w".to_string(),
            file: Some("/w/main.rs".to_string()),
            content: Some(shifted.to_string()),
        },
        12,
    );
    assert_eq!(listed.threads[0].current_line, 3);
}

#[test]
fn stale_when_anchor_line_disappears() {
    let mut store = ThreadStore::new("/r/threads.json".to_string());
    let content = "a\nneedle\nc\n";
    let created = store.create(&params(content, "needle", "ask"), 1, 1).unwrap();
    let listed = store.list(
        &ThreadListParams {
            workspace: "/w".to_string(),
            file: Some("/w/main.rs".to_string()),
            content: Some("a\nb\nc\n".to_string()),
        },
        2,
    );
    assert_eq!(listed.threads[0].thread_id, created.thread.thread_id);
    assert_eq!(listed.threads[0].status, "stale");
}

#[test]
fn persists_examples_and_preserves_them_on_reanchor() {
    let mut store = ThreadStore::new("/r/threads.json".to_string());
    let content = "fn a() {}\nlet target = 1;\n";
    let created = store.create(&params(content, "target", "explain target"), 1, 1).unwrap();
    let linked = store
        .add_example(
            &created.thread.thread_id,
            &ScratchCreateResult {
                path: "/w/scratch/hash/thread/demo.rs".to_string(),
                relative_path: "scratch/hash/thread/demo.rs".to_string(),
                bytes: 42,
                lines: 3,
                created_at: 2,
                source_file: "/w/main.rs".to_string(),
                prompt_preview: "show usage".to_string(),
            },
            "show usage",
            3,
            3,
        )
        .unwrap();
    assert_eq!(linked.thread.examples.len(), 1);
    assert_eq!(linked.example.title, "show usage");

    let shifted = "prep();\nfn a() {}\nlet target = 1;\n";
    let listed = store.list(
        &ThreadListParams {
            workspace: "/w".to_string(),
            file: Some("/w/main.rs".to_string()),
            content: Some(shifted.to_string()),
        },
        4,
    );
    assert_eq!(listed.threads[0].current_line, 3);
    assert_eq!(listed.threads[0].examples.len(), 1);
    assert_eq!(
        listed.threads[0].examples[0].relative_path,
        "scratch/hash/thread/demo.rs"
    );
}

#[test]
fn creation_checks_offset_prompt_and_overrides() {
    let mut store = ThreadStore::new("/r/threads.json".to_string());
    let mut p = params("abc", "b", "  ");
    assert_eq!(store.create(&p, 1, 1).unwrap_err(), ThreadError::EmptyPrompt);
    p.prompt = "ok".to_string();
    p.offset = 9;
    assert!(matches!(store.create(&p, 1, 1), Err(ThreadError::Offset(_))));
    p.offset = 0;
    p.reasoning_effort = Some("fast".to_string());
    assert!(matches!(store.create(&p, 1, 1), Err(ThreadError::Model(_))));
    assert!(store.threads().is_empty());
}

#[test]
fn launches_codex_with_the_thread_prompt() {
    let mut store = ThreadStore::with_threads("/r/threads.json".to_string(), Vec::new(), 7);
    let mut p = params("one\ntwo\n", "two", " ask it ");
    p.model = Some(" m1 ".to_string());
    p.reasoning_effort = Some("low".to_string());
    let created = store.create(&p, 50, 5000).unwrap();
    assert_eq!(created.thread.thread_id, "thread-5000-7-0");
    assert_eq!(created.thread.prompt, "ask it");
    let argv = &created.launch.argv;
    assert_eq!(
        &argv[..8],
        &["codex", "--no-alt-screen", "--model", "m1", "-c", "model_reasoning_effort=\"low\"", "-C", "/w"]
    );
    assert_eq!(
        argv[8],
        "You are working in /w.\nFile: /w/main.rs\nLine: 2\nUser ask: ask it\n\nNearby code context:\n1: one\n2: two"
    );
    assert_eq!(created.launch.cwd, "/w");
    assert_eq!(created.launch.started_after_unix, 50);

    let mut sel = params("one\ntwo\n", "two", "ask");
    sel.selection_start = Some(0);
    sel.selection_end = Some(3);
    let created = store.create(&sel, 51, 5001).unwrap();
    assert!(created.launch.argv.last().unwrap().ends_with("Selected code:\none"));
}

#[test]
fn attaches_resolves_and_deletes() {
    let mut store = ThreadStore::new("/r/threads.json".to_string());
    let attached = store
        .attach(
            &ThreadAttachParams {
                workspace: "/w".to_string(),
                file: "/w/main.rs".to_string(),
                offset: 0,
                content: "x\n".to_string(),
                codex_session_id: "s-1".to_string(),
            },
            5,
            5,
        )
        .unwrap();
    assert_eq!(attached.thread.prompt, "Attached Codex session s-1");
    assert_eq!(attached.thread.status, "linked");
    assert_eq!(attached.thread.codex_session_id.as_deref(), Some("s-1"));

    let session = |id: &str, at: u64| CodexSessionInfo {
        id: id.to_string(),
        path: format!("/h/{id}.jsonl"),
        cwd: "/w".to_string(),
        timestamp: String::new(),
        originator: None,
        source: None,
        cli_version: None,
        model_provider: None,
        preview: None,
        modified_at: at,
        project_match: true,
    };
    let id = attached.thread.thread_id.clone();
    let resolve = ThreadResolveParams { thread_id: id.clone(), workspace: "/w".to_string(), started_after_unix: 100 };
    let none = store.resolve(&resolve, &vec![session("old", 10)], 6).unwrap();
    assert!(!none.resolved);
    let found = store.resolve(&resolve, &vec![session("old", 10), session("new", 100)], 7).unwrap();
    assert!(found.resolved);
    let thread = found.thread.unwrap();
    assert_eq!(thread.codex_session_id.as_deref(), Some("new"));
    assert_eq!(thread.codex_session_path.as_deref(), Some("/h/new.jsonl"));

    let missing = ThreadResolveParams { thread_id: "nope".to_string(), workspace: "/w".to_string(), started_after_unix: 0 };
    assert_eq!(
        store.resolve(&missing, &vec![session("a", 1)], 8).unwrap_err(),
        ThreadError::NotFound("nope".to_string())
    );
    assert_eq!(ThreadError::NotFound("nope".to_string()).message(), "thread not found: nope");

    let deleted = store.delete(&ThreadDeleteParams { thread_id: id.clone() });
    assert_eq!(deleted.thread.unwrap().thread_id, id);
    assert!(store.delete(&ThreadDeleteParams { thread_id: id }).thread.is_none());
    assert_eq!(store_path("/r"), "/r/threads.json");
}

#[test]
fn example_titles_fall_back_to_the_file_name() {
    let mut store = ThreadStore::new("/r/threads.json".to_string());
    let created = store.create(&params("x\n", "x", "ask"), 1, 1).unwrap();
    let result = |rel: &str| ScratchCreateResult {
        path: format!("/w/{rel}"),
        relative_path: rel.to_string(),
        bytes: 1,
        lines: 1,
        created_at: 1,
        source_file: "/w/main.rs".to_string(),
        prompt_preview: String::new(),
    };
    let e = store.add_example(&created.thread.thread_id, &result("scratch/a/demo.rs"), "  ", 2, 2).unwrap();
    assert_eq!(e.example.title, "demo.rs");
    assert_eq!(e.example.example_id, "example-2-0-1");
    let e = store.add_example(&created.thread.thread_id, &result(".."), "", 3, 3).unwrap();
    assert_eq!(e.example.title, "example");
    assert!(store.add_example("nope", &result("a"), "p", 4, 4).is_err());
}

#[test]
fn deleting_a_thread_cleans_only_scratch_roots() {
    let mut store = ThreadStore::new("/r/threads.json".to_string());
    let created = store.create(&params("x\n", "x", "ask"), 1, 1).unwrap();
    let id = created.thread.thread_id.clone();
    let key = harnessd::cache::compute_hash("/w");
    let result = |path: String| ScratchCreateResult {
        path,
        relative_path: "r".to_string(),
        bytes: 1,
        lines: 1,
        created_at: 1,
        source_file: "/w/main.rs".to_string(),
        prompt_preview: String::new(),
    };
    let inside = format!("/r/scratch/{key}/{id}/a.rs");
    store.add_example(&id, &result(inside.clone()), "p", 2, 2).unwrap();
    store.add_example(&id, &result("/w/keep.rs".to_string()), "p", 3, 3).unwrap();
    store.add_example(&id, &result("/r/scratch/../escape.rs".to_string()), "p", 4, 4).unwrap();
    let thread = store.delete(&ThreadDeleteParams { thread_id: id.clone() }).thread.unwrap();
    let roots = vec!["/r/scratch".to_string(), "/tmp/harnessd/scratch".to_string()];
    let cleanup = thread_cleanup(&thread, &roots);
    assert_eq!(cleanup.files, vec![inside]);
    assert_eq!(
        cleanup.dirs,
        vec![format!("/r/scratch/{key}/{id}"), format!("/tmp/harnessd/scratch/{key}/{id}")]
    );
    assert_eq!(thread_dir("/r/scratch", &thread), format!("/r/scratch/{key}/{id}"));
}
