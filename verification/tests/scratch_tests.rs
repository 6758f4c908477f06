use harnessd::rpc::ScratchCreateParams;
use harnessd::scratch::{
    artifact_basename, artifact_extension, artifact_text, candidate_path, comment_prefix,
    enforce_caps, header_for, scratch_prompt, scratch_result, slug, strip_fence,
    timestamp_for_filename, validate_params, ScratchClient, ScratchError,
};
use harnessd::models::ModelError;
use harnessd::scratch::{check_generated, codex_args, is_plain_name, is_plainly_below, scratch_root, scratch_schema};
use harnessd::settings::ScratchStorageMode;

fn base() -> ScratchCreateParams {
    ScratchCreateParams {
        workspace: "/tmp".to_string(),
        file: "/tmp/demo.rs".to_string(),
        offset: 0,
        content: "fn main() {}\n".to_string(),
        prompt: "demo".to_string(),
        selection_start: None,
        selection_end: None,
        model: None,
        reasoning_effort: None,
    }
}

#[test]
fn validates_offsets_and_selection() {
    let base = base();
    assert!(validate_params(&base).is_ok());

    let mut empty_prompt = base.clone();
    empty_prompt.prompt = " ".to_string();
    assert!(validate_params(&empty_prompt).is_err());

    let mut bad_offset = base.clone();
    bad_offset.offset = 99;
    assert!(validate_params(&bad_offset).is_err());

    let mut bad_selection = base.clone();
    bad_selection.selection_start = Some(5);
    bad_selection.selection_end = Some(3);
    assert!(validate_params(&bad_selection).is_err());

    let mut non_boundary = base;
    non_boundary.content = "é".to_string();
    non_boundary.offset = 1;
    assert!(validate_params(&non_boundary).is_err());
}

#[test]
fn timestamp_uses_utc_filename_format() {
    assert_eq!(timestamp_for_filename(0), "19700101-000000");
    assert_eq!(timestamp_for_filename(1_780_574_462), "20260604-120102");
}

#[test]
fn timestamps_cross_leap_days_and_centuries() {
    assert_eq!(timestamp_for_filename(951_782_400), "20000229-000000");
    assert_eq!(timestamp_for_filename(4_102_444_799), "20991231-235959");
    assert_eq!(timestamp_for_filename(4_107_542_399), "21000228-235959");
    assert_eq!(timestamp_for_filename(4_107_542_400), "21000301-000000");
    assert_eq!(timestamp_for_filename(86_399), "19700101-235959");
}

#[test]
fn each_check_has_its_error() {
    let mut p = base();
    p.content = String::new();
    assert_eq!(validate_params(&p), Err(ScratchError::EmptyContent));
    let mut p = base();
    p.prompt = "\t".to_string();
    assert_eq!(validate_params(&p), Err(ScratchError::EmptyPrompt));
    let mut p = base();
    p.selection_start = Some(1);
    assert_eq!(validate_params(&p), Err(ScratchError::SelectionUnpaired));
    let mut p = base();
    p.selection_start = Some(0);
    p.selection_end = Some(100);
    assert_eq!(validate_params(&p), Err(ScratchError::SelectionOutside));
    let mut p = base();
    p.content = "é".to_string();
    p.selection_start = Some(0);
    p.selection_end = Some(1);
    assert_eq!(validate_params(&p), Err(ScratchError::SelectionNotBoundary));
}

#[test]
fn builds_the_prompt_from_selection_or_nearby_lines() {
    let mut p = base();
    p.content = "a\nb\nc\n".to_string();
    p.offset = 2;
    p.prompt = "  show  ".to_string();
    let prompt = scratch_prompt(&p);
    assert!(prompt.starts_with("You are creating one scratch preview file for a developer.\nWorkspace: /tmp\nSource file: /tmp/demo.rs\nCursor line: 2\nUser request: show\n\n"));
    assert!(prompt.ends_with("Nearby live buffer context:\n1: a\n2: b\n3: c\n"));
    p.selection_start = Some(2);
    p.selection_end = Some(3);
    assert!(scratch_prompt(&p).ends_with("Selected code:\nb\n"));
}

#[test]
fn unwraps_fenced_bodies() {
    assert_eq!(strip_fence("  ```rust\nfn x() {}\n```  "), "fn x() {}");
    assert_eq!(strip_fence("```"), "```");
    assert_eq!(strip_fence(" plain "), "plain");
}

#[test]
fn headers_use_the_file_comment_marker() {
    assert_eq!(comment_prefix("/w/a.py"), "#");
    assert_eq!(comment_prefix("/w/a.rs"), "//");
    assert_eq!(comment_prefix("/w/Makefile"), "//");
    assert_eq!(
        header_for("/w/a.py", " why ", ""),
        "# harnessd scratch preview\n# source: /w/a.py\n# prompt: why\n\n"
    );
    assert_eq!(
        header_for("/w/a.rs", "p", " T "),
        "// harnessd scratch preview\n// source: /w/a.rs\n// prompt: p\n// title: T\n\n"
    );
}

#[test]
fn caps_lines_and_bytes() {
    assert_eq!(enforce_caps(&"x\n".repeat(400)), Ok(()));
    assert_eq!(enforce_caps(&"x\n".repeat(401)), Err(ScratchError::TooManyLines(401)));
    assert_eq!(enforce_caps(&"x".repeat(65_537)), Err(ScratchError::TooManyBytes(65_537)));
    let p = base();
    let text = artifact_text(&p, "Demo", "```\nbody\n```").unwrap();
    assert_eq!(
        text,
        "// harnessd scratch preview\n// source: /tmp/demo.rs\n// prompt: demo\n// title: Demo\n\nbody\n"
    );
    assert!(artifact_text(&p, "", &"x\n".repeat(500)).is_err());
}

#[test]
fn names_artifacts() {
    assert_eq!(slug("Show me: the API!!"), "show-me-the-api");
    assert_eq!(slug("!!!"), "scratch");
    assert_eq!(slug(&"a".repeat(60)).len(), 48);
    assert_eq!(artifact_extension("/w/a.rs"), "rs");
    assert_eq!(artifact_extension("/w/a."), "md");
    assert_eq!(artifact_extension("/w/.bashrc"), "md");
    assert_eq!(artifact_basename(0, "x y"), "19700101-000000-x-y");
    let key = harnessd::cache::compute_hash("/w");
    let (path, relative) = candidate_path("/r/scratch", "/w", None, "b", "rs", 1).unwrap();
    assert_eq!(relative, format!("{key}/b.rs"));
    assert_eq!(path, format!("/r/scratch/{key}/b.rs"));
    let (path, _) = candidate_path("/r/scratch", "/w", Some("thread-1"), "b", "rs", 3).unwrap();
    assert_eq!(path, format!("/r/scratch/{key}/thread-1/b-3.rs"));
    assert!(!path.starts_with("/w/"));
    assert_eq!(candidate_path("/r/scratch", "/w", Some(".."), "b", "rs", 1), Err(ScratchError::BadThreadId));
    assert_eq!(candidate_path("/r/scratch", "/w", Some("a/b"), "b", "rs", 1), Err(ScratchError::BadThreadId));
    assert_eq!(ScratchError::BadThreadId.message(), "thread id cannot name a scratch directory");
}

#[test]
fn scratch_roots_follow_the_storage_mode() {
    assert_eq!(scratch_root(ScratchStorageMode::Runtime, "/h/.local/share/harnessd", "/tmp"), "/h/.local/share/harnessd/scratch");
    assert_eq!(scratch_root(ScratchStorageMode::Temp, "/h/.local/share/harnessd", "/tmp"), "/tmp/harnessd/scratch");
    assert!(is_plainly_below("/r/scratch/k/t/x.rs", "/r/scratch"));
    assert!(!is_plainly_below("/r/scratch/../etc/x", "/r/scratch"));
    assert!(!is_plainly_below("/r/scratchy/x", "/r/scratch"));
    assert!(!is_plainly_below("/r/scratch", "/r/scratch"));
    assert!(!is_plainly_below("/r/scratch//x", "/r/scratch"));
    assert!(is_plain_name("thread-1"));
    assert!(!is_plain_name("."));
}

#[test]
fn describes_written_artifacts() {
    let r = scratch_result(
        &base(),
        "/tmp/scratch/harnessd/x.rs".to_string(),
        "scratch/harnessd/x.rs".to_string(),
        "a\nbé\n",
        7,
    );
    assert_eq!(r.bytes, 6);
    assert_eq!(r.lines, 2);
    assert_eq!(r.created_at, 7);
    assert_eq!(r.prompt_preview, "demo");
    assert_eq!(r.source_file, "/tmp/demo.rs");
}

#[test]
fn clients_keep_their_settings() {
    let c = ScratchClient::new("codex".to_string(), "/r".to_string());
    assert_eq!(c.timeout_millis(), 180_000);
    let c = ScratchClient::with_timeout("x".to_string(), "/r".to_string(), 5);
    assert_eq!(c.program(), "x");
    assert_eq!(c.timeout_millis(), 5);
    assert_eq!(c.runtime_dir(), "/r");
}

#[test]
fn codex_arguments_and_reply() {
    let args = codex_args(Some(" m ".to_string()), Some("high".to_string()), "/w", "/r/s.json", "/r/o.json").unwrap();
    assert_eq!(
        args,
        vec![
            "--model", "m", "-c", "model_reasoning_effort=\"high\"", "--ask-for-approval", "never",
            "--sandbox", "read-only", "exec", "--cd", "/w", "--output-schema", "/r/s.json",
            "--output-last-message", "/r/o.json", "-",
        ]
    );
    assert_eq!(codex_args(None, None, "/w", "s", "o").unwrap().len(), 12);
    assert_eq!(
        codex_args(None, Some("huge".to_string()), "/w", "s", "o"),
        Err(ModelError::UnknownEffort)
    );
    let g = check_generated("T".to_string(), "B".to_string()).unwrap();
    assert_eq!((g.title.as_str(), g.body.as_str()), ("T", "B"));
    assert_eq!(check_generated("T".to_string(), " \n\t".to_string()).unwrap_err(), ScratchError::EmptyBody);
    assert_eq!(ScratchError::EmptyBody.message(), "Codex returned an empty scratch body");
    let schema: serde_json::Value = serde_json::from_str(&scratch_schema()).unwrap();
    assert_eq!(schema["properties"]["title"]["maxLength"], 120);
    assert_eq!(schema["required"][1], "body");
    assert_eq!(schema["additionalProperties"], false);
}
