use harnessd::marks::{
    store_path, MarkCreateParams, MarkDeleteParams, MarkError, MarkListParams, MarkStepParams,
    MarkStore,
};

fn create(store: &mut MarkStore, file: &str, offset: usize, content: &str, thread: Option<&str>, now: u64) -> String {
    store
        .create(
            &MarkCreateParams {
                workspace: "/w".to_string(),
                file: file.to_string(),
                offset,
                content: content.to_string(),
                thread_id: thread.map(str::to_string),
            },
            now,
        )
        .unwrap()
        .mark
        .mark_id
}

#[test]
fn creates_marks_on_the_cursor_line() {
    let mut store = MarkStore::with_marks("/r/marks.json".to_string(), Vec::new(), 42);
    let content = "fn a() {}\n   let target = 1;   \nlet other = 2;\n";
    let result = store
        .create(
            &MarkCreateParams {
                workspace: "/w".to_string(),
                file: "/w/main.rs".to_string(),
                offset: content.find("target").unwrap(),
                content: content.to_string(),
                thread_id: None,
            },
            1000,
        )
        .unwrap();
    let mark = result.mark;
    assert_eq!(mark.mark_id, "mark-1000-42-0");
    assert_eq!(mark.original_line, 2);
    assert_eq!(mark.current_line, 2);
    assert_eq!(mark.line_preview, "let target = 1;");
    assert_eq!(mark.status, "open");
    assert_eq!(mark.created_at, 1000);
    assert_eq!(store.marks().len(), 1);
    assert_eq!(store.path(), "/r/marks.json");
    let second = create(&mut store, "/w/main.rs", 0, content, None, 1001);
    assert_eq!(second, "mark-1001-42-1");
}

#[test]
fn refuses_bad_offsets() {
    let mut store = MarkStore::new("/r/marks.json".to_string());
    let bad = store.create(
        &MarkCreateParams {
            workspace: "/w".to_string(),
            file: "/w/a.rs".to_string(),
            offset: 1,
            content: "é".to_string(),
            thread_id: None,
        },
        1,
    );
    assert!(matches!(bad, Err(MarkError::Offset(_))));
    assert!(store.marks().is_empty());
}

#[test]
fn lists_and_reanchors_marks() {
    let mut store = MarkStore::new("/r/marks.json".to_string());
    let content = "a\nneedle\nc\n";
    let id = create(&mut store, "/w/a.rs", content.find("needle").unwrap(), content, None, 1);
    create(&mut store, "/w/b.rs", 0, content, None, 1);
    let listed = store.list(
        &MarkListParams {
            workspace: "/w".to_string(),
            file: Some("/w/a.rs".to_string()),
            content: Some("x\ny\na\n  needle \nc\n".to_string()),
        },
        5,
    );
    assert_eq!(listed.marks.len(), 1);
    assert_eq!(listed.marks[0].mark_id, id);
    assert_eq!(listed.marks[0].current_line, 4);
    assert_eq!(listed.marks[0].updated_at, 5);
    let gone = store.list(
        &MarkListParams {
            workspace: "/w".to_string(),
            file: Some("/w/a.rs".to_string()),
            content: Some("a\nc\n".to_string()),
        },
        6,
    );
    assert_eq!(gone.marks[0].status, "stale");
    let all = store.list(
        &MarkListParams { workspace: "/w/".to_string(), file: None, content: None },
        7,
    );
    assert_eq!(all.marks.len(), 2);
    let other = store.list(
        &MarkListParams { workspace: "/elsewhere".to_string(), file: None, content: None },
        7,
    );
    assert!(other.marks.is_empty());
}

#[test]
fn deletes_only_with_permission_for_attached_threads() {
    let mut store = MarkStore::new("/r/marks.json".to_string());
    let id = create(&mut store, "/w/a.rs", 0, "x\n", Some("thread-1"), 1);
    let refused = store.delete(&MarkDeleteParams { mark_id: id.clone(), delete_attached_thread: false });
    assert_eq!(refused.unwrap_err(), MarkError::AttachedThread(id.clone()));
    assert_eq!(
        MarkError::AttachedThread(id.clone()).message(),
        format!("mark {id} has an attached thread; pass delete_attached_thread to remove both")
    );
    let deleted = store
        .delete(&MarkDeleteParams { mark_id: id.clone(), delete_attached_thread: true })
        .unwrap();
    assert!(deleted.deleted_thread);
    assert_eq!(deleted.mark.unwrap().mark_id, id);
    let missing = store
        .delete(&MarkDeleteParams { mark_id: id, delete_attached_thread: false })
        .unwrap();
    assert!(missing.mark.is_none());
    assert!(!missing.deleted_thread);
}

#[test]
fn links_and_unlinks_threads() {
    let mut store = MarkStore::new("/r/marks.json".to_string());
    let id = create(&mut store, "/w/a.rs", 0, "x\n", None, 1);
    let linked = store.link_thread(&id, "thread-9", 3).unwrap();
    assert_eq!(linked.thread_id.as_deref(), Some("thread-9"));
    assert_eq!(linked.status, "linked");
    assert!(store.link_thread("nope", "thread-9", 3).is_none());
    let changed = store.unlink_thread("thread-9", 4);
    assert_eq!(changed.len(), 1);
    assert_eq!(changed[0].status, "open");
    assert!(changed[0].thread_id.is_none());
    assert!(store.unlink_thread("thread-9", 5).is_empty());
}

#[test]
fn steps_between_marks_and_wraps() {
    let mut store = MarkStore::new("/r/marks.json".to_string());
    let content = "l1\nl2\nl3\nl4\nl5\n";
    let at = |line: usize| content.match_indices('\n').nth(line - 2).map(|(i, _)| i + 1).unwrap_or(0);
    let m2 = create(&mut store, "/w/a.rs", at(2), content, None, 1);
    let m4 = create(&mut store, "/w/a.rs", at(4), content, None, 1);
    let step = |line: usize| MarkStepParams {
        workspace: "/w".to_string(),
        file: "/w/a.rs".to_string(),
        current_line: line,
        content: None,
    };
    assert_eq!(store.next(&step(1), 2).mark.unwrap().mark_id, m2);
    assert_eq!(store.next(&step(2), 2).mark.unwrap().mark_id, m4);
    assert_eq!(store.next(&step(4), 2).mark.unwrap().mark_id, m2);
    assert_eq!(store.prev(&step(4), 2).mark.unwrap().mark_id, m2);
    assert_eq!(store.prev(&step(2), 2).mark.unwrap().mark_id, m4);
    let empty = MarkStepParams {
        workspace: "/w".to_string(),
        file: "/w/none.rs".to_string(),
        current_line: 1,
        content: None,
    };
    assert!(store.next(&empty, 2).mark.is_none());
}

#[test]
fn marks_live_in_marks_json() {
    assert_eq!(store_path("/r"), "/r/marks.json");
}
