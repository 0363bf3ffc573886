use air_traffic_control::errors::ErrorKind;
use air_traffic_control::store::HistoryPage;
use air_traffic_control::store::Message;
use air_traffic_control::store::SessionStore;
use air_traffic_control::store::ToolEvent;
use air_traffic_control::store::paginate;
use air_traffic_control::settings::SessionSettings;
use air_traffic_control::engine::ok_event;
use air_traffic_control::engine::record_error;
use air_traffic_control::engine::record_ok;

fn message(text: &str, at: u64) -> Message {
    Message {
        id: format!("m-{}", at),
        role: "user".into(),
        content_summary: text.into(),
        model_used: None,
        created_at: at,
    }
}

#[test]
fn create_get_list_delete_session_roundtrip_in_store() {
    let mut store = SessionStore::new();
    let settings = SessionSettings::default();
    let id = store
        .create_session(Some("client-1".into()), settings.clone(), 1)
        .unwrap();

    let list = store.list_sessions();
    assert_eq!(list.len(), 1);
    assert_eq!(list[0], id);

    let got = store.get_session(&id).unwrap();
    assert_eq!(got.id, id);
    assert_eq!(got.client_id.as_deref(), Some("client-1"));
    assert_eq!(got.settings, settings);
    assert!(got.messages.is_empty());
    assert!(got.tool_history.is_empty());

    let ok = store.delete_session(&id);
    assert!(ok);
    assert!(store.list_sessions().is_empty());
    assert!(!store.delete_session(&id));
}

#[test]
fn append_history_and_update_settings_in_store() {
    let mut store = SessionStore::new();
    let id = store.create_session(None, SessionSettings::default(), 1).unwrap();

    store.append_message(&id, message("hello", 2)).unwrap();
    let ev = ok_event("test", "ran".into(), 3);
    store.append_tool_event(&id, ev).unwrap();

    let mut new_settings = SessionSettings::default();
    new_settings.project_root = Some("/tmp".into());
    store.update_settings(&id, new_settings.clone()).unwrap();

    let got = store.get_session(&id).unwrap();
    assert_eq!(got.messages.len(), 1);
    assert_eq!(got.messages[0].content_summary, "hello");
    assert_eq!(got.tool_history.len(), 1);
    assert_eq!(got.tool_history[0].tool, "test");
    assert_eq!(got.settings.project_root.as_deref(), Some("/tmp"));
}

#[test]
fn tool_event_stamps_never_decrease() {
    let mut store = SessionStore::new();
    let id = store.create_session(None, SessionSettings::default(), 100).unwrap();
    store.append_tool_event(&id, ok_event("a", "one".into(), 200)).unwrap();
    // A clock that runs backwards cannot push the log backwards.
    store.append_tool_event(&id, ok_event("b", "two".into(), 50)).unwrap();
    store.append_tool_event(&id, ok_event("c", "three".into(), 300)).unwrap();

    let got = store.get_session(&id).unwrap();
    let stamps: Vec<u64> = got.tool_history.iter().map(|e| e.created_at).collect();
    assert_eq!(stamps.len(), 3);
    assert!(stamps.windows(2).all(|w| w[0] <= w[1]));
    assert_eq!(stamps[1], 200); // clamped up to the store clock
}

#[test]
fn delete_session_cascades_to_children() {
    let mut store = SessionStore::new();
    let id = store.create_session(None, SessionSettings::default(), 1).unwrap();
    let other = store.create_session(None, SessionSettings::default(), 2).unwrap();

    store.append_message(&id, message("hi", 3)).unwrap();
    store.append_tool_event(&id, ok_event("t", "s".into(), 4)).unwrap();
    store.add_context_item(&id, "file", "a.txt", "hello", 5, 5).unwrap();
    store.append_message(&other, message("kept", 6)).unwrap();

    assert!(store.delete_session(&id));
    assert!(store.get_session(&id).is_none());
    assert!(store.messages.iter().all(|r| r.session_id != id));
    assert!(store.tool_events.iter().all(|r| r.session_id != id));
    assert!(store.context_items.iter().all(|r| r.session_id != id));
    // the other session keeps its records
    assert_eq!(store.get_session(&other).unwrap().messages.len(), 1);
}

#[test]
fn upsert_rule_twice_leaves_one_rule() {
    let mut store = SessionStore::new();
    store.upsert_rule("quality", "Always lint.", 1);
    store.upsert_rule("quality", "Always lint.", 2);
    assert_eq!(
        store.rules.iter().filter(|r| r.name == "quality").count(),
        1
    );
    let got = store.get_rule("quality").unwrap();
    assert_eq!(got.0, "quality");
    assert_eq!(got.1, "Always lint.");

    store.upsert_rule("quality", "Rewritten.", 3);
    assert_eq!(
        store.rules.iter().filter(|r| r.name == "quality").count(),
        1
    );
    assert_eq!(store.get_rule("quality").unwrap().1, "Rewritten.");
    assert_eq!(store.get_rule("missing"), None);
}

#[test]
fn create_patch_settings_read_back() {
    let mut store = SessionStore::new();
    let id = store.create_session(None, SessionSettings::default(), 1).unwrap();

    let mut s = store.get_session(&id).unwrap().settings;
    let patch = air_traffic_control::settings::SessionSettingsPatch {
        project_root: Some(Some("/tmp/x".into())),
        ..Default::default()
    };
    s.apply_patch(patch);
    store.update_settings(&id, s).unwrap();

    let got = store.get_session(&id).unwrap().settings;
    assert_eq!(got.project_root.as_deref(), Some("/tmp/x"));
    assert_eq!(got.default_model, None);
    assert_eq!(got.model_params, None);
    assert_eq!(got.tool_policies, None);
    assert_eq!(got.network_allowlist, None);
}

#[test]
fn paginate_slices_and_reports_next_cursor() {
    let data: Vec<u32> = (0..10).collect();
    let (page, next) = paginate(data.clone(), None, 4);
    assert_eq!(page, vec![0, 1, 2, 3]);
    assert_eq!(next, Some(4));

    let (page, next) = paginate(data.clone(), Some(4), 4);
    assert_eq!(page, vec![4, 5, 6, 7]);
    assert_eq!(next, Some(8));

    let (page, next) = paginate(data.clone(), Some(8), 4);
    assert_eq!(page, vec![8, 9]);
    assert_eq!(next, None);

    let (page, next) = paginate(data, Some(99), 4);
    assert!(page.is_empty());
    assert_eq!(next, None);
}

#[test]
fn history_page_kinds_and_errors() {
    let mut store = SessionStore::new();
    let id = store.create_session(None, SessionSettings::default(), 1).unwrap();
    for i in 0..3u64 {
        store.append_message(&id, message(&format!("m{}", i), 10 + i)).unwrap();
    }
    store.append_tool_event(&id, ok_event("t", "s".into(), 20)).unwrap();

    match store.history_page(&id, "messages", None, Some(2)).unwrap() {
        HistoryPage::Messages(page, next) => {
            assert_eq!(page.len(), 2);
            assert_eq!(page[0].content_summary, "m0");
            assert_eq!(next, Some(2));
        }
        _ => panic!("expected a messages page"),
    }
    match store.history_page(&id, "tools", None, None).unwrap() {
        HistoryPage::Tools(page, next) => {
            assert_eq!(page.len(), 1);
            assert_eq!(page[0].summary, "s");
            assert_eq!(next, None);
        }
        _ => panic!("expected a tools page"),
    }
    assert_eq!(
        store.history_page(&id, "bogus", None, None),
        Err(ErrorKind::BadArgs)
    );
    assert_eq!(
        store.history_page("unknown", "messages", None, None),
        Err(ErrorKind::SessionNotFound)
    );
}

#[test]
fn recorded_events_carry_error_exactly_on_failure() {
    let mut store = SessionStore::new();
    let id = store.create_session(None, SessionSettings::default(), 1).unwrap();

    record_ok(&mut store, &id, "files.write", "write:a applied:true".into(), 2).unwrap();
    record_error(&mut store, &id, "files.move", "source does not exist".into(), 3).unwrap();

    let got = store.get_session(&id).unwrap();
    assert_eq!(got.tool_history.len(), 2);
    let okev = &got.tool_history[0];
    assert_eq!(okev.status, "ok");
    assert_eq!(okev.error, None);
    let errev: &ToolEvent = &got.tool_history[1];
    assert_eq!(errev.status, "error");
    assert_eq!(errev.error.as_deref(), Some("source does not exist"));
    assert!(errev.summary.contains("source does not exist"));

    assert_eq!(
        record_ok(&mut store, "nope", "t", "s".into(), 4),
        Err(ErrorKind::SessionNotFound)
    );
}

#[test]
fn sessions_list_newest_first() {
    let mut store = SessionStore::new();
    let a = store.create_session(None, SessionSettings::default(), 1).unwrap();
    let b = store.create_session(None, SessionSettings::default(), 2).unwrap();
    assert_eq!(store.list_sessions(), vec![b, a]);
}

#[test]
fn from_tables_accepts_a_mirrored_store_and_refuses_bad_data() {
    let mut store = SessionStore::new();
    let id = store.create_session(None, SessionSettings::default(), 1).unwrap();
    store.append_message(&id, message("hello", 2)).unwrap();
    store.append_tool_event(&id, ok_event("t", "s".into(), 3)).unwrap();
    store.add_context_item(&id, "file", "a.txt", "hi", 2, 4).unwrap();
    store.upsert_rule("quality", "Always lint.", 5);

    // the tables of a well-formed store reload as they are
    let reloaded = SessionStore::from_tables(
        store.sessions.clone(),
        store.messages.clone(),
        store.tool_events.clone(),
        store.context_items.clone(),
        store.rules.clone(),
    )
    .unwrap();
    let got = reloaded.get_session(&id).unwrap();
    assert_eq!(got.messages.len(), 1);
    assert_eq!(got.tool_history.len(), 1);
    assert_eq!(reloaded.get_rule("quality").unwrap().1, "Always lint.");

    // a duplicated session id is refused
    let mut dup = store.sessions.clone();
    dup.push(store.sessions[0].clone());
    assert!(matches!(
        SessionStore::from_tables(dup, Vec::new(), Vec::new(), Vec::new(), Vec::new()),
        Err(ErrorKind::StorageFailure)
    ));

    // a log row without its session is refused
    assert!(matches!(
        SessionStore::from_tables(
            Vec::new(),
            store.messages.clone(),
            Vec::new(),
            Vec::new(),
            Vec::new(),
        ),
        Err(ErrorKind::StorageFailure)
    ));

    // a malformed event (error text on an ok status) is refused
    let mut bad_event = store.tool_events[0].clone();
    bad_event.event.error = Some("boom".into());
    assert!(matches!(
        SessionStore::from_tables(
            store.sessions.clone(),
            Vec::new(),
            vec![bad_event],
            Vec::new(),
            Vec::new(),
        ),
        Err(ErrorKind::StorageFailure)
    ));
}

#[test]
fn create_session_succeeds_on_an_empty_store() {
    let mut store = SessionStore::new();
    assert!(store.create_session(None, SessionSettings::default(), 1).is_ok());
}
