use air_traffic_control::errors::ErrorKind;
use air_traffic_control::engine::capture_summary;
use air_traffic_control::engine::count_summary;
use air_traffic_control::engine::record_include_file;
use air_traffic_control::engine::record_include_url;
use air_traffic_control::engine::record_rule_system;
use air_traffic_control::registry::AddRuleTool;
use air_traffic_control::registry::IncludeUrlTool;
use air_traffic_control::registry::ToolRegistry;
use air_traffic_control::registry::WriteTool;
use air_traffic_control::registry::dispatch_check;
use air_traffic_control::settings::SessionSettings;
use air_traffic_control::settings::ToolPolicies;
use air_traffic_control::store::SessionStore;
use air_traffic_control::text::cap_utf8;
use air_traffic_control::text::slugify;
use air_traffic_control::text::summarize;
use air_traffic_control::text::usize_to_string;
use air_traffic_control::tools::FileEntry;
use air_traffic_control::tools::RuleArgs;
use air_traffic_control::tools::RulePlan;
use air_traffic_control::tools::UrlArgs;
use air_traffic_control::tools::WriteArgs;
use air_traffic_control::tools::delete_file_plan;
use air_traffic_control::tools::ingest_content;
use air_traffic_control::tools::ingest_url_gate;
use air_traffic_control::tools::limit_entries;
use air_traffic_control::tools::move_file_plan;
use air_traffic_control::tools::search_filter;
use air_traffic_control::tools::write_file_plan;

fn settings_with_root(root: &str) -> SessionSettings {
    let mut s = SessionSettings::default();
    s.project_root = Some(root.into());
    s
}

fn entry(path: &str, is_dir: bool) -> FileEntry {
    FileEntry { path: path.into(), is_dir }
}

#[test]
fn write_plan_defaults_to_dry_run() {
    let s = settings_with_root("/tmp/root");
    let args = WriteArgs {
        path: Some("a.txt".into()),
        content: Some("new".into()),
        create: None,
        dry_run: None,
        preview_bytes: None,
    };
    let plan = (WriteTool).plan(&s, args).unwrap();
    assert!(plan.dry_run); // no argument, no policy: stay safe
    assert!(plan.create);
    assert_eq!(plan.preview_bytes, 1024);

    let mut s2 = settings_with_root("/tmp/root");
    s2.tool_policies = Some(ToolPolicies { dry_run: Some(false), max_read_bytes: None });
    let args2 = WriteArgs {
        path: Some("a.txt".into()),
        content: Some("new".into()),
        create: None,
        dry_run: None,
        preview_bytes: None,
    };
    assert!(!(WriteTool).plan(&s2, args2).unwrap().dry_run);
}

#[test]
fn write_plan_rejects_missing_arguments() {
    let s = settings_with_root("/tmp/root");
    let no_path = WriteArgs {
        path: None,
        content: Some("x".into()),
        create: None,
        dry_run: None,
        preview_bytes: None,
    };
    assert_eq!((WriteTool).plan(&s, no_path), Err(ErrorKind::BadArgs));

    let no_root = WriteArgs {
        path: Some("a".into()),
        content: Some("x".into()),
        create: None,
        dry_run: None,
        preview_bytes: None,
    };
    assert_eq!(
        (WriteTool).plan(&SessionSettings::default(), no_root),
        Err(ErrorKind::ConfigMissing)
    );
}

#[test]
fn dry_run_write_is_never_applied() {
    let res = write_file_plan(true, b"old".to_vec(), "new content", false, true, 32).unwrap();
    assert!(!res.applied);
    assert_eq!(res.output.before_preview, "old");
    assert_eq!(res.output.after_preview, "new content");

    let applied = write_file_plan(true, b"old".to_vec(), "new", false, false, 32).unwrap();
    assert!(applied.applied);

    assert_eq!(
        write_file_plan(false, Vec::new(), "x", false, false, 8),
        Err(ErrorKind::NotFound)
    );
}

#[test]
fn move_and_delete_plans_respect_dry_run() {
    let mv = move_file_plan(true, "dir/x.txt", "dir/y.txt", true).unwrap();
    assert!(!mv.applied);
    assert_eq!(mv.output, "dir/x.txt -> dir/y.txt");
    assert_eq!(move_file_plan(false, "a", "b", false), Err(ErrorKind::NotFound));

    let del = delete_file_plan(true, "dir/y.txt", false).unwrap();
    assert!(del.applied);
    assert_eq!(del.output, "dir/y.txt");
    assert_eq!(delete_file_plan(false, "a", true), Err(ErrorKind::NotFound));
}

#[test]
fn url_gate_requires_allowlisted_host() {
    let bare = SessionSettings::default();
    assert_eq!(
        ingest_url_gate(&bare, "http://127.0.0.1:9", Some(64)),
        Err(ErrorKind::ForbiddenHost)
    );

    let mut allowed = SessionSettings::default();
    allowed.network_allowlist = Some(vec!["127.0.0.1".into()]);
    assert_eq!(
        ingest_url_gate(&allowed, "http://127.0.0.1:9", Some(64)),
        Ok(64)
    );
    // the host is extracted from the URL, not compared to it whole
    let mut example = SessionSettings::default();
    example.network_allowlist = Some(vec!["example.com".into()]);
    assert_eq!(
        ingest_url_gate(&example, "https://example.com/page?q=1", None),
        Ok(262144)
    );
    assert_eq!(
        ingest_url_gate(&example, "https://other.com/", None),
        Err(ErrorKind::ForbiddenHost)
    );
    // over-large budgets are capped at 2 MiB
    assert_eq!(
        ingest_url_gate(&example, "https://example.com/", Some(10_000_000)),
        Ok(2 * 1024 * 1024)
    );
    // no host at all
    assert_eq!(
        ingest_url_gate(&example, "not a url", None),
        Err(ErrorKind::BadArgs)
    );
}

#[test]
fn include_url_plan_applies_gate_and_budget() {
    let mut s = SessionSettings::default();
    s.network_allowlist = Some(vec!["127.0.0.1".into()]);
    let plan = (IncludeUrlTool)
        .plan(&s, UrlArgs { url: Some("http://127.0.0.1:8080/".into()), max_bytes: None })
        .unwrap();
    assert_eq!(plan.url, "http://127.0.0.1:8080/");
    assert_eq!(plan.max_bytes, 262144);

    assert_eq!(
        (IncludeUrlTool).plan(&SessionSettings::default(), UrlArgs {
            url: Some("http://127.0.0.1:8080/".into()),
            max_bytes: None,
        }),
        Err(ErrorKind::ForbiddenHost)
    );
    assert_eq!(
        (IncludeUrlTool).plan(&s, UrlArgs { url: None, max_bytes: None }),
        Err(ErrorKind::BadArgs)
    );
}

#[test]
fn search_filter_matches_paths() {
    let entries = vec![
        entry("/r/src", true),
        entry("/r/src/lib.rs", false),
        entry("/r/src/main.rs", false),
        entry("/r/README.md", false),
    ];
    let hits = search_filter(entries.clone(), "lib\\.rs$", 10);
    assert_eq!(hits.len(), 1);
    assert_eq!(hits[0].path, "/r/src/lib.rs");

    let rs = search_filter(entries.clone(), "\\.rs$", 1);
    assert_eq!(rs.len(), 1); // capped at max
    assert_eq!(rs[0].path, "/r/src/lib.rs");

    // an invalid pattern matches nothing rather than failing
    assert!(search_filter(entries.clone(), "(", 10).is_empty());

    let limited = limit_entries(entries, 2);
    assert_eq!(limited.len(), 2);
}

#[test]
fn ingest_content_extracts_body_text() {
    let html = b"<html><body>hello-url</body></html>".to_vec();
    assert_eq!(ingest_content(html, 64), "hello-url\n");

    // capping happens before extraction: the cut-off document no
    // longer carries the body text
    let long = b"<html><body>hello-url</body></html>".to_vec();
    let capped = ingest_content(long, 5);
    assert!(!capped.contains("hello-url"));
}

#[test]
fn slugify_shapes_rule_names() {
    assert_eq!(slugify("review-checklist"), "review-checklist");
    assert_eq!(slugify("Hello, World!"), "hello-world");
    assert_eq!(slugify("--a--b--"), "a-b");
    assert_eq!(slugify("Quality"), "quality");
    assert_eq!(slugify("!!!"), "");
}

#[test]
fn add_rule_plan_routes_system_and_repo() {
    let s = settings_with_root("/tmp/root");
    let sys = (AddRuleTool)
        .plan(&s, RuleArgs {
            name: Some("quality".into()),
            content: Some("Always lint.".into()),
            system: Some(true),
            repo_dir: None,
        })
        .unwrap();
    assert_eq!(sys, RulePlan::System { name: "quality".into(), content: "Always lint.".into() });

    let repo = (AddRuleTool)
        .plan(&s, RuleArgs {
            name: Some("review-checklist".into()),
            content: Some("Look for tests.".into()),
            system: None,
            repo_dir: Some(".cursor/rules".into()),
        })
        .unwrap();
    assert_eq!(
        repo,
        RulePlan::Repo {
            root: "/tmp/root".into(),
            rel_path: ".cursor/rules/review-checklist.md".into(),
            content: "Look for tests.".into(),
        }
    );

    assert_eq!(
        (AddRuleTool).plan(&s, RuleArgs { name: None, content: None, system: None, repo_dir: None }),
        Err(ErrorKind::BadArgs)
    );
}

#[test]
fn registry_holds_the_default_tools_in_order() {
    let reg = ToolRegistry::with_default_tools();
    assert_eq!(reg.names.len(), 13);
    assert_eq!(reg.names[0], "include_file");
    assert_eq!(reg.names[12], "git.commit");
    assert_eq!(reg.get("files.write"), Some(6));
    assert_eq!(reg.get("git.status"), Some(9));
    assert_eq!(reg.get("no-such-tool"), None);
}

#[test]
fn dispatch_gate_orders_its_errors() {
    assert_eq!(dispatch_check(false, true), Err(ErrorKind::SessionNotFound));
    assert_eq!(dispatch_check(false, false), Err(ErrorKind::SessionNotFound));
    assert_eq!(dispatch_check(true, false), Err(ErrorKind::UnknownTool));
    assert_eq!(dispatch_check(true, true), Ok(()));
}

#[test]
fn error_kinds_map_to_their_statuses() {
    assert_eq!(ErrorKind::SessionNotFound.http_status(), 404);
    assert_eq!(ErrorKind::UnknownTool.http_status(), 400);
    assert_eq!(ErrorKind::BadArgs.http_status(), 400);
    assert_eq!(ErrorKind::ConfigMissing.http_status(), 400);
    assert_eq!(ErrorKind::PathEscape.http_status(), 400);
    assert_eq!(ErrorKind::ForbiddenHost.http_status(), 403);
    assert_eq!(ErrorKind::NotFound.http_status(), 404);
    assert_eq!(ErrorKind::UpstreamFailure.http_status(), 502);
    assert_eq!(ErrorKind::StorageFailure.http_status(), 500);
    assert_eq!(ErrorKind::ForbiddenHost.label(), "forbidden host");
}

#[test]
fn summarize_truncates_on_character_boundaries() {
    assert_eq!(summarize("short", 200), "short");
    let long = "x".repeat(250);
    let s = summarize(&long, 200);
    assert_eq!(s.chars().count(), 201);
    assert!(s.ends_with('\u{2026}'));
    // multi-byte characters are cut between characters, not bytes
    let uni = "é".repeat(10);
    assert_eq!(summarize(&uni, 4), format!("{}\u{2026}", "é".repeat(4)));
}

#[test]
fn cap_utf8_caps_and_replaces() {
    assert_eq!(cap_utf8(b"hello".to_vec(), 4), "hell");
    assert_eq!(cap_utf8(b"hello".to_vec(), 10), "hello");
    assert_eq!(cap_utf8(vec![0xff, 0xfe], 10), "\u{fffd}\u{fffd}");
}

#[test]
fn decimal_rendering_and_summaries() {
    assert_eq!(usize_to_string(0), "0");
    assert_eq!(usize_to_string(12345), "12345");
    assert_eq!(count_summary(3, " items"), "3 items");
    assert_eq!(capture_summary("file:", "a.txt", 11), "file:a.txt bytes:11");
}

#[test]
fn captures_are_persisted_with_their_kind() {
    let mut store = SessionStore::new();
    let id = store.create_session(None, SessionSettings::default(), 1).unwrap();

    let s = record_include_file(&mut store, &id, "a.txt", "hello world", 2).unwrap();
    assert_eq!(s, "file:a.txt bytes:11");
    assert_eq!(store.context_items.len(), 1);
    assert_eq!(store.context_items[0].item.kind, "file");
    assert_eq!(store.context_items[0].item.reference, "a.txt");
    assert_eq!(store.context_items[0].item.content, "hello world");
    assert_eq!(store.context_items[0].item.size, 11);

    let s2 = record_include_url(&mut store, &id, "http://127.0.0.1/", "hello-url\n", 3).unwrap();
    assert_eq!(s2, "url:http://127.0.0.1/ bytes:10");
    assert_eq!(store.context_items.len(), 2);
    assert_eq!(store.context_items[1].item.kind, "url");

    let got = store.get_session(&id).unwrap();
    assert_eq!(got.tool_history.len(), 2);
    assert_eq!(got.tool_history[0].tool, "include_file");
    assert_eq!(got.tool_history[1].tool, "include_url");
    assert!(got.tool_history.iter().all(|e| e.status == "ok"));

    assert_eq!(
        record_include_file(&mut store, "nope", "a", "b", 4),
        Err(ErrorKind::SessionNotFound)
    );
}

#[test]
fn system_rule_records_event_and_upserts() {
    let mut store = SessionStore::new();
    let id = store.create_session(None, SessionSettings::default(), 1).unwrap();
    let s = record_rule_system(&mut store, &id, "quality", "Always lint.", 2).unwrap();
    assert_eq!(s, "system rule:quality");
    assert_eq!(store.get_rule("quality").unwrap().1, "Always lint.");
    let got = store.get_session(&id).unwrap();
    assert_eq!(got.tool_history.len(), 1);
    assert_eq!(got.tool_history[0].tool, "add_rule");
    assert_eq!(got.tool_history[0].summary, "system rule:quality");
}
