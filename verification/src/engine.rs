//! The dispatch engine's record-keeping: every tool run leaves a
//! well-formed event in the session's audit trail, captured content
//! becomes a context item, and posted messages are summarized before
//! they are stored.

use vstd::prelude::*;

use crate::errors::ErrorKind;
use crate::store::Message;
use crate::store::SessionStore;
use crate::store::ToolEvent;
use crate::store::spec_advance;
use crate::store::spec_event_wf;
use crate::store::spec_exactly_one_rule;
use crate::store::spec_has_session;
use crate::store::spec_upserted;
use crate::store::lemma_upsert_exactly_one;
use crate::store::uuid_v4;
use crate::text::spec_byte_len;
use crate::text::spec_dec;
use crate::text::spec_summary;
use crate::text::summarize;
use crate::text::usize_to_string;
use vstd::string::StringSliceAdditionalSpecFns;

verus! {

/// A successful tool event: status `"ok"`, no error.
pub fn ok_event(tool: &str, summary: String, now: u64) -> (r: ToolEvent)
    ensures
        r.tool@ == tool@,
        r.summary == summary,
        r.status@ == "ok"@,
        r.error is None,
        r.created_at == now,
        r.id@.len() == 36,
        spec_event_wf(r.deep_view()),
{
    let r = ToolEvent {
        id: uuid_v4(),
        tool: tool.to_owned(),
        summary,
        status: "ok".to_owned(),
        error: None,
        created_at: now,
    };
    proof {
        assert(r.status@ != "error"@) by {
            reveal_strlit("ok");
            reveal_strlit("error");
            assert("ok"@.len() == 2);
            assert("error"@.len() == 5);
        }
    }
    r
}

/// A failed tool event: status `"error"`, the message attached.
pub fn error_event(tool: &str, message: String, now: u64) -> (r: ToolEvent)
    ensures
        r.tool@ == tool@,
        r.summary@ == "error: "@ + message@,
        r.status@ == "error"@,
        r.error == Some(message),
        r.created_at == now,
        r.id@.len() == 36,
        spec_event_wf(r.deep_view()),
{
    let mut summary: String = "error: ".to_owned();
    summary.append(message.as_str());
    let r = ToolEvent {
        id: uuid_v4(),
        tool: tool.to_owned(),
        summary,
        status: "error".to_owned(),
        error: Some(message),
        created_at: now,
    };
    proof {
        reveal_strlit("ok");
        reveal_strlit("error");
    }
    r
}

/// Records a successful tool run in the session's audit trail.
pub fn record_ok(
    store: &mut SessionStore,
    session_id: &str,
    tool: &str,
    summary: String,
    now: u64,
) -> (r: Result<(), ErrorKind>)
    requires
        old(store).wf(),
    ensures
        final(store).wf(),
        r is Ok <==> spec_has_session(old(store).sessions_v(), session_id@),
        r is Err ==> r == Result::<(), ErrorKind>::Err(ErrorKind::SessionNotFound) && *final(store)
            == *old(store),
        r is Ok ==> {
            &&& final(store).events_v().len() == old(store).events_v().len() + 1
            &&& final(store).events_v().drop_last() == old(store).events_v()
            &&& final(store).events_v().last().session_id == session_id@
            &&& final(store).events_v().last().event.tool == tool@
            &&& final(store).events_v().last().event.summary == summary@
            &&& final(store).events_v().last().event.status == "ok"@
            &&& final(store).events_v().last().event.error is None
            &&& final(store).events_v().last().event.created_at == spec_advance(
                old(store).clock,
                now,
            )
            &&& final(store).sessions_v() == old(store).sessions_v()
            &&& final(store).messages_v() == old(store).messages_v()
            &&& final(store).items_v() == old(store).items_v()
            &&& final(store).rules_v() == old(store).rules_v()
        },
{
    let ev = ok_event(tool, summary, now);
    let r = store.append_tool_event(session_id, ev);
    proof {
        if r is Ok {
            assert(final(store).events_v().drop_last() =~= old(store).events_v());
        }
    }
    r
}

/// Records a failed tool run in the session's audit trail: the event
/// carries status `"error"` and the failure message.
pub fn record_error(
    store: &mut SessionStore,
    session_id: &str,
    tool: &str,
    message: String,
    now: u64,
) -> (r: Result<(), ErrorKind>)
    requires
        old(store).wf(),
    ensures
        final(store).wf(),
        r is Ok <==> spec_has_session(old(store).sessions_v(), session_id@),
        r is Err ==> r == Result::<(), ErrorKind>::Err(ErrorKind::SessionNotFound) && *final(store)
            == *old(store),
        r is Ok ==> {
            &&& final(store).events_v().len() == old(store).events_v().len() + 1
            &&& final(store).events_v().drop_last() == old(store).events_v()
            &&& final(store).events_v().last().session_id == session_id@
            &&& final(store).events_v().last().event.tool == tool@
            &&& final(store).events_v().last().event.status == "error"@
            &&& final(store).events_v().last().event.error == Some(message@)
            &&& final(store).sessions_v() == old(store).sessions_v()
            &&& final(store).messages_v() == old(store).messages_v()
            &&& final(store).items_v() == old(store).items_v()
            &&& final(store).rules_v() == old(store).rules_v()
        },
{
    let ev = error_event(tool, message, now);
    let r = store.append_tool_event(session_id, ev);
    proof {
        if r is Ok {
            assert(final(store).events_v().drop_last() =~= old(store).events_v());
        }
    }
    r
}

/// The one-line summary a capture reports: `{tag}{reference} bytes:{n}`.
pub fn capture_summary(tag: &str, reference: &str, n: usize) -> (r: String)
    ensures
        r@ == tag@ + reference@ + " bytes:"@ + spec_dec(n as nat),
{
    let mut out: String = tag.to_owned();
    out.append(reference);
    out.append(" bytes:");
    let digits = usize_to_string(n);
    out.append(digits.as_str());
    out
}

/// The audit-trail summary of a capture: `included {reference} ({n} chars)`.
fn included_summary(reference: &str, n: usize) -> (r: String)
    ensures
        r@ == "included "@ + reference@ + " ("@ + spec_dec(n as nat) + " chars)"@,
{
    let mut out: String = "included ".to_owned();
    out.append(reference);
    out.append(" (");
    let digits = usize_to_string(n);
    out.append(digits.as_str());
    out.append(" chars)");
    out
}

/// A count summary such as `{n} items` or `{n} matches`.
pub fn count_summary(n: usize, suffix: &str) -> (r: String)
    ensures
        r@ == spec_dec(n as nat) + suffix@,
{
    let mut out = usize_to_string(n);
    out.append(suffix);
    out
}

/// Persists a file capture: the content becomes a context item of
/// kind `file`, a successful `include_file` event is appended, and
/// the tool's summary `file:{path} bytes:{n}` is returned.  Fails
/// exactly when the session does not exist, leaving the store
/// unchanged.
pub fn record_include_file(
    store: &mut SessionStore,
    session_id: &str,
    path: &str,
    content: &str,
    now: u64,
) -> (r: Result<String, ErrorKind>)
    requires
        old(store).wf(),
    ensures
        final(store).wf(),
        r is Ok <==> spec_has_session(old(store).sessions_v(), session_id@),
        r is Err ==> r == Result::<String, ErrorKind>::Err(ErrorKind::SessionNotFound) && *final(store) == *old(store),
        r is Ok ==> {
            &&& r.unwrap()@ == "file:"@ + path@ + " bytes:"@ + spec_dec(spec_byte_len(content) as nat)
            &&& final(store).items_v().len() == old(store).items_v().len() + 1
            &&& final(store).items_v().last().session_id == session_id@
            &&& final(store).items_v().last().item.kind == "file"@
            &&& final(store).items_v().last().item.reference == path@
            &&& final(store).items_v().last().item.content == content@
            &&& final(store).items_v().last().item.size == spec_byte_len(content) as u64
            &&& final(store).events_v().len() == old(store).events_v().len() + 1
            &&& final(store).events_v().last().event.tool == "include_file"@
            &&& final(store).events_v().last().event.status == "ok"@
            &&& final(store).events_v().last().event.summary == "included "@ + path@ + " ("@
                + spec_dec(spec_byte_len(content) as nat) + " chars)"@
            &&& final(store).sessions_v() == old(store).sessions_v()
            &&& final(store).messages_v() == old(store).messages_v()
            &&& final(store).rules_v() == old(store).rules_v()
        },
{
    let n = content.len();
    let size: u64 = n as u64;
    store.add_context_item(session_id, "file", path, content, size, now)?;
    let summary = included_summary(path, n);
    match record_ok(store, session_id, "include_file", summary, now) {
        Ok(()) => Ok(capture_summary("file:", path, n)),
        Err(e) => Err(e),
    }
}

/// Persists a URL capture: the extracted content becomes a context
/// item of kind `url`, a successful `include_url` event is appended,
/// and the tool's summary `url:{url} bytes:{n}` is returned.  Fails
/// exactly when the session does not exist, leaving the store
/// unchanged.
pub fn record_include_url(
    store: &mut SessionStore,
    session_id: &str,
    url: &str,
    content: &str,
    now: u64,
) -> (r: Result<String, ErrorKind>)
    requires
        old(store).wf(),
    ensures
        final(store).wf(),
        r is Ok <==> spec_has_session(old(store).sessions_v(), session_id@),
        r is Err ==> r == Result::<String, ErrorKind>::Err(ErrorKind::SessionNotFound) && *final(store) == *old(store),
        r is Ok ==> {
            &&& r.unwrap()@ == "url:"@ + url@ + " bytes:"@ + spec_dec(spec_byte_len(content) as nat)
            &&& final(store).items_v().len() == old(store).items_v().len() + 1
            &&& final(store).items_v().last().session_id == session_id@
            &&& final(store).items_v().last().item.kind == "url"@
            &&& final(store).items_v().last().item.reference == url@
            &&& final(store).items_v().last().item.content == content@
            &&& final(store).items_v().last().item.size == spec_byte_len(content) as u64
            &&& final(store).events_v().len() == old(store).events_v().len() + 1
            &&& final(store).events_v().last().event.tool == "include_url"@
            &&& final(store).events_v().last().event.status == "ok"@
            &&& final(store).sessions_v() == old(store).sessions_v()
            &&& final(store).messages_v() == old(store).messages_v()
            &&& final(store).rules_v() == old(store).rules_v()
        },
{
    let n = content.len();
    let size: u64 = n as u64;
    store.add_context_item(session_id, "url", url, content, size, now)?;
    let summary = included_summary(url, n);
    match record_ok(store, session_id, "include_url", summary, now) {
        Ok(()) => Ok(capture_summary("url:", url, n)),
        Err(e) => Err(e),
    }
}

/// Upserts a global (system) rule and records a successful `add_rule`
/// event; returns the tool's summary `system rule:{name}`.  After it,
/// exactly one rule carries the name, holding the content written.
/// Fails exactly when the session does not exist; the rule is then
/// not written either.
pub fn record_rule_system(
    store: &mut SessionStore,
    session_id: &str,
    name: &str,
    content: &str,
    now: u64,
) -> (r: Result<String, ErrorKind>)
    requires
        old(store).wf(),
    ensures
        final(store).wf(),
        r is Ok <==> spec_has_session(old(store).sessions_v(), session_id@),
        r is Err ==> r == Result::<String, ErrorKind>::Err(ErrorKind::SessionNotFound) && *final(store) == *old(store),
        r is Ok ==> {
            &&& r.unwrap()@ == "system rule:"@ + name@
            &&& final(store).rules_v() == spec_upserted(
                old(store).rules_v(),
                name@,
                content@,
                spec_advance(old(store).clock, now),
            )
            &&& spec_exactly_one_rule(final(store).rules_v(), name@, content@)
            &&& final(store).events_v().len() == old(store).events_v().len() + 1
            &&& final(store).events_v().last().event.tool == "add_rule"@
            &&& final(store).events_v().last().event.status == "ok"@
            &&& final(store).events_v().last().event.summary == "system rule:"@ + name@
            &&& final(store).sessions_v() == old(store).sessions_v()
            &&& final(store).messages_v() == old(store).messages_v()
            &&& final(store).items_v() == old(store).items_v()
        },
{
    if !store.has_session(session_id) {
        return Err(ErrorKind::SessionNotFound);
    }
    store.upsert_rule(name, content, now);
    proof {
        lemma_upsert_exactly_one(
            old(store).rules_v(),
            name@,
            content@,
            spec_advance(old(store).clock, now),
        );
    }
    let mut summary: String = "system rule:".to_owned();
    summary.append(name);
    let returned = dup_summary(&summary);
    match record_ok(store, session_id, "add_rule", summary, now) {
        Ok(()) => Ok(returned),
        Err(e) => Err(e),
    }
}

fn dup_summary(s: &String) -> (r: String)
    ensures
        r@ == s@,
{
    s.clone()
}

/// The user message stored for one post: the role given (defaulting
/// to `user`), the content summarized to at most 200 characters, and
/// the model that will answer, when one was selected.
pub fn build_user_message(
    role: Option<String>,
    content: &str,
    model_used: Option<String>,
    now: u64,
) -> (r: Message)
    ensures
        role is Some ==> r.role == role.unwrap(),
        role is None ==> r.role@ == "user"@,
        r.content_summary@ == spec_summary(content@, 200),
        r.model_used == model_used,
        r.created_at == now,
        r.id@.len() == 36,
{
    let role = match role {
        Some(x) => x,
        None => "user".to_owned(),
    };
    Message {
        id: uuid_v4(),
        role,
        content_summary: summarize(content, 200),
        model_used,
        created_at: now,
    }
}

/// The assistant message stored for one model reply: role
/// `assistant`, the reply summarized to at most 200 characters, and
/// the model that produced it.
pub fn build_assistant_message(content: &str, model: String, now: u64) -> (r: Message)
    ensures
        r.role@ == "assistant"@,
        r.content_summary@ == spec_summary(content@, 200),
        r.model_used == Some(model),
        r.created_at == now,
        r.id@.len() == 36,
{
    Message {
        id: uuid_v4(),
        role: "assistant".to_owned(),
        content_summary: summarize(content, 200),
        model_used: Some(model),
        created_at: now,
    }
}

/// The audit event stored when the model call fails: tool `model`,
/// status `error`, the failure message attached.
pub fn model_error_event(message: String, now: u64) -> (r: ToolEvent)
    ensures
        r.tool@ == "model"@,
        r.status@ == "error"@,
        r.error == Some(message),
        r.created_at == now,
        spec_event_wf(r.deep_view()),
{
    error_event("model", message, now)
}

} // verus!
