//! The session store model: sessions, their append-only message and
//! tool-event logs, captured context items, and global rules.
//!
//! The store is organised as relational tables keyed by session id,
//! with a logical clock: every record is stamped no earlier than any
//! record before it, so insertion order is recoverable from
//! `created_at` with ties broken by position.  Deleting a session
//! cascades to everything that references it.  A durable adapter can
//! mirror each operation to disk and reload the same state on startup.

use vstd::prelude::*;

use crate::errors::ErrorKind;
use crate::settings::SessionSettings;

verus! {

broadcast use vstd::seq_lib::group_filter_ensures;

/// A message in a session's log.  `content_summary` carries the posted
/// content truncated to at most 200 characters; the full content is
/// not stored.
#[derive(Clone, Debug, PartialEq)]
pub struct Message {
    pub id: String,
    pub role: String,
    pub content_summary: String,
    pub model_used: Option<String>,
    /// Milliseconds since the epoch.
    pub created_at: u64,
}

pub struct MessageView {
    pub id: Seq<char>,
    pub role: Seq<char>,
    pub content_summary: Seq<char>,
    pub model_used: Option<Seq<char>>,
    pub created_at: u64,
}

impl DeepView for Message {
    type V = MessageView;

    open spec fn deep_view(&self) -> MessageView {
        MessageView {
            id: self.id@,
            role: self.role@,
            content_summary: self.content_summary@,
            model_used: self.model_used.deep_view(),
            created_at: self.created_at,
        }
    }
}

/// An entry of a session's tool audit trail.  `error` is present
/// exactly when `status` is `"error"`.
#[derive(Clone, Debug, PartialEq)]
pub struct ToolEvent {
    pub id: String,
    pub tool: String,
    pub summary: String,
    pub status: String,
    pub error: Option<String>,
    pub created_at: u64,
}

pub struct ToolEventView {
    pub id: Seq<char>,
    pub tool: Seq<char>,
    pub summary: Seq<char>,
    pub status: Seq<char>,
    pub error: Option<Seq<char>>,
    pub created_at: u64,
}

impl DeepView for ToolEvent {
    type V = ToolEventView;

    open spec fn deep_view(&self) -> ToolEventView {
        ToolEventView {
            id: self.id@,
            tool: self.tool@,
            summary: self.summary@,
            status: self.status@,
            error: self.error.deep_view(),
            created_at: self.created_at,
        }
    }
}

/// The well-formedness of a tool event: its status is `"ok"` or
/// `"error"`, and an error message is attached exactly in the latter
/// case.
pub open spec fn spec_event_wf(ev: ToolEventView) -> bool {
    &&& (ev.status == "error"@ <==> ev.error is Some)
    &&& (ev.status == "ok"@ || ev.status == "error"@)
}

/// A file or URL capture attached to a session.
#[derive(Clone, Debug, PartialEq)]
pub struct ContextItem {
    pub id: String,
    pub kind: String,
    pub reference: String,
    pub content: String,
    pub size: u64,
    pub created_at: u64,
}

pub struct ContextItemView {
    pub id: Seq<char>,
    pub kind: Seq<char>,
    pub reference: Seq<char>,
    pub content: Seq<char>,
    pub size: u64,
    pub created_at: u64,
}

impl DeepView for ContextItem {
    type V = ContextItemView;

    open spec fn deep_view(&self) -> ContextItemView {
        ContextItemView {
            id: self.id@,
            kind: self.kind@,
            reference: self.reference@,
            content: self.content@,
            size: self.size,
            created_at: self.created_at,
        }
    }
}

/// A global rule, keyed by name, with upsert semantics.
#[derive(Clone, Debug, PartialEq)]
pub struct Rule {
    pub name: String,
    pub content: String,
    pub updated_at: u64,
}

pub struct RuleView {
    pub name: Seq<char>,
    pub content: Seq<char>,
    pub updated_at: u64,
}

impl DeepView for Rule {
    type V = RuleView;

    open spec fn deep_view(&self) -> RuleView {
        RuleView { name: self.name@, content: self.content@, updated_at: self.updated_at }
    }
}

/// One row of the sessions table.
#[derive(Clone, Debug, PartialEq)]
pub struct SessionRow {
    pub id: String,
    pub client_id: Option<String>,
    pub created_at: u64,
    pub settings: SessionSettings,
}

pub struct SessionRowView {
    pub id: Seq<char>,
    pub client_id: Option<Seq<char>>,
    pub created_at: u64,
    pub settings: crate::settings::SettingsView,
}

impl DeepView for SessionRow {
    type V = SessionRowView;

    open spec fn deep_view(&self) -> SessionRowView {
        SessionRowView {
            id: self.id@,
            client_id: self.client_id.deep_view(),
            created_at: self.created_at,
            settings: self.settings.deep_view(),
        }
    }
}

/// One row of the messages table.
#[derive(Clone, Debug, PartialEq)]
pub struct MessageRow {
    pub session_id: String,
    pub message: Message,
}

pub struct MessageRowView {
    pub session_id: Seq<char>,
    pub message: MessageView,
}

impl DeepView for MessageRow {
    type V = MessageRowView;

    open spec fn deep_view(&self) -> MessageRowView {
        MessageRowView { session_id: self.session_id@, message: self.message.deep_view() }
    }
}

/// One row of the tool-events table.
#[derive(Clone, Debug, PartialEq)]
pub struct ToolEventRow {
    pub session_id: String,
    pub event: ToolEvent,
}

pub struct ToolEventRowView {
    pub session_id: Seq<char>,
    pub event: ToolEventView,
}

impl DeepView for ToolEventRow {
    type V = ToolEventRowView;

    open spec fn deep_view(&self) -> ToolEventRowView {
        ToolEventRowView { session_id: self.session_id@, event: self.event.deep_view() }
    }
}

/// One row of the context-items table.
#[derive(Clone, Debug, PartialEq)]
pub struct ContextItemRow {
    pub session_id: String,
    pub item: ContextItem,
}

pub struct ContextItemRowView {
    pub session_id: Seq<char>,
    pub item: ContextItemView,
}

impl DeepView for ContextItemRow {
    type V = ContextItemRowView;

    open spec fn deep_view(&self) -> ContextItemRowView {
        ContextItemRowView { session_id: self.session_id@, item: self.item.deep_view() }
    }
}

/// A session as handed back to callers: its row joined with its logs,
/// both sorted by `created_at` with insertion order breaking ties.
#[derive(Clone, Debug, PartialEq)]
pub struct Session {
    pub id: String,
    pub client_id: Option<String>,
    pub created_at: u64,
    pub messages: Vec<Message>,
    pub tool_history: Vec<ToolEvent>,
    pub settings: SessionSettings,
}

/// Relies on `uuid::Uuid::new_v4`: a fresh random version-4 UUID,
/// rendered in its canonical hyphenated form, which is always 36
/// characters.  Nothing else can be promised of a random value; the
/// call aborts the process if the operating system's randomness
/// source fails, an environment fault no argument can rule out.
#[verifier::external_body]
pub(crate) fn uuid_v4() -> (r: String)
    ensures
        r@.len() == 36,
{
    uuid::Uuid::new_v4().to_string()
}

pub(crate) fn dup_string(s: &String) -> (r: String)
    ensures
        r@ == s@,
{
    s.clone()
}

pub(crate) fn dup_opt_string(o: &Option<String>) -> (r: Option<String>)
    ensures
        r.deep_view() == o.deep_view(),
{
    match o {
        Some(s) => Some(s.clone()),
        None => None,
    }
}

pub(crate) fn dup_string_vec(v: &Vec<String>) -> (r: Vec<String>)
    ensures
        r.deep_view() == v.deep_view(),
{
    let mut out: Vec<String> = Vec::new();
    let n = v.len();
    let mut i: usize = 0;
    while i < n
        invariant
            n == v@.len(),
            0 <= i <= n,
            out@.len() == i,
            forall|j: int| 0 <= j < i ==> out.deep_view()[j] == v.deep_view()[j],
        decreases n - i,
    {
        out.push(v[i].clone());
        i = i + 1;
    }
    proof {
        assert(out.deep_view() =~= v.deep_view());
    }
    out
}

pub(crate) fn dup_settings(s: &SessionSettings) -> (r: SessionSettings)
    ensures
        r.deep_view() == s.deep_view(),
{
    let network_allowlist = match &s.network_allowlist {
        Some(v) => Some(dup_string_vec(v)),
        None => None,
    };
    let r = SessionSettings {
        default_model: dup_opt_string(&s.default_model),
        model_params: s.model_params,
        project_root: dup_opt_string(&s.project_root),
        tool_policies: s.tool_policies,
        network_allowlist,
    };
    proof {
        assert(r.deep_view() =~= s.deep_view());
    }
    r
}

pub(crate) fn dup_message(m: &Message) -> (r: Message)
    ensures
        r.deep_view() == m.deep_view(),
{
    Message {
        id: m.id.clone(),
        role: m.role.clone(),
        content_summary: m.content_summary.clone(),
        model_used: dup_opt_string(&m.model_used),
        created_at: m.created_at,
    }
}

pub(crate) fn dup_event(e: &ToolEvent) -> (r: ToolEvent)
    ensures
        r.deep_view() == e.deep_view(),
{
    ToolEvent {
        id: e.id.clone(),
        tool: e.tool.clone(),
        summary: e.summary.clone(),
        status: e.status.clone(),
        error: dup_opt_string(&e.error),
        created_at: e.created_at,
    }
}

/// The clock after an operation at wall time `now`: never behind what
/// the store has already stamped.
pub open spec fn spec_advance(clock: u64, now: u64) -> u64 {
    if now > clock {
        now
    } else {
        clock
    }
}

/// Some session row carries this id.
pub open spec fn spec_has_session(rows: Seq<SessionRowView>, id: Seq<char>) -> bool {
    exists|i: int| 0 <= i < rows.len() && #[trigger] rows[i].id == id
}

/// The index of the session row carrying this id.
pub open spec fn spec_session_index(rows: Seq<SessionRowView>, id: Seq<char>) -> int {
    choose|i: int| 0 <= i < rows.len() && #[trigger] rows[i].id == id
}

/// The message rows of one session, in table order.
pub open spec fn spec_message_rows_of(rows: Seq<MessageRowView>, id: Seq<char>) -> Seq<
    MessageRowView,
> {
    rows.filter(|r: MessageRowView| r.session_id == id)
}

/// The messages of one session, in table order.
pub open spec fn spec_messages_of(rows: Seq<MessageRowView>, id: Seq<char>) -> Seq<MessageView> {
    spec_message_rows_of(rows, id).map_values(|r: MessageRowView| r.message)
}

/// The tool-event rows of one session, in table order.
pub open spec fn spec_event_rows_of(rows: Seq<ToolEventRowView>, id: Seq<char>) -> Seq<
    ToolEventRowView,
> {
    rows.filter(|r: ToolEventRowView| r.session_id == id)
}

/// The tool events of one session, in table order.
pub open spec fn spec_events_of(rows: Seq<ToolEventRowView>, id: Seq<char>) -> Seq<ToolEventView> {
    spec_event_rows_of(rows, id).map_values(|r: ToolEventRowView| r.event)
}

/// The session rows that survive deleting `id`.
pub open spec fn spec_sessions_without(rows: Seq<SessionRowView>, id: Seq<char>) -> Seq<
    SessionRowView,
> {
    rows.filter(|r: SessionRowView| r.id != id)
}

/// The message rows that survive deleting session `id`.
pub open spec fn spec_messages_without(rows: Seq<MessageRowView>, id: Seq<char>) -> Seq<
    MessageRowView,
> {
    rows.filter(|r: MessageRowView| r.session_id != id)
}

/// The tool-event rows that survive deleting session `id`.
pub open spec fn spec_events_without(rows: Seq<ToolEventRowView>, id: Seq<char>) -> Seq<
    ToolEventRowView,
> {
    rows.filter(|r: ToolEventRowView| r.session_id != id)
}

/// The context-item rows that survive deleting session `id`.
pub open spec fn spec_items_without(rows: Seq<ContextItemRowView>, id: Seq<char>) -> Seq<
    ContextItemRowView,
> {
    rows.filter(|r: ContextItemRowView| r.session_id != id)
}

/// The durable repository of sessions, logs, context and rules.
pub struct SessionStore {
    pub sessions: Vec<SessionRow>,
    pub messages: Vec<MessageRow>,
    pub tool_events: Vec<ToolEventRow>,
    pub context_items: Vec<ContextItemRow>,
    pub rules: Vec<Rule>,
    /// The logical clock: no stored record is stamped later than this.
    pub clock: u64,
}

impl SessionStore {
    pub open spec fn sessions_v(self) -> Seq<SessionRowView> {
        self.sessions.deep_view()
    }

    pub open spec fn messages_v(self) -> Seq<MessageRowView> {
        self.messages.deep_view()
    }

    pub open spec fn events_v(self) -> Seq<ToolEventRowView> {
        self.tool_events.deep_view()
    }

    pub open spec fn items_v(self) -> Seq<ContextItemRowView> {
        self.context_items.deep_view()
    }

    pub open spec fn rules_v(self) -> Seq<RuleView> {
        self.rules.deep_view()
    }

    /// Session ids are unique; sessions are stamped in order, no later
    /// than the clock.
    pub open spec fn sessions_wf(self) -> bool {
        &&& forall|i: int, j: int|
            0 <= i < j < self.sessions_v().len() ==> self.sessions_v()[i].id != self.sessions_v()[j].id
        &&& forall|i: int|
            0 <= i < self.sessions_v().len() ==> #[trigger] self.sessions_v()[i].created_at
                <= self.clock
        &&& forall|i: int, j: int|
            0 <= i <= j < self.sessions_v().len() ==> self.sessions_v()[i].created_at
                <= self.sessions_v()[j].created_at
    }

    /// Messages are stamped in order, no later than the clock.
    pub open spec fn messages_wf(self) -> bool {
        &&& forall|i: int|
            0 <= i < self.messages_v().len() ==> #[trigger] self.messages_v()[i].message.created_at
                <= self.clock
        &&& forall|i: int, j: int|
            0 <= i <= j < self.messages_v().len() ==> self.messages_v()[i].message.created_at
                <= self.messages_v()[j].message.created_at
    }

    /// Tool events are well-formed and stamped in order, no later
    /// than the clock.
    pub open spec fn events_wf(self) -> bool {
        &&& forall|i: int|
            0 <= i < self.events_v().len() ==> #[trigger] self.events_v()[i].event.created_at
                <= self.clock
        &&& forall|i: int, j: int|
            0 <= i <= j < self.events_v().len() ==> self.events_v()[i].event.created_at
                <= self.events_v()[j].event.created_at
        &&& forall|i: int| 0 <= i < self.events_v().len() ==> spec_event_wf(#[trigger] self.events_v()[i].event)
    }

    /// Rule names are unique.
    pub open spec fn rules_wf(self) -> bool {
        forall|i: int, j: int|
            0 <= i < j < self.rules_v().len() ==> self.rules_v()[i].name != self.rules_v()[j].name
    }

    /// Referential integrity: every message, tool event and context
    /// item references a session that exists.
    pub open spec fn children_wf(self) -> bool {
        &&& forall|i: int|
            0 <= i < self.messages_v().len() ==> spec_has_session(
                self.sessions_v(),
                #[trigger] self.messages_v()[i].session_id,
            )
        &&& forall|i: int|
            0 <= i < self.events_v().len() ==> spec_has_session(
                self.sessions_v(),
                #[trigger] self.events_v()[i].session_id,
            )
        &&& forall|i: int|
            0 <= i < self.items_v().len() ==> spec_has_session(
                self.sessions_v(),
                #[trigger] self.items_v()[i].session_id,
            )
    }

    /// The store's invariant: session ids and rule names are unique,
    /// every log is stamped no later than the clock and in
    /// non-decreasing order, every tool event is well-formed, and
    /// every log row references an existing session.
    pub open spec fn wf(self) -> bool {
        &&& self.sessions_wf()
        &&& self.messages_wf()
        &&& self.events_wf()
        &&& self.rules_wf()
        &&& self.children_wf()
    }

    /// A fresh, empty store.
    pub fn new() -> (r: Self)
        ensures
            r.wf(),
            r.sessions_v() == Seq::<SessionRowView>::empty(),
            r.messages_v() == Seq::<MessageRowView>::empty(),
            r.events_v() == Seq::<ToolEventRowView>::empty(),
            r.items_v() == Seq::<ContextItemRowView>::empty(),
            r.rules_v() == Seq::<RuleView>::empty(),
            r.clock == 0,
    {
        let r = SessionStore {
            sessions: Vec::new(),
            messages: Vec::new(),
            tool_events: Vec::new(),
            context_items: Vec::new(),
            rules: Vec::new(),
            clock: 0,
        };
        proof {
            assert(r.sessions_v() =~= Seq::<SessionRowView>::empty());
            assert(r.messages_v() =~= Seq::<MessageRowView>::empty());
            assert(r.events_v() =~= Seq::<ToolEventRowView>::empty());
            assert(r.items_v() =~= Seq::<ContextItemRowView>::empty());
            assert(r.rules_v() =~= Seq::<RuleView>::empty());
        }
        r
    }

    /// The index of the session with this id, when present.
    fn find_session(&self, id: &str) -> (r: Option<usize>)
        ensures
            match r {
                Some(i) => i < self.sessions_v().len() && self.sessions_v()[i as int].id == id@,
                None => !spec_has_session(self.sessions_v(), id@),
            },
    {
        let key: String = id.to_owned();
        let n = self.sessions.len();
        let mut i: usize = 0;
        while i < n
            invariant
                n == self.sessions@.len(),
                0 <= i <= n,
                key@ == id@,
                forall|j: int| 0 <= j < i ==> self.sessions_v()[j].id != id@,
            decreases n - i,
        {
            if self.sessions[i].id == key {
                return Some(i);
            }
            i = i + 1;
        }
        None
    }

    /// Creates a session with a fresh random id and returns the id.
    ///
    /// The store treats an id collision as a fatal storage fault and
    /// reports it rather than retrying; on a store without sessions no
    /// draw can collide, so success is certain there.
    pub fn create_session(
        &mut self,
        client_id: Option<String>,
        settings: SessionSettings,
        now: u64,
    ) -> (r: Result<String, ErrorKind>)
        requires
            old(self).wf(),
        ensures
            final(self).wf(),
            old(self).sessions_v().len() == 0 ==> r is Ok,
            match r {
                Ok(id) => {
                    &&& !spec_has_session(old(self).sessions_v(), id@)
                    &&& final(self).sessions_v() == old(self).sessions_v().push(
                        SessionRowView {
                            id: id@,
                            client_id: client_id.deep_view(),
                            created_at: spec_advance(old(self).clock, now),
                            settings: settings.deep_view(),
                        },
                    )
                    &&& final(self).clock == spec_advance(old(self).clock, now)
                    &&& forall|i: int|
                        0 <= i < final(self).messages_v().len() ==> (
                        #[trigger] final(self).messages_v()[i].session_id) != id@
                    &&& forall|i: int|
                        0 <= i < final(self).events_v().len() ==> (
                        #[trigger] final(self).events_v()[i].session_id) != id@
                    &&& forall|i: int|
                        0 <= i < final(self).items_v().len() ==> (
                        #[trigger] final(self).items_v()[i].session_id) != id@
                },
                Err(e) => e == ErrorKind::StorageFailure && *final(self) == *old(self),
            },
            final(self).messages_v() == old(self).messages_v(),
            final(self).events_v() == old(self).events_v(),
            final(self).items_v() == old(self).items_v(),
            final(self).rules_v() == old(self).rules_v(),
    {
        let id = uuid_v4();
        match self.find_session(id.as_str()) {
            Some(_) => Err(ErrorKind::StorageFailure),
            None => {
                let ts = if now > self.clock {
                    now
                } else {
                    self.clock
                };
                let ghost old_rows = self.sessions_v();
                let row = SessionRow {
                    id: dup_string(&id),
                    client_id,
                    created_at: ts,
                    settings,
                };
                let ghost rowv = row.deep_view();
                self.sessions.push(row);
                self.clock = ts;
                proof {
                    assert(self.sessions_v() =~= old_rows.push(rowv));
                    assert(rowv.id == id@);
                    assert forall|a: int, b: int|
                        0 <= a < b < self.sessions_v().len() implies self.sessions_v()[a].id
                        != self.sessions_v()[b].id by {
                        if b == old_rows.len() {
                            assert(old_rows[a].id != id@);
                        }
                    }
                    assert forall|a: int, b: int|
                        0 <= a <= b < self.sessions_v().len() implies self.sessions_v()[a].created_at
                        <= self.sessions_v()[b].created_at by {
                        if b == old_rows.len() && a < b {
                            assert(old_rows[a].created_at <= old(self).clock);
                        }
                    }
                    assert forall|a: int|
                        0 <= a < self.sessions_v().len() implies #[trigger] self.sessions_v()[a].created_at
                        <= self.clock by {
                        if a < old_rows.len() {
                            assert(old_rows[a].created_at <= old(self).clock);
                        }
                    }
                    assert(self.messages_v() == old(self).messages_v());
                    assert(self.events_v() == old(self).events_v());
                    assert(self.rules_v() == old(self).rules_v());
                    assert(old(self).clock <= self.clock);
                    assert forall|a: int|
                        0 <= a < self.messages_v().len() implies #[trigger] self.messages_v()[a].message.created_at
                        <= self.clock by {
                        assert(old(self).messages_v()[a].message.created_at <= old(self).clock);
                    }
                    assert forall|a: int|
                        0 <= a < self.events_v().len() implies #[trigger] self.events_v()[a].event.created_at
                        <= self.clock by {
                        assert(old(self).events_v()[a].event.created_at <= old(self).clock);
                    }
                    assert forall|a: int, b: int|
                        0 <= a <= b < self.messages_v().len() implies self.messages_v()[a].message.created_at
                        <= self.messages_v()[b].message.created_at by {
                        assert(old(self).messages_v()[a].message.created_at <= old(
                            self,
                        ).messages_v()[b].message.created_at);
                    }
                    assert forall|a: int, b: int|
                        0 <= a <= b < self.events_v().len() implies self.events_v()[a].event.created_at
                        <= self.events_v()[b].event.created_at by {
                        assert(old(self).events_v()[a].event.created_at <= old(
                            self,
                        ).events_v()[b].event.created_at);
                    }
                    assert forall|a: int|
                        0 <= a < self.events_v().len() implies spec_event_wf(
                        #[trigger] self.events_v()[a].event,
                    ) by {
                        assert(spec_event_wf(old(self).events_v()[a].event));
                    }
                    assert(self.items_v() == old(self).items_v());
                    assert forall|a: int|
                        0 <= a < self.messages_v().len() implies spec_has_session(
                        self.sessions_v(),
                        #[trigger] self.messages_v()[a].session_id,
                    ) by {
                        assert(spec_has_session(
                            old(self).sessions_v(),
                            old(self).messages_v()[a].session_id,
                        ));
                        lemma_has_session_extended(
                            old(self).sessions_v(),
                            self.sessions_v(),
                            old(self).messages_v()[a].session_id,
                        );
                    }
                    assert forall|a: int|
                        0 <= a < self.events_v().len() implies spec_has_session(
                        self.sessions_v(),
                        #[trigger] self.events_v()[a].session_id,
                    ) by {
                        assert(spec_has_session(
                            old(self).sessions_v(),
                            old(self).events_v()[a].session_id,
                        ));
                        lemma_has_session_extended(
                            old(self).sessions_v(),
                            self.sessions_v(),
                            old(self).events_v()[a].session_id,
                        );
                    }
                    assert forall|a: int|
                        0 <= a < self.items_v().len() implies spec_has_session(
                        self.sessions_v(),
                        #[trigger] self.items_v()[a].session_id,
                    ) by {
                        assert(spec_has_session(
                            old(self).sessions_v(),
                            old(self).items_v()[a].session_id,
                        ));
                        lemma_has_session_extended(
                            old(self).sessions_v(),
                            self.sessions_v(),
                            old(self).items_v()[a].session_id,
                        );
                    }
                    assert forall|a: int|
                        0 <= a < self.messages_v().len() implies (
                        #[trigger] self.messages_v()[a].session_id) != id@ by {
                        assert(spec_has_session(
                            old(self).sessions_v(),
                            old(self).messages_v()[a].session_id,
                        ));
                    }
                    assert forall|a: int|
                        0 <= a < self.events_v().len() implies (
                        #[trigger] self.events_v()[a].session_id) != id@ by {
                        assert(spec_has_session(
                            old(self).sessions_v(),
                            old(self).events_v()[a].session_id,
                        ));
                    }
                    assert forall|a: int|
                        0 <= a < self.items_v().len() implies (
                        #[trigger] self.items_v()[a].session_id) != id@ by {
                        assert(spec_has_session(
                            old(self).sessions_v(),
                            old(self).items_v()[a].session_id,
                        ));
                    }
                    assert(self.wf());
                }
                Ok(id)
            }
        }
    }

    /// Whether a session with this id exists.
    pub fn has_session(&self, id: &str) -> (r: bool)
        ensures
            r == spec_has_session(self.sessions_v(), id@),
    {
        match self.find_session(id) {
            Some(i) => {
                proof {
                    assert(spec_has_session(self.sessions_v(), id@)) by {
                        assert(self.sessions_v()[i as int].id == id@);
                    }
                }
                true
            }
            None => false,
        }
    }

    /// The session ids, newest creation first.
    pub fn list_sessions(&self) -> (r: Vec<String>)
        ensures
            r.deep_view().len() == self.sessions_v().len(),
            forall|i: int|
                0 <= i < r.deep_view().len() ==> r.deep_view()[i] == self.sessions_v()[self.sessions_v().len()
                    - 1 - i].id,
    {
        let n = self.sessions.len();
        let mut out: Vec<String> = Vec::new();
        let mut i: usize = 0;
        while i < n
            invariant
                n == self.sessions@.len(),
                0 <= i <= n,
                out@.len() == i,
                forall|j: int| 0 <= j < i ==> out.deep_view()[j] == self.sessions_v()[n - 1 - j].id,
            decreases n - i,
        {
            let ghost oldv = out.deep_view();
            out.push(dup_string(&self.sessions[n - 1 - i].id));
            proof {
                assert(out.deep_view() =~= oldv.push(self.sessions_v()[n - 1 - i as int].id));
            }
            i = i + 1;
        }
        out
    }

    /// Loads a session with its full logs, messages and events each in
    /// table order (sorted by `created_at`, insertion order breaking
    /// ties).  Returns nothing exactly when the id is unknown.
    pub fn get_session(&self, id: &str) -> (r: Option<Session>)
        requires
            self.wf(),
        ensures
            r is Some <==> spec_has_session(self.sessions_v(), id@),
            match r {
                Some(sess) => {
                    &&& sess.id@ == id@
                    &&& sess.client_id.deep_view() == self.sessions_v()[spec_session_index(
                        self.sessions_v(),
                        id@,
                    )].client_id
                    &&& sess.created_at == self.sessions_v()[spec_session_index(
                        self.sessions_v(),
                        id@,
                    )].created_at
                    &&& sess.settings.deep_view() == self.sessions_v()[spec_session_index(
                        self.sessions_v(),
                        id@,
                    )].settings
                    &&& sess.messages.deep_view() == spec_messages_of(self.messages_v(), id@)
                    &&& sess.tool_history.deep_view() == spec_events_of(self.events_v(), id@)
                },
                None => true,
            },
    {
        let idx = match self.find_session(id) {
            Some(i) => i,
            None => {
                return None;
            }
        };
        proof {
            assert(spec_has_session(self.sessions_v(), id@)) by {
                assert(self.sessions_v()[idx as int].id == id@);
            }
            assert(self.sessions_v()[spec_session_index(self.sessions_v(), id@)].id == id@);
            assert(spec_session_index(self.sessions_v(), id@) == idx as int) by {
                let k = spec_session_index(self.sessions_v(), id@);
                if k != idx as int {
                    assert(self.sessions_v()[k].id != self.sessions_v()[idx as int].id);
                }
            }
        }
        let row = &self.sessions[idx];
        let key: String = id.to_owned();

        let mut msgs: Vec<Message> = Vec::new();
        let mn = self.messages.len();
        let mut i: usize = 0;
        proof {
            assert(self.messages_v().take(0) =~= Seq::<MessageRowView>::empty());
            assert(msgs.deep_view() =~= spec_messages_of(self.messages_v().take(0), id@)) by {
                reveal(Seq::filter);
            }
        }
        while i < mn
            invariant
                mn == self.messages@.len(),
                0 <= i <= mn,
                key@ == id@,
                msgs.deep_view() == spec_messages_of(self.messages_v().take(i as int), id@),
            decreases mn - i,
        {
            let ghost pre = self.messages_v().take(i as int);
            let ghost cur = self.messages_v()[i as int];
            proof {
                assert(self.messages_v().take(i as int + 1).drop_last() =~= pre);
                assert(self.messages_v().take(i as int + 1).last() == cur);
                reveal(Seq::filter);
            }
            let mrow = &self.messages[i];
            if mrow.session_id == key {
                let ghost old_msgs = msgs.deep_view();
                msgs.push(dup_message(&mrow.message));
                proof {
                    assert(msgs.deep_view() =~= old_msgs.push(cur.message));
                    assert(spec_messages_of(self.messages_v().take(i as int + 1), id@) =~= old_msgs.push(
                        cur.message,
                    ));
                }
            } else {
                proof {
                    assert(spec_messages_of(self.messages_v().take(i as int + 1), id@) =~= msgs.deep_view());
                }
            }
            i = i + 1;
        }
        proof {
            assert(self.messages_v().take(mn as int) =~= self.messages_v());
        }

        let mut evs: Vec<ToolEvent> = Vec::new();
        let en = self.tool_events.len();
        let mut k: usize = 0;
        proof {
            assert(self.events_v().take(0) =~= Seq::<ToolEventRowView>::empty());
            assert(evs.deep_view() =~= spec_events_of(self.events_v().take(0), id@)) by {
                reveal(Seq::filter);
            }
        }
        while k < en
            invariant
                en == self.tool_events@.len(),
                0 <= k <= en,
                key@ == id@,
                evs.deep_view() == spec_events_of(self.events_v().take(k as int), id@),
            decreases en - k,
        {
            let ghost pre = self.events_v().take(k as int);
            let ghost cur = self.events_v()[k as int];
            proof {
                assert(self.events_v().take(k as int + 1).drop_last() =~= pre);
                assert(self.events_v().take(k as int + 1).last() == cur);
                reveal(Seq::filter);
            }
            let erow = &self.tool_events[k];
            if erow.session_id == key {
                let ghost old_evs = evs.deep_view();
                evs.push(dup_event(&erow.event));
                proof {
                    assert(evs.deep_view() =~= old_evs.push(cur.event));
                    assert(spec_events_of(self.events_v().take(k as int + 1), id@) =~= old_evs.push(
                        cur.event,
                    ));
                }
            } else {
                proof {
                    assert(spec_events_of(self.events_v().take(k as int + 1), id@) =~= evs.deep_view());
                }
            }
            k = k + 1;
        }
        proof {
            assert(self.events_v().take(en as int) =~= self.events_v());
        }

        Some(
            Session {
                id: key,
                client_id: dup_opt_string(&row.client_id),
                created_at: row.created_at,
                messages: msgs,
                tool_history: evs,
                settings: dup_settings(&row.settings),
            },
        )
    }

    /// Deletes a session, cascading to its messages, tool events and
    /// context items; returns whether it existed.  Rules are global
    /// and untouched.
    pub fn delete_session(&mut self, id: &str) -> (r: bool)
        requires
            old(self).wf(),
        ensures
            final(self).wf(),
            r == spec_has_session(old(self).sessions_v(), id@),
            final(self).sessions_v() == spec_sessions_without(old(self).sessions_v(), id@),
            final(self).messages_v() == spec_messages_without(old(self).messages_v(), id@),
            final(self).events_v() == spec_events_without(old(self).events_v(), id@),
            final(self).items_v() == spec_items_without(old(self).items_v(), id@),
            final(self).rules_v() == old(self).rules_v(),
            final(self).clock == old(self).clock,
            !spec_has_session(final(self).sessions_v(), id@),
            spec_messages_of(final(self).messages_v(), id@) == Seq::<MessageView>::empty(),
            spec_events_of(final(self).events_v(), id@) == Seq::<ToolEventView>::empty(),
    {
        let existed = self.has_session(id);
        let key: String = id.to_owned();

        let ghost old_sessions = self.sessions_v();
        let mut kept_sessions: Vec<SessionRow> = Vec::new();
        let sn = self.sessions.len();
        let mut i: usize = 0;
        proof {
            assert(old_sessions.take(0) =~= Seq::<SessionRowView>::empty());
            assert(kept_sessions.deep_view() =~= spec_sessions_without(old_sessions.take(0), id@))
                by {
                reveal(Seq::filter);
            }
        }
        while i < sn
            invariant
                sn == self.sessions@.len(),
                old_sessions == self.sessions_v(),
                0 <= i <= sn,
                key@ == id@,
                kept_sessions.deep_view() == spec_sessions_without(old_sessions.take(i as int), id@),
            decreases sn - i,
        {
            let ghost pre = old_sessions.take(i as int);
            let ghost cur = old_sessions[i as int];
            proof {
                assert(old_sessions.take(i as int + 1).drop_last() =~= pre);
                assert(old_sessions.take(i as int + 1).last() == cur);
                reveal(Seq::filter);
            }
            let srow = &self.sessions[i];
            if srow.id == key {
                proof {
                    assert(spec_sessions_without(old_sessions.take(i as int + 1), id@)
                        =~= kept_sessions.deep_view());
                }
            } else {
                let ghost old_kept = kept_sessions.deep_view();
                kept_sessions.push(dup_session_row(srow));
                proof {
                    assert(kept_sessions.deep_view() =~= old_kept.push(cur));
                    assert(spec_sessions_without(old_sessions.take(i as int + 1), id@) =~= old_kept.push(
                        cur,
                    ));
                }
            }
            i = i + 1;
        }
        proof {
            assert(old_sessions.take(sn as int) =~= old_sessions);
        }
        self.sessions = kept_sessions;

        let ghost old_messages = self.messages_v();
        let mut kept_messages: Vec<MessageRow> = Vec::new();
        let mn = self.messages.len();
        let mut m: usize = 0;
        proof {
            assert(old_messages.take(0) =~= Seq::<MessageRowView>::empty());
            assert(kept_messages.deep_view() =~= spec_messages_without(old_messages.take(0), id@))
                by {
                reveal(Seq::filter);
            }
        }
        while m < mn
            invariant
                mn == self.messages@.len(),
                old_messages == self.messages_v(),
                0 <= m <= mn,
                key@ == id@,
                kept_messages.deep_view() == spec_messages_without(old_messages.take(m as int), id@),
            decreases mn - m,
        {
            let ghost pre = old_messages.take(m as int);
            let ghost cur = old_messages[m as int];
            proof {
                assert(old_messages.take(m as int + 1).drop_last() =~= pre);
                assert(old_messages.take(m as int + 1).last() == cur);
                reveal(Seq::filter);
            }
            let mrow = &self.messages[m];
            if mrow.session_id == key {
                proof {
                    assert(spec_messages_without(old_messages.take(m as int + 1), id@)
                        =~= kept_messages.deep_view());
                }
            } else {
                let ghost old_kept = kept_messages.deep_view();
                kept_messages.push(
                    MessageRow { session_id: mrow.session_id.clone(), message: dup_message(&mrow.message) },
                );
                proof {
                    assert(kept_messages.deep_view() =~= old_kept.push(cur));
                    assert(spec_messages_without(old_messages.take(m as int + 1), id@) =~= old_kept.push(
                        cur,
                    ));
                }
            }
            m = m + 1;
        }
        proof {
            assert(old_messages.take(mn as int) =~= old_messages);
        }
        self.messages = kept_messages;

        let ghost old_events = self.events_v();
        let mut kept_events: Vec<ToolEventRow> = Vec::new();
        let en = self.tool_events.len();
        let mut e: usize = 0;
        proof {
            assert(old_events.take(0) =~= Seq::<ToolEventRowView>::empty());
            assert(kept_events.deep_view() =~= spec_events_without(old_events.take(0), id@)) by {
                reveal(Seq::filter);
            }
        }
        while e < en
            invariant
                en == self.tool_events@.len(),
                old_events == self.events_v(),
                0 <= e <= en,
                key@ == id@,
                kept_events.deep_view() == spec_events_without(old_events.take(e as int), id@),
            decreases en - e,
        {
            let ghost pre = old_events.take(e as int);
            let ghost cur = old_events[e as int];
            proof {
                assert(old_events.take(e as int + 1).drop_last() =~= pre);
                assert(old_events.take(e as int + 1).last() == cur);
                reveal(Seq::filter);
            }
            let erow = &self.tool_events[e];
            if erow.session_id == key {
                proof {
                    assert(spec_events_without(old_events.take(e as int + 1), id@)
                        =~= kept_events.deep_view());
                }
            } else {
                let ghost old_kept = kept_events.deep_view();
                kept_events.push(
                    ToolEventRow { session_id: erow.session_id.clone(), event: dup_event(&erow.event) },
                );
                proof {
                    assert(kept_events.deep_view() =~= old_kept.push(cur));
                    assert(spec_events_without(old_events.take(e as int + 1), id@) =~= old_kept.push(cur));
                }
            }
            e = e + 1;
        }
        proof {
            assert(old_events.take(en as int) =~= old_events);
        }
        self.tool_events = kept_events;

        let ghost old_items = self.items_v();
        let mut kept_items: Vec<ContextItemRow> = Vec::new();
        let cn = self.context_items.len();
        let mut c: usize = 0;
        proof {
            assert(old_items.take(0) =~= Seq::<ContextItemRowView>::empty());
            assert(kept_items.deep_view() =~= spec_items_without(old_items.take(0), id@)) by {
                reveal(Seq::filter);
            }
        }
        while c < cn
            invariant
                cn == self.context_items@.len(),
                old_items == self.items_v(),
                0 <= c <= cn,
                key@ == id@,
                kept_items.deep_view() == spec_items_without(old_items.take(c as int), id@),
            decreases cn - c,
        {
            let ghost pre = old_items.take(c as int);
            let ghost cur = old_items[c as int];
            proof {
                assert(old_items.take(c as int + 1).drop_last() =~= pre);
                assert(old_items.take(c as int + 1).last() == cur);
                reveal(Seq::filter);
            }
            let crow = &self.context_items[c];
            if crow.session_id == key {
                proof {
                    assert(spec_items_without(old_items.take(c as int + 1), id@) =~= kept_items.deep_view());
                }
            } else {
                let ghost old_kept = kept_items.deep_view();
                kept_items.push(
                    ContextItemRow { session_id: crow.session_id.clone(), item: dup_item(&crow.item) },
                );
                proof {
                    assert(kept_items.deep_view() =~= old_kept.push(cur));
                    assert(spec_items_without(old_items.take(c as int + 1), id@) =~= old_kept.push(cur));
                }
            }
            c = c + 1;
        }
        proof {
            assert(old_items.take(cn as int) =~= old_items);
        }
        self.context_items = kept_items;

        proof {
            lemma_sessions_without_props(old(self).sessions_v(), id@);
            lemma_messages_without_props(old(self).messages_v(), id@);
            lemma_events_without_props(old(self).events_v(), id@);
            assert(!spec_has_session(self.sessions_v(), id@)) by {
                if spec_has_session(self.sessions_v(), id@) {
                    let w = choose|w: int|
                        0 <= w < self.sessions_v().len() && #[trigger] self.sessions_v()[w].id
                            == id@;
                    assert(false);
                }
            }
            lemma_filter_of_filtered_out_messages(old(self).messages_v(), id@);
            lemma_filter_of_filtered_out_events(old(self).events_v(), id@);
            assert forall|i: int|
                0 <= i < self.sessions_v().len() implies #[trigger] self.sessions_v()[i].created_at
                <= self.clock by {
                assert(old(self).sessions_v().contains(self.sessions_v()[i]));
                let a = choose|a: int|
                    0 <= a < old(self).sessions_v().len() && old(self).sessions_v()[a]
                        == self.sessions_v()[i];
                assert(old(self).sessions_v()[a].created_at <= old(self).clock);
            }
            assert forall|i: int|
                0 <= i < self.messages_v().len() implies #[trigger] self.messages_v()[i].message.created_at
                <= self.clock by {
                assert(old(self).messages_v().contains(self.messages_v()[i]));
                let a = choose|a: int|
                    0 <= a < old(self).messages_v().len() && old(self).messages_v()[a]
                        == self.messages_v()[i];
                assert(old(self).messages_v()[a].message.created_at <= old(self).clock);
            }
            assert forall|i: int|
                0 <= i < self.events_v().len() implies #[trigger] self.events_v()[i].event.created_at
                <= self.clock by {
                assert(old(self).events_v().contains(self.events_v()[i]));
                let a = choose|a: int|
                    0 <= a < old(self).events_v().len() && old(self).events_v()[a]
                        == self.events_v()[i];
                assert(old(self).events_v()[a].event.created_at <= old(self).clock);
            }
            assert forall|i: int|
                0 <= i < self.events_v().len() implies spec_event_wf(
                #[trigger] self.events_v()[i].event,
            ) by {
                assert(old(self).events_v().contains(self.events_v()[i]));
                let a = choose|a: int|
                    0 <= a < old(self).events_v().len() && old(self).events_v()[a]
                        == self.events_v()[i];
                assert(spec_event_wf(old(self).events_v()[a].event));
            }
            assert(self.sessions_v() == spec_sessions_without(old(self).sessions_v(), id@));
            assert forall|a: int, b: int|
                0 <= a < b < self.sessions_v().len() implies self.sessions_v()[a].id
                != self.sessions_v()[b].id by {
                assert(spec_sessions_without(old(self).sessions_v(), id@)[a].id
                    != spec_sessions_without(old(self).sessions_v(), id@)[b].id);
            }
            assert forall|a: int, b: int|
                0 <= a <= b < self.sessions_v().len() implies self.sessions_v()[a].created_at
                <= self.sessions_v()[b].created_at by {
                assert(spec_sessions_without(old(self).sessions_v(), id@)[a].created_at
                    <= spec_sessions_without(old(self).sessions_v(), id@)[b].created_at);
            }
            assert forall|a: int, b: int|
                0 <= a <= b < self.messages_v().len() implies self.messages_v()[a].message.created_at
                <= self.messages_v()[b].message.created_at by {
                assert(spec_messages_without(old(self).messages_v(), id@)[a].message.created_at
                    <= spec_messages_without(old(self).messages_v(), id@)[b].message.created_at);
            }
            assert forall|a: int, b: int|
                0 <= a <= b < self.events_v().len() implies self.events_v()[a].event.created_at
                <= self.events_v()[b].event.created_at by {
                assert(spec_events_without(old(self).events_v(), id@)[a].event.created_at
                    <= spec_events_without(old(self).events_v(), id@)[b].event.created_at);
            }
            assert(self.rules_v() == old(self).rules_v());
            lemma_items_without_props(old(self).items_v(), id@);
            assert forall|a: int|
                0 <= a < self.messages_v().len() implies spec_has_session(
                self.sessions_v(),
                #[trigger] self.messages_v()[a].session_id,
            ) by {
                assert(old(self).messages_v().contains(self.messages_v()[a]));
                let k = choose|k: int|
                    0 <= k < old(self).messages_v().len() && old(self).messages_v()[k]
                        == self.messages_v()[a];
                assert(spec_has_session(
                    old(self).sessions_v(),
                    old(self).messages_v()[k].session_id,
                ));
                assert(self.messages_v()[a].session_id != id@);
                lemma_sessions_without_keeps(
                    old(self).sessions_v(),
                    id@,
                    self.messages_v()[a].session_id,
                );
            }
            assert forall|a: int|
                0 <= a < self.events_v().len() implies spec_has_session(
                self.sessions_v(),
                #[trigger] self.events_v()[a].session_id,
            ) by {
                assert(old(self).events_v().contains(self.events_v()[a]));
                let k = choose|k: int|
                    0 <= k < old(self).events_v().len() && old(self).events_v()[k]
                        == self.events_v()[a];
                assert(spec_has_session(
                    old(self).sessions_v(),
                    old(self).events_v()[k].session_id,
                ));
                assert(self.events_v()[a].session_id != id@);
                lemma_sessions_without_keeps(
                    old(self).sessions_v(),
                    id@,
                    self.events_v()[a].session_id,
                );
            }
            assert forall|a: int|
                0 <= a < self.items_v().len() implies spec_has_session(
                self.sessions_v(),
                #[trigger] self.items_v()[a].session_id,
            ) by {
                assert(old(self).items_v().contains(self.items_v()[a]));
                let k = choose|k: int|
                    0 <= k < old(self).items_v().len() && old(self).items_v()[k]
                        == self.items_v()[a];
                assert(spec_has_session(
                    old(self).sessions_v(),
                    old(self).items_v()[k].session_id,
                ));
                assert(self.items_v()[a].session_id != id@);
                lemma_sessions_without_keeps(
                    old(self).sessions_v(),
                    id@,
                    self.items_v()[a].session_id,
                );
            }
            assert(self.wf());
        }
        existed
    }
}
pub(crate) fn dup_session_row(r: &SessionRow) -> (out: SessionRow)
    ensures
        out.deep_view() == r.deep_view(),
{
    SessionRow {
        id: r.id.clone(),
        client_id: dup_opt_string(&r.client_id),
        created_at: r.created_at,
        settings: dup_settings(&r.settings),
    }
}

pub(crate) fn dup_item(it: &ContextItem) -> (r: ContextItem)
    ensures
        r.deep_view() == it.deep_view(),
{
    ContextItem {
        id: it.id.clone(),
        kind: it.kind.clone(),
        reference: it.reference.clone(),
        content: it.content.clone(),
        size: it.size,
        created_at: it.created_at,
    }
}

/// The session rows kept by a delete: each is an original row, the
/// deleted id is gone, relative order (and so sortedness by
/// `created_at`) is preserved, and ids stay pairwise distinct.
proof fn lemma_sessions_without_props(rows: Seq<SessionRowView>, id: Seq<char>)
    requires
        forall|i: int, j: int| 0 <= i < j < rows.len() ==> rows[i].id != rows[j].id,
        forall|i: int, j: int|
            0 <= i <= j < rows.len() ==> rows[i].created_at <= rows[j].created_at,
    ensures
        forall|i: int|
            0 <= i < spec_sessions_without(rows, id).len() ==> rows.contains(
                #[trigger] spec_sessions_without(rows, id)[i],
            ),
        forall|i: int|
            0 <= i < spec_sessions_without(rows, id).len()
                ==> #[trigger] spec_sessions_without(rows, id)[i].id != id,
        forall|i: int, j: int|
            0 <= i < j < spec_sessions_without(rows, id).len() ==> spec_sessions_without(
                rows,
                id,
            )[i].id != spec_sessions_without(rows, id)[j].id,
        forall|i: int, j: int|
            0 <= i <= j < spec_sessions_without(rows, id).len() ==> spec_sessions_without(
                rows,
                id,
            )[i].created_at <= spec_sessions_without(rows, id)[j].created_at,
    decreases rows.len(),
{
    reveal(Seq::filter);
    let kept = spec_sessions_without(rows, id);
    if rows.len() == 0 {
    } else {
        let init = rows.drop_last();
        lemma_sessions_without_props(init, id);
        let prev = spec_sessions_without(init, id);
        assert forall|i: int| 0 <= i < kept.len() implies rows.contains(#[trigger] kept[i]) by {
            if i < prev.len() {
                assert(init.contains(prev[i]));
                let a = choose|a: int| 0 <= a < init.len() && init[a] == prev[i];
                assert(rows[a] == kept[i]);
            } else {
                assert(kept[i] == rows[rows.len() - 1]);
            }
        }
        assert forall|i: int, j: int| 0 <= i < j < kept.len() implies kept[i].id != kept[j].id by {
            if j < prev.len() {
            } else {
                assert(kept[j] == rows.last());
                assert(init.contains(prev[i]));
                let a = choose|a: int| 0 <= a < init.len() && init[a] == prev[i];
                assert(rows[a].id != rows[rows.len() - 1].id);
            }
        }
        assert forall|i: int, j: int| 0 <= i <= j < kept.len() implies kept[i].created_at
            <= kept[j].created_at by {
            if j < prev.len() {
            } else if i < prev.len() {
                assert(kept[j] == rows.last());
                assert(init.contains(prev[i]));
                let a = choose|a: int| 0 <= a < init.len() && init[a] == prev[i];
                assert(rows[a].created_at <= rows[rows.len() - 1].created_at);
            }
        }
    }
}

/// The message rows kept by a delete: originals only, the deleted
/// session gone, order preserved.
proof fn lemma_messages_without_props(rows: Seq<MessageRowView>, id: Seq<char>)
    requires
        forall|i: int, j: int|
            0 <= i <= j < rows.len() ==> rows[i].message.created_at <= rows[j].message.created_at,
    ensures
        forall|i: int|
            0 <= i < spec_messages_without(rows, id).len() ==> rows.contains(
                #[trigger] spec_messages_without(rows, id)[i],
            ),
        forall|i: int|
            0 <= i < spec_messages_without(rows, id).len()
                ==> #[trigger] spec_messages_without(rows, id)[i].session_id != id,
        forall|i: int, j: int|
            0 <= i <= j < spec_messages_without(rows, id).len() ==> spec_messages_without(
                rows,
                id,
            )[i].message.created_at <= spec_messages_without(rows, id)[j].message.created_at,
    decreases rows.len(),
{
    reveal(Seq::filter);
    let kept = spec_messages_without(rows, id);
    if rows.len() == 0 {
    } else {
        let init = rows.drop_last();
        lemma_messages_without_props(init, id);
        let prev = spec_messages_without(init, id);
        assert forall|i: int| 0 <= i < kept.len() implies rows.contains(#[trigger] kept[i]) by {
            if i < prev.len() {
                assert(init.contains(prev[i]));
                let a = choose|a: int| 0 <= a < init.len() && init[a] == prev[i];
                assert(rows[a] == kept[i]);
            } else {
                assert(kept[i] == rows[rows.len() - 1]);
            }
        }
        assert forall|i: int, j: int| 0 <= i <= j < kept.len() implies kept[i].message.created_at
            <= kept[j].message.created_at by {
            if j < prev.len() {
            } else if i < prev.len() {
                assert(kept[j] == rows.last());
                assert(init.contains(prev[i]));
                let a = choose|a: int| 0 <= a < init.len() && init[a] == prev[i];
                assert(rows[a].message.created_at <= rows[rows.len() - 1].message.created_at);
            }
        }
    }
}

/// The tool-event rows kept by a delete: originals only, the deleted
/// session gone, order preserved.
proof fn lemma_events_without_props(rows: Seq<ToolEventRowView>, id: Seq<char>)
    requires
        forall|i: int, j: int|
            0 <= i <= j < rows.len() ==> rows[i].event.created_at <= rows[j].event.created_at,
    ensures
        forall|i: int|
            0 <= i < spec_events_without(rows, id).len() ==> rows.contains(
                #[trigger] spec_events_without(rows, id)[i],
            ),
        forall|i: int|
            0 <= i < spec_events_without(rows, id).len()
                ==> #[trigger] spec_events_without(rows, id)[i].session_id != id,
        forall|i: int, j: int|
            0 <= i <= j < spec_events_without(rows, id).len() ==> spec_events_without(
                rows,
                id,
            )[i].event.created_at <= spec_events_without(rows, id)[j].event.created_at,
    decreases rows.len(),
{
    reveal(Seq::filter);
    let kept = spec_events_without(rows, id);
    if rows.len() == 0 {
    } else {
        let init = rows.drop_last();
        lemma_events_without_props(init, id);
        let prev = spec_events_without(init, id);
        assert forall|i: int| 0 <= i < kept.len() implies rows.contains(#[trigger] kept[i]) by {
            if i < prev.len() {
                assert(init.contains(prev[i]));
                let a = choose|a: int| 0 <= a < init.len() && init[a] == prev[i];
                assert(rows[a] == kept[i]);
            } else {
                assert(kept[i] == rows[rows.len() - 1]);
            }
        }
        assert forall|i: int, j: int| 0 <= i <= j < kept.len() implies kept[i].event.created_at
            <= kept[j].event.created_at by {
            if j < prev.len() {
            } else if i < prev.len() {
                assert(kept[j] == rows.last());
                assert(init.contains(prev[i]));
                let a = choose|a: int| 0 <= a < init.len() && init[a] == prev[i];
                assert(rows[a].event.created_at <= rows[rows.len() - 1].event.created_at);
            }
        }
    }
}

/// Filtering the message rows of `id` out of the table leaves nothing
/// of that session to collect.
proof fn lemma_filter_of_filtered_out_messages(rows: Seq<MessageRowView>, id: Seq<char>)
    ensures
        spec_messages_of(spec_messages_without(rows, id), id) == Seq::<MessageView>::empty(),
{
    let kept = spec_messages_without(rows, id);
    assert forall|i: int| 0 <= i < kept.len() implies kept[i].session_id != id by {
        rows.lemma_filter_pred(|r: MessageRowView| r.session_id != id, i);
    }
    lemma_filter_none(kept, id);
    assert(spec_messages_of(kept, id) =~= Seq::<MessageView>::empty());
}

proof fn lemma_filter_none(rows: Seq<MessageRowView>, id: Seq<char>)
    requires
        forall|i: int| 0 <= i < rows.len() ==> rows[i].session_id != id,
    ensures
        rows.filter(|r: MessageRowView| r.session_id == id) == Seq::<MessageRowView>::empty(),
    decreases rows.len(),
{
    reveal(Seq::filter);
    if rows.len() == 0 {
        assert(rows.filter(|r: MessageRowView| r.session_id == id) =~= Seq::<
            MessageRowView,
        >::empty());
    } else {
        lemma_filter_none(rows.drop_last(), id);
        assert(rows.filter(|r: MessageRowView| r.session_id == id) =~= Seq::<
            MessageRowView,
        >::empty());
    }
}

/// Filtering the tool-event rows of `id` out of the table leaves
/// nothing of that session to collect.
proof fn lemma_filter_of_filtered_out_events(rows: Seq<ToolEventRowView>, id: Seq<char>)
    ensures
        spec_events_of(spec_events_without(rows, id), id) == Seq::<ToolEventView>::empty(),
{
    let kept = spec_events_without(rows, id);
    assert forall|i: int| 0 <= i < kept.len() implies kept[i].session_id != id by {
        rows.lemma_filter_pred(|r: ToolEventRowView| r.session_id != id, i);
    }
    lemma_filter_none_events(kept, id);
    assert(spec_events_of(kept, id) =~= Seq::<ToolEventView>::empty());
}

proof fn lemma_filter_none_events(rows: Seq<ToolEventRowView>, id: Seq<char>)
    requires
        forall|i: int| 0 <= i < rows.len() ==> rows[i].session_id != id,
    ensures
        rows.filter(|r: ToolEventRowView| r.session_id == id) == Seq::<ToolEventRowView>::empty(),
    decreases rows.len(),
{
    reveal(Seq::filter);
    if rows.len() == 0 {
        assert(rows.filter(|r: ToolEventRowView| r.session_id == id) =~= Seq::<
            ToolEventRowView,
        >::empty());
    } else {
        lemma_filter_none_events(rows.drop_last(), id);
        assert(rows.filter(|r: ToolEventRowView| r.session_id == id) =~= Seq::<
            ToolEventRowView,
        >::empty());
    }
}

/// Some rule carries this name.
pub open spec fn spec_has_rule(rules: Seq<RuleView>, name: Seq<char>) -> bool {
    exists|i: int| 0 <= i < rules.len() && #[trigger] rules[i].name == name
}

/// The index of the rule carrying this name.
pub open spec fn spec_rule_index(rules: Seq<RuleView>, name: Seq<char>) -> int {
    choose|i: int| 0 <= i < rules.len() && #[trigger] rules[i].name == name
}

/// What an upsert leaves behind: the named rule replaced in place, or
/// appended when it was absent.
pub open spec fn spec_upserted(
    rules: Seq<RuleView>,
    name: Seq<char>,
    content: Seq<char>,
    t: u64,
) -> Seq<RuleView> {
    if spec_has_rule(rules, name) {
        rules.update(
            spec_rule_index(rules, name),
            RuleView { name: name, content: content, updated_at: t },
        )
    } else {
        rules.push(RuleView { name: name, content: content, updated_at: t })
    }
}

/// Exactly one rule carries this name, and it holds this content.
pub open spec fn spec_exactly_one_rule(
    rules: Seq<RuleView>,
    name: Seq<char>,
    content: Seq<char>,
) -> bool {
    exists|i: int|
        {
            &&& 0 <= i < rules.len()
            &&& #[trigger] rules[i].name == name
            &&& rules[i].content == content
            &&& forall|j: int| 0 <= j < rules.len() && j != i ==> rules[j].name != name
        }
}

/// The position where to slice a page, and where the next page starts.
pub open spec fn spec_page_start(cursor: Option<usize>) -> int {
    match cursor {
        Some(c) => c as int,
        None => 0,
    }
}

pub open spec fn spec_page_end(len: int, start: int, limit: usize) -> int {
    if start + limit <= len {
        start + limit
    } else {
        len
    }
}

/// The page size used for history reads: the requested limit, absent
/// meaning 50, capped at 200 and at least 1.
pub open spec fn spec_clamped_limit(limit: Option<usize>) -> usize {
    let x = match limit {
        Some(v) => v,
        None => 50usize,
    };
    if x > 200 {
        200usize
    } else if x < 1 {
        1usize
    } else {
        x
    }
}

/// One page of a session's history, with the cursor of the next page
/// when more remains.
#[derive(Debug, PartialEq)]
pub enum HistoryPage {
    Messages(Vec<Message>, Option<usize>),
    Tools(Vec<ToolEvent>, Option<usize>),
}

/// Cuts one page out of a record list: records `start .. start+limit`
/// (clipped to the end) and, when anything remains, the offset to
/// continue from.
pub fn paginate<T>(data: Vec<T>, cursor: Option<usize>, limit: usize) -> (r: (Vec<T>, Option<
    usize,
>))
    ensures
        spec_page_start(cursor) >= data@.len() ==> r.0@ == Seq::<T>::empty() && r.1 is None,
        spec_page_start(cursor) < data@.len() ==> {
            &&& r.0@ == data@.subrange(
                spec_page_start(cursor),
                spec_page_end(data@.len() as int, spec_page_start(cursor), limit),
            )
            &&& r.1 == (if spec_page_end(data@.len() as int, spec_page_start(cursor), limit)
                < data@.len() {
                Some(
                    spec_page_end(data@.len() as int, spec_page_start(cursor), limit) as usize,
                )
            } else {
                Option::<usize>::None
            })
        },
{
    let start: usize = match cursor {
        Some(c) => c,
        None => 0,
    };
    let n = data.len();
    if start >= n {
        let empty: Vec<T> = Vec::new();
        proof {
            assert(empty@ =~= Seq::<T>::empty());
        }
        return (empty, None);
    }
    let mut head = data;
    let mut tail = head.split_off(start);
    if limit < tail.len() {
        tail.truncate(limit);
    }
    let end = start + tail.len();
    let next = if end < n {
        Some(end)
    } else {
        None
    };
    proof {
        assert(tail@ =~= head@.subrange(start as int, start as int).add(tail@));
        assert(tail@ =~= Seq::<T>::empty() + tail@);
    }
    (tail, next)
}

impl SessionStore {
    /// Replaces a session's settings in place; a write against an
    /// unknown id changes nothing and still reports success, as a
    /// relational update of zero rows would.
    pub fn update_settings(&mut self, id: &str, settings: SessionSettings) -> (r: Result<
        (),
        ErrorKind,
    >)
        requires
            old(self).wf(),
        ensures
            final(self).wf(),
            r is Ok,
            spec_has_session(old(self).sessions_v(), id@) ==> final(self).sessions_v() == old(
                self,
            ).sessions_v().update(
                spec_session_index(old(self).sessions_v(), id@),
                SessionRowView {
                    id: old(self).sessions_v()[spec_session_index(old(self).sessions_v(), id@)].id,
                    client_id: old(self).sessions_v()[spec_session_index(
                        old(self).sessions_v(),
                        id@,
                    )].client_id,
                    created_at: old(self).sessions_v()[spec_session_index(
                        old(self).sessions_v(),
                        id@,
                    )].created_at,
                    settings: settings.deep_view(),
                },
            ),
            !spec_has_session(old(self).sessions_v(), id@) ==> *final(self) == *old(self),
            final(self).messages_v() == old(self).messages_v(),
            final(self).events_v() == old(self).events_v(),
            final(self).items_v() == old(self).items_v(),
            final(self).rules_v() == old(self).rules_v(),
            final(self).clock == old(self).clock,
    {
        let idx = match self.find_session(id) {
            Some(i) => i,
            None => {
                return Ok(());
            }
        };
        proof {
            assert(spec_has_session(self.sessions_v(), id@)) by {
                assert(self.sessions_v()[idx as int].id == id@);
            }
            assert(spec_session_index(self.sessions_v(), id@) == idx as int) by {
                let k = spec_session_index(self.sessions_v(), id@);
                assert(self.sessions_v()[k].id == id@);
                if k != idx as int {
                    assert(self.sessions_v()[k].id != self.sessions_v()[idx as int].id);
                }
            }
        }
        let row = &self.sessions[idx];
        let newrow = SessionRow {
            id: row.id.clone(),
            client_id: dup_opt_string(&row.client_id),
            created_at: row.created_at,
            settings,
        };
        let ghost oldv = self.sessions_v();
        let ghost newrowv = newrow.deep_view();
        self.sessions[idx] = newrow;
        proof {
            assert(self.sessions_v() =~= oldv.update(idx as int, newrowv));
            assert forall|a: int, b: int|
                0 <= a < b < self.sessions_v().len() implies self.sessions_v()[a].id
                != self.sessions_v()[b].id by {
                assert(oldv[a].id != oldv[b].id);
            }
            assert forall|a: int, b: int|
                0 <= a <= b < self.sessions_v().len() implies self.sessions_v()[a].created_at
                <= self.sessions_v()[b].created_at by {
                assert(oldv[a].created_at <= oldv[b].created_at);
            }
            assert forall|a: int|
                0 <= a < self.sessions_v().len() implies #[trigger] self.sessions_v()[a].created_at
                <= self.clock by {
                assert(oldv[a].created_at <= self.clock);
            }
            lemma_messages_wf_carry(*old(self), *self);
            lemma_events_wf_carry(*old(self), *self);
            lemma_rules_wf_carry(*old(self), *self);
            assert(newrowv.id == oldv[idx as int].id);
            assert forall|a: int|
                0 <= a < self.messages_v().len() implies spec_has_session(
                self.sessions_v(),
                #[trigger] self.messages_v()[a].session_id,
            ) by {
                assert(spec_has_session(oldv, old(self).messages_v()[a].session_id));
                lemma_has_session_update_same(
                    oldv,
                    idx as int,
                    newrowv,
                    old(self).messages_v()[a].session_id,
                );
            }
            assert forall|a: int|
                0 <= a < self.events_v().len() implies spec_has_session(
                self.sessions_v(),
                #[trigger] self.events_v()[a].session_id,
            ) by {
                assert(spec_has_session(oldv, old(self).events_v()[a].session_id));
                lemma_has_session_update_same(
                    oldv,
                    idx as int,
                    newrowv,
                    old(self).events_v()[a].session_id,
                );
            }
            assert forall|a: int|
                0 <= a < self.items_v().len() implies spec_has_session(
                self.sessions_v(),
                #[trigger] self.items_v()[a].session_id,
            ) by {
                assert(spec_has_session(oldv, old(self).items_v()[a].session_id));
                lemma_has_session_update_same(
                    oldv,
                    idx as int,
                    newrowv,
                    old(self).items_v()[a].session_id,
                );
            }
            assert(self.wf());
        }
        Ok(())
    }

    /// Appends a message to a session's log.  The stored record is
    /// stamped no earlier than anything already stored, so the log
    /// stays sorted; fails only when the session does not exist.
    pub fn append_message(&mut self, id: &str, msg: Message) -> (r: Result<(), ErrorKind>)
        requires
            old(self).wf(),
        ensures
            final(self).wf(),
            r is Ok <==> spec_has_session(old(self).sessions_v(), id@),
            r is Err ==> r == Result::<(), ErrorKind>::Err(ErrorKind::SessionNotFound) && *final(self) == *old(self),
            r is Ok ==> {
                &&& final(self).messages_v() == old(self).messages_v().push(
                    MessageRowView {
                        session_id: id@,
                        message: MessageView {
                            id: msg.id@,
                            role: msg.role@,
                            content_summary: msg.content_summary@,
                            model_used: msg.model_used.deep_view(),
                            created_at: spec_advance(old(self).clock, msg.created_at),
                        },
                    },
                )
                &&& final(self).clock == spec_advance(old(self).clock, msg.created_at)
                &&& final(self).sessions_v() == old(self).sessions_v()
                &&& final(self).events_v() == old(self).events_v()
                &&& final(self).items_v() == old(self).items_v()
                &&& final(self).rules_v() == old(self).rules_v()
            },
    {
        if !self.has_session(id) {
            return Err(ErrorKind::SessionNotFound);
        }
        let ts = if msg.created_at > self.clock {
            msg.created_at
        } else {
            self.clock
        };
        let row = MessageRow {
            session_id: id.to_owned(),
            message: Message {
                id: msg.id,
                role: msg.role,
                content_summary: msg.content_summary,
                model_used: msg.model_used,
                created_at: ts,
            },
        };
        let ghost oldv = self.messages_v();
        let ghost rowv = row.deep_view();
        self.messages.push(row);
        self.clock = ts;
        proof {
            assert(self.messages_v() =~= oldv.push(rowv));
            assert(old(self).clock <= self.clock);
            assert forall|a: int, b: int|
                0 <= a <= b < self.messages_v().len() implies self.messages_v()[a].message.created_at
                <= self.messages_v()[b].message.created_at by {
                if b == oldv.len() && a < b {
                    assert(oldv[a].message.created_at <= old(self).clock);
                } else if b < oldv.len() {
                    assert(oldv[a].message.created_at <= oldv[b].message.created_at);
                }
            }
            assert forall|a: int|
                0 <= a < self.messages_v().len() implies #[trigger] self.messages_v()[a].message.created_at
                <= self.clock by {
                if a < oldv.len() {
                    assert(oldv[a].message.created_at <= old(self).clock);
                }
            }
            lemma_sessions_wf_carry(*old(self), *self);
            lemma_events_wf_carry(*old(self), *self);
            lemma_rules_wf_carry(*old(self), *self);
            assert forall|a: int|
                0 <= a < self.messages_v().len() implies spec_has_session(
                self.sessions_v(),
                #[trigger] self.messages_v()[a].session_id,
            ) by {
                if a < oldv.len() {
                    assert(spec_has_session(
                        old(self).sessions_v(),
                        old(self).messages_v()[a].session_id,
                    ));
                } else {
                    assert(self.messages_v()[a].session_id == id@);
                    assert(spec_has_session(old(self).sessions_v(), id@));
                }
            }
            assert forall|a: int|
                0 <= a < self.events_v().len() implies spec_has_session(
                self.sessions_v(),
                #[trigger] self.events_v()[a].session_id,
            ) by {
                assert(spec_has_session(
                    old(self).sessions_v(),
                    old(self).events_v()[a].session_id,
                ));
            }
            assert forall|a: int|
                0 <= a < self.items_v().len() implies spec_has_session(
                self.sessions_v(),
                #[trigger] self.items_v()[a].session_id,
            ) by {
                assert(spec_has_session(
                    old(self).sessions_v(),
                    old(self).items_v()[a].session_id,
                ));
            }
            assert(self.wf());
        }
        Ok(())
    }

    /// Appends a well-formed tool event to a session's audit trail;
    /// the record is stamped no earlier than anything already stored.
    /// Fails only when the session does not exist.
    pub fn append_tool_event(&mut self, id: &str, ev: ToolEvent) -> (r: Result<(), ErrorKind>)
        requires
            old(self).wf(),
            spec_event_wf(ev.deep_view()),
        ensures
            final(self).wf(),
            r is Ok <==> spec_has_session(old(self).sessions_v(), id@),
            r is Err ==> r == Result::<(), ErrorKind>::Err(ErrorKind::SessionNotFound) && *final(self) == *old(self),
            r is Ok ==> {
                &&& final(self).events_v() == old(self).events_v().push(
                    ToolEventRowView {
                        session_id: id@,
                        event: ToolEventView {
                            id: ev.id@,
                            tool: ev.tool@,
                            summary: ev.summary@,
                            status: ev.status@,
                            error: ev.error.deep_view(),
                            created_at: spec_advance(old(self).clock, ev.created_at),
                        },
                    },
                )
                &&& final(self).clock == spec_advance(old(self).clock, ev.created_at)
                &&& final(self).sessions_v() == old(self).sessions_v()
                &&& final(self).messages_v() == old(self).messages_v()
                &&& final(self).items_v() == old(self).items_v()
                &&& final(self).rules_v() == old(self).rules_v()
            },
    {
        if !self.has_session(id) {
            return Err(ErrorKind::SessionNotFound);
        }
        let ts = if ev.created_at > self.clock {
            ev.created_at
        } else {
            self.clock
        };
        let row = ToolEventRow {
            session_id: id.to_owned(),
            event: ToolEvent {
                id: ev.id,
                tool: ev.tool,
                summary: ev.summary,
                status: ev.status,
                error: ev.error,
                created_at: ts,
            },
        };
        let ghost oldv = self.events_v();
        let ghost rowv = row.deep_view();
        self.tool_events.push(row);
        self.clock = ts;
        proof {
            assert(self.events_v() =~= oldv.push(rowv));
            assert(old(self).clock <= self.clock);
            assert forall|a: int, b: int|
                0 <= a <= b < self.events_v().len() implies self.events_v()[a].event.created_at
                <= self.events_v()[b].event.created_at by {
                if b == oldv.len() && a < b {
                    assert(oldv[a].event.created_at <= old(self).clock);
                } else if b < oldv.len() {
                    assert(oldv[a].event.created_at <= oldv[b].event.created_at);
                }
            }
            assert forall|a: int|
                0 <= a < self.events_v().len() implies #[trigger] self.events_v()[a].event.created_at
                <= self.clock by {
                if a < oldv.len() {
                    assert(oldv[a].event.created_at <= old(self).clock);
                }
            }
            assert forall|a: int|
                0 <= a < self.events_v().len() implies spec_event_wf(
                #[trigger] self.events_v()[a].event,
            ) by {
                if a < oldv.len() {
                    assert(spec_event_wf(old(self).events_v()[a].event));
                }
            }
            lemma_sessions_wf_carry(*old(self), *self);
            lemma_messages_wf_carry(*old(self), *self);
            lemma_rules_wf_carry(*old(self), *self);
            assert forall|a: int|
                0 <= a < self.events_v().len() implies spec_has_session(
                self.sessions_v(),
                #[trigger] self.events_v()[a].session_id,
            ) by {
                if a < oldv.len() {
                    assert(spec_has_session(
                        old(self).sessions_v(),
                        old(self).events_v()[a].session_id,
                    ));
                } else {
                    assert(self.events_v()[a].session_id == id@);
                    assert(spec_has_session(old(self).sessions_v(), id@));
                }
            }
            assert forall|a: int|
                0 <= a < self.messages_v().len() implies spec_has_session(
                self.sessions_v(),
                #[trigger] self.messages_v()[a].session_id,
            ) by {
                assert(spec_has_session(
                    old(self).sessions_v(),
                    old(self).messages_v()[a].session_id,
                ));
            }
            assert forall|a: int|
                0 <= a < self.items_v().len() implies spec_has_session(
                self.sessions_v(),
                #[trigger] self.items_v()[a].session_id,
            ) by {
                assert(spec_has_session(
                    old(self).sessions_v(),
                    old(self).items_v()[a].session_id,
                ));
            }
            assert(self.wf());
        }
        Ok(())
    }

    /// Attaches a captured file or URL to a session, under a fresh
    /// random id.  Fails only when the session does not exist.
    pub fn add_context_item(
        &mut self,
        id: &str,
        kind: &str,
        reference: &str,
        content: &str,
        size: u64,
        now: u64,
    ) -> (r: Result<(), ErrorKind>)
        requires
            old(self).wf(),
        ensures
            final(self).wf(),
            r is Ok <==> spec_has_session(old(self).sessions_v(), id@),
            r is Err ==> r == Result::<(), ErrorKind>::Err(ErrorKind::SessionNotFound) && *final(self) == *old(self),
            r is Ok ==> {
                &&& final(self).items_v().len() == old(self).items_v().len() + 1
                &&& final(self).items_v().drop_last() == old(self).items_v()
                &&& final(self).items_v().last().session_id == id@
                &&& final(self).items_v().last().item.kind == kind@
                &&& final(self).items_v().last().item.reference == reference@
                &&& final(self).items_v().last().item.content == content@
                &&& final(self).items_v().last().item.size == size
                &&& final(self).items_v().last().item.created_at == spec_advance(
                    old(self).clock,
                    now,
                )
                &&& final(self).clock == spec_advance(old(self).clock, now)
                &&& final(self).sessions_v() == old(self).sessions_v()
                &&& final(self).messages_v() == old(self).messages_v()
                &&& final(self).events_v() == old(self).events_v()
                &&& final(self).rules_v() == old(self).rules_v()
            },
    {
        if !self.has_session(id) {
            return Err(ErrorKind::SessionNotFound);
        }
        let ts = if now > self.clock {
            now
        } else {
            self.clock
        };
        let row = ContextItemRow {
            session_id: id.to_owned(),
            item: ContextItem {
                id: uuid_v4(),
                kind: kind.to_owned(),
                reference: reference.to_owned(),
                content: content.to_owned(),
                size,
                created_at: ts,
            },
        };
        let ghost oldv = self.items_v();
        let ghost rowv = row.deep_view();
        self.context_items.push(row);
        self.clock = ts;
        proof {
            assert(self.items_v() =~= oldv.push(rowv));
            assert(self.items_v().drop_last() =~= oldv);
            assert(old(self).clock <= self.clock);
            lemma_sessions_wf_carry(*old(self), *self);
            lemma_messages_wf_carry(*old(self), *self);
            lemma_events_wf_carry(*old(self), *self);
            lemma_rules_wf_carry(*old(self), *self);
            assert forall|a: int|
                0 <= a < self.items_v().len() implies spec_has_session(
                self.sessions_v(),
                #[trigger] self.items_v()[a].session_id,
            ) by {
                if a < oldv.len() {
                    assert(spec_has_session(
                        old(self).sessions_v(),
                        old(self).items_v()[a].session_id,
                    ));
                } else {
                    assert(self.items_v()[a].session_id == id@);
                    assert(spec_has_session(old(self).sessions_v(), id@));
                }
            }
            assert forall|a: int|
                0 <= a < self.messages_v().len() implies spec_has_session(
                self.sessions_v(),
                #[trigger] self.messages_v()[a].session_id,
            ) by {
                assert(spec_has_session(
                    old(self).sessions_v(),
                    old(self).messages_v()[a].session_id,
                ));
            }
            assert forall|a: int|
                0 <= a < self.events_v().len() implies spec_has_session(
                self.sessions_v(),
                #[trigger] self.events_v()[a].session_id,
            ) by {
                assert(spec_has_session(
                    old(self).sessions_v(),
                    old(self).events_v()[a].session_id,
                ));
            }
            assert(self.wf());
        }
        Ok(())
    }

    /// The index of the rule with this name, when present.
    fn find_rule(&self, name: &str) -> (r: Option<usize>)
        ensures
            match r {
                Some(i) => i < self.rules_v().len() && self.rules_v()[i as int].name == name@,
                None => !spec_has_rule(self.rules_v(), name@),
            },
    {
        let key: String = name.to_owned();
        let n = self.rules.len();
        let mut i: usize = 0;
        while i < n
            invariant
                n == self.rules@.len(),
                0 <= i <= n,
                key@ == name@,
                forall|j: int| 0 <= j < i ==> self.rules_v()[j].name != name@,
            decreases n - i,
        {
            if self.rules[i].name == key {
                return Some(i);
            }
            i = i + 1;
        }
        None
    }

    /// Creates or replaces the global rule with this name: afterwards
    /// exactly one rule carries the name, and it holds this content.
    pub fn upsert_rule(&mut self, name: &str, content: &str, now: u64)
        requires
            old(self).wf(),
        ensures
            final(self).wf(),
            final(self).rules_v() == spec_upserted(
                old(self).rules_v(),
                name@,
                content@,
                spec_advance(old(self).clock, now),
            ),
            final(self).clock == spec_advance(old(self).clock, now),
            final(self).sessions_v() == old(self).sessions_v(),
            final(self).messages_v() == old(self).messages_v(),
            final(self).events_v() == old(self).events_v(),
            final(self).items_v() == old(self).items_v(),
    {
        let ts = if now > self.clock {
            now
        } else {
            self.clock
        };
        let newrule = Rule { name: name.to_owned(), content: content.to_owned(), updated_at: ts };
        let ghost oldv = self.rules_v();
        let ghost newv = newrule.deep_view();
        match self.find_rule(name) {
            Some(i) => {
                proof {
                    assert(spec_has_rule(oldv, name@)) by {
                        assert(oldv[i as int].name == name@);
                    }
                    assert(spec_rule_index(oldv, name@) == i as int) by {
                        let k = spec_rule_index(oldv, name@);
                        assert(oldv[k].name == name@);
                        if k != i as int {
                            assert(oldv[k].name != oldv[i as int].name);
                        }
                    }
                }
                self.rules[i] = newrule;
                self.clock = ts;
                proof {
                    assert(self.rules_v() =~= oldv.update(i as int, newv));
                    assert forall|a: int, b: int|
                        0 <= a < b < self.rules_v().len() implies self.rules_v()[a].name
                        != self.rules_v()[b].name by {
                        assert(oldv[a].name != oldv[b].name);
                    }
                    lemma_sessions_wf_carry(*old(self), *self);
                    lemma_messages_wf_carry(*old(self), *self);
                    lemma_events_wf_carry(*old(self), *self);
                    lemma_children_wf_carry(*old(self), *self);
                    assert(self.wf());
                }
            }
            None => {
                self.rules.push(newrule);
                self.clock = ts;
                proof {
                    assert(self.rules_v() =~= oldv.push(newv));
                    assert forall|a: int, b: int|
                        0 <= a < b < self.rules_v().len() implies self.rules_v()[a].name
                        != self.rules_v()[b].name by {
                        if b == oldv.len() {
                            assert(oldv[a].name != name@);
                        } else {
                            assert(oldv[a].name != oldv[b].name);
                        }
                    }
                    lemma_sessions_wf_carry(*old(self), *self);
                    lemma_messages_wf_carry(*old(self), *self);
                    lemma_events_wf_carry(*old(self), *self);
                    lemma_children_wf_carry(*old(self), *self);
                    assert(self.wf());
                }
            }
        }
    }

    /// Looks a global rule up by name.
    pub fn get_rule(&self, name: &str) -> (r: Option<(String, String)>)
        requires
            self.wf(),
        ensures
            r is Some <==> spec_has_rule(self.rules_v(), name@),
            r is Some ==> r.unwrap().0@ == name@ && r.unwrap().1@ == self.rules_v()[spec_rule_index(
                self.rules_v(),
                name@,
            )].content,
    {
        match self.find_rule(name) {
            Some(i) => {
                proof {
                    assert(spec_has_rule(self.rules_v(), name@)) by {
                        assert(self.rules_v()[i as int].name == name@);
                    }
                    assert(self.rules_v()[spec_rule_index(self.rules_v(), name@)].name == name@);
                    assert(spec_rule_index(self.rules_v(), name@) == i as int) by {
                        let k = spec_rule_index(self.rules_v(), name@);
                        if k != i as int {
                            assert(self.rules_v()[k].name != self.rules_v()[i as int].name);
                        }
                    }
                }
                Some((dup_string(&self.rules[i].name), dup_string(&self.rules[i].content)))
            }
            None => None,
        }
    }
}

/// The sessions invariant carries over any step that leaves the
/// sessions table alone and only moves the clock forward.
proof fn lemma_sessions_wf_carry(pre: SessionStore, post: SessionStore)
    requires
        pre.sessions_wf(),
        post.sessions_v() == pre.sessions_v(),
        pre.clock <= post.clock,
    ensures
        post.sessions_wf(),
{
    assert forall|i: int|
        0 <= i < post.sessions_v().len() implies #[trigger] post.sessions_v()[i].created_at
        <= post.clock by {
        assert(pre.sessions_v()[i].created_at <= pre.clock);
    }
    assert forall|i: int, j: int|
        0 <= i <= j < post.sessions_v().len() implies post.sessions_v()[i].created_at
        <= post.sessions_v()[j].created_at by {
        assert(pre.sessions_v()[i].created_at <= pre.sessions_v()[j].created_at);
    }
    assert forall|i: int, j: int|
        0 <= i < j < post.sessions_v().len() implies post.sessions_v()[i].id
        != post.sessions_v()[j].id by {
        assert(pre.sessions_v()[i].id != pre.sessions_v()[j].id);
    }
}

/// The messages invariant carries over any step that leaves the
/// messages table alone and only moves the clock forward.
proof fn lemma_messages_wf_carry(pre: SessionStore, post: SessionStore)
    requires
        pre.messages_wf(),
        post.messages_v() == pre.messages_v(),
        pre.clock <= post.clock,
    ensures
        post.messages_wf(),
{
    assert forall|i: int|
        0 <= i < post.messages_v().len() implies #[trigger] post.messages_v()[i].message.created_at
        <= post.clock by {
        assert(pre.messages_v()[i].message.created_at <= pre.clock);
    }
    assert forall|i: int, j: int|
        0 <= i <= j < post.messages_v().len() implies post.messages_v()[i].message.created_at
        <= post.messages_v()[j].message.created_at by {
        assert(pre.messages_v()[i].message.created_at <= pre.messages_v()[j].message.created_at);
    }
}

/// The events invariant carries over any step that leaves the
/// tool-events table alone and only moves the clock forward.
proof fn lemma_events_wf_carry(pre: SessionStore, post: SessionStore)
    requires
        pre.events_wf(),
        post.events_v() == pre.events_v(),
        pre.clock <= post.clock,
    ensures
        post.events_wf(),
{
    assert forall|i: int|
        0 <= i < post.events_v().len() implies #[trigger] post.events_v()[i].event.created_at
        <= post.clock by {
        assert(pre.events_v()[i].event.created_at <= pre.clock);
    }
    assert forall|i: int, j: int|
        0 <= i <= j < post.events_v().len() implies post.events_v()[i].event.created_at
        <= post.events_v()[j].event.created_at by {
        assert(pre.events_v()[i].event.created_at <= pre.events_v()[j].event.created_at);
    }
    assert forall|i: int|
        0 <= i < post.events_v().len() implies spec_event_wf(#[trigger] post.events_v()[i].event) by {
        assert(spec_event_wf(pre.events_v()[i].event));
    }
}

/// The rules invariant carries over any step that leaves the rules
/// table alone.
proof fn lemma_rules_wf_carry(pre: SessionStore, post: SessionStore)
    requires
        pre.rules_wf(),
        post.rules_v() == pre.rules_v(),
    ensures
        post.rules_wf(),
{
    assert forall|i: int, j: int|
        0 <= i < j < post.rules_v().len() implies post.rules_v()[i].name != post.rules_v()[j].name by {
        assert(pre.rules_v()[i].name != pre.rules_v()[j].name);
    }
}

impl Session {
    /// A fresh session shell: a random id, the creation time given,
    /// empty logs, and the settings supplied.
    pub fn new(client_id: Option<String>, settings: SessionSettings, now: u64) -> (r: Session)
        ensures
            r.id@.len() == 36,
            r.client_id == client_id,
            r.created_at == now,
            r.messages@ == Seq::<Message>::empty(),
            r.tool_history@ == Seq::<ToolEvent>::empty(),
            r.settings == settings,
    {
        let r = Session {
            id: uuid_v4(),
            client_id,
            created_at: now,
            messages: Vec::new(),
            tool_history: Vec::new(),
            settings,
        };
        proof {
            assert(r.messages@ =~= Seq::<Message>::empty());
            assert(r.tool_history@ =~= Seq::<ToolEvent>::empty());
        }
        r
    }
}

/// The page a history read returns: the records from the cursor on,
/// at most the clamped limit of them, and the offset to continue from
/// when more remain.
pub open spec fn spec_page<T>(items: Seq<T>, cursor: Option<usize>, limit: Option<usize>) -> (
    Seq<T>,
    Option<usize>,
) {
    let start = spec_page_start(cursor);
    let l = spec_clamped_limit(limit);
    if start >= items.len() {
        (Seq::<T>::empty(), None)
    } else {
        (
            items.subrange(start, spec_page_end(items.len() as int, start, l)),
            if spec_page_end(items.len() as int, start, l) < items.len() {
                Some(spec_page_end(items.len() as int, start, l) as usize)
            } else {
                None
            },
        )
    }
}

impl SessionStore {
    /// Reads one page of a session's history: its messages or its
    /// tool events, from the cursor, at most the limit of them
    /// (absent meaning 50, capped at 200, at least 1).  An unknown
    /// session is reported before an unknown kind.
    pub fn history_page(
        &self,
        id: &str,
        kind: &str,
        cursor: Option<usize>,
        limit: Option<usize>,
    ) -> (r: Result<HistoryPage, ErrorKind>)
        requires
            self.wf(),
        ensures
            r is Ok <==> spec_has_session(self.sessions_v(), id@) && (kind@ == "messages"@ || kind@
                == "tools"@),
            !spec_has_session(self.sessions_v(), id@) ==> r == Result::<
                HistoryPage,
                ErrorKind,
            >::Err(ErrorKind::SessionNotFound),
            spec_has_session(self.sessions_v(), id@) && kind@ == "messages"@ ==> match r {
                Ok(HistoryPage::Messages(page, next)) => {
                    &&& page.deep_view() == spec_page(
                        spec_messages_of(self.messages_v(), id@),
                        cursor,
                        limit,
                    ).0
                    &&& next == spec_page(
                        spec_messages_of(self.messages_v(), id@),
                        cursor,
                        limit,
                    ).1
                },
                _ => false,
            },
            spec_has_session(self.sessions_v(), id@) && kind@ == "tools"@ && kind@ != "messages"@
                ==> match r {
                Ok(HistoryPage::Tools(page, next)) => {
                    &&& page.deep_view() == spec_page(
                        spec_events_of(self.events_v(), id@),
                        cursor,
                        limit,
                    ).0
                    &&& next == spec_page(
                        spec_events_of(self.events_v(), id@),
                        cursor,
                        limit,
                    ).1
                },
                _ => false,
            },
            spec_has_session(self.sessions_v(), id@) && kind@ != "messages"@ && kind@ != "tools"@
                ==> r == Result::<HistoryPage, ErrorKind>::Err(ErrorKind::BadArgs),
    {
        let sess = match self.get_session(id) {
            Some(s) => s,
            None => {
                return Err(ErrorKind::SessionNotFound);
            }
        };
        let l0: usize = match limit {
            Some(v) => v,
            None => 50,
        };
        let l1: usize = if l0 > 200 {
            200
        } else {
            l0
        };
        let l: usize = if l1 < 1 {
            1
        } else {
            l1
        };
        proof {
            assert(l == spec_clamped_limit(limit));
        }
        let k: String = kind.to_owned();
        if k == "messages".to_owned() {
            let ghost msgs = sess.messages.deep_view();
            let (page, next) = paginate(sess.messages, cursor, l);
            proof {
                assert(page.deep_view() =~= spec_page(msgs, cursor, limit).0);
            }
            Ok(HistoryPage::Messages(page, next))
        } else if k == "tools".to_owned() {
            let ghost evs = sess.tool_history.deep_view();
            let (page, next) = paginate(sess.tool_history, cursor, l);
            proof {
                assert(page.deep_view() =~= spec_page(evs, cursor, limit).0);
            }
            Ok(HistoryPage::Tools(page, next))
        } else {
            Err(ErrorKind::BadArgs)
        }
    }
}

/// The rows a session's event filter keeps are original rows, in
/// their original relative order.
proof fn lemma_event_rows_of_props(rows: Seq<ToolEventRowView>, id: Seq<char>)
    requires
        forall|i: int, j: int|
            0 <= i <= j < rows.len() ==> rows[i].event.created_at <= rows[j].event.created_at,
    ensures
        forall|i: int|
            0 <= i < spec_event_rows_of(rows, id).len() ==> rows.contains(
                #[trigger] spec_event_rows_of(rows, id)[i],
            ),
        forall|i: int, j: int|
            0 <= i <= j < spec_event_rows_of(rows, id).len() ==> spec_event_rows_of(
                rows,
                id,
            )[i].event.created_at <= spec_event_rows_of(rows, id)[j].event.created_at,
    decreases rows.len(),
{
    reveal(Seq::filter);
    let kept = spec_event_rows_of(rows, id);
    if rows.len() == 0 {
    } else {
        let init = rows.drop_last();
        lemma_event_rows_of_props(init, id);
        let prev = spec_event_rows_of(init, id);
        assert forall|i: int| 0 <= i < kept.len() implies rows.contains(#[trigger] kept[i]) by {
            if i < prev.len() {
                assert(init.contains(prev[i]));
                let a = choose|a: int| 0 <= a < init.len() && init[a] == prev[i];
                assert(rows[a] == kept[i]);
            } else {
                assert(kept[i] == rows[rows.len() - 1]);
            }
        }
        assert forall|i: int, j: int| 0 <= i <= j < kept.len() implies kept[i].event.created_at
            <= kept[j].event.created_at by {
            if j < prev.len() {
            } else if i < prev.len() {
                assert(kept[j] == rows.last());
                assert(init.contains(prev[i]));
                let a = choose|a: int| 0 <= a < init.len() && init[a] == prev[i];
                assert(rows[a].event.created_at <= rows[rows.len() - 1].event.created_at);
            }
        }
    }
}

/// Append monotonicity: in a well-formed store, the `created_at`
/// sequence of any one session's tool events is non-decreasing.
pub proof fn lemma_session_events_monotone(st: SessionStore, id: Seq<char>)
    requires
        st.wf(),
    ensures
        forall|i: int, j: int|
            0 <= i <= j < spec_events_of(st.events_v(), id).len() ==> spec_events_of(
                st.events_v(),
                id,
            )[i].created_at <= spec_events_of(st.events_v(), id)[j].created_at,
{
    lemma_event_rows_of_props(st.events_v(), id);
    assert forall|i: int, j: int|
        0 <= i <= j < spec_events_of(st.events_v(), id).len() implies spec_events_of(
        st.events_v(),
        id,
    )[i].created_at <= spec_events_of(st.events_v(), id)[j].created_at by {
        assert(spec_event_rows_of(st.events_v(), id)[i].event.created_at <= spec_event_rows_of(
            st.events_v(),
            id,
        )[j].event.created_at);
    }
}

/// After an upsert, exactly one rule carries the name, with the
/// content written; rule names stay pairwise distinct.
pub proof fn lemma_upsert_exactly_one(
    rules: Seq<RuleView>,
    name: Seq<char>,
    content: Seq<char>,
    t: u64,
)
    requires
        forall|i: int, j: int| 0 <= i < j < rules.len() ==> rules[i].name != rules[j].name,
    ensures
        spec_exactly_one_rule(spec_upserted(rules, name, content, t), name, content),
        forall|i: int, j: int|
            0 <= i < j < spec_upserted(rules, name, content, t).len() ==> spec_upserted(
                rules,
                name,
                content,
                t,
            )[i].name != spec_upserted(rules, name, content, t)[j].name,
{
    let out = spec_upserted(rules, name, content, t);
    if spec_has_rule(rules, name) {
        let idx = spec_rule_index(rules, name);
        assert(0 <= idx < rules.len() && rules[idx].name == name);
        assert(out[idx].name == name && out[idx].content == content);
        assert forall|j: int| 0 <= j < out.len() && j != idx implies out[j].name != name by {
            if j < idx {
                assert(rules[j].name != rules[idx].name);
            } else {
                assert(rules[idx].name != rules[j].name);
            }
        }
        assert(spec_exactly_one_rule(out, name, content)) by {
            assert(0 <= idx < out.len() && out[idx].name == name && out[idx].content == content
                && forall|j: int| 0 <= j < out.len() && j != idx ==> out[j].name != name);
        }
        assert forall|i: int, j: int| 0 <= i < j < out.len() implies out[i].name != out[j].name by {
            assert(out[i].name == rules[i].name && out[j].name == rules[j].name);
        }
    } else {
        let idx = rules.len() as int;
        assert(out[idx].name == name && out[idx].content == content);
        assert forall|j: int| 0 <= j < out.len() && j != idx implies out[j].name != name by {
            assert(rules[j].name != name);
        }
        assert(spec_exactly_one_rule(out, name, content)) by {
            assert(0 <= idx < out.len() && out[idx].name == name && out[idx].content == content
                && forall|j: int| 0 <= j < out.len() && j != idx ==> out[j].name != name);
        }
        assert forall|i: int, j: int| 0 <= i < j < out.len() implies out[i].name != out[j].name by {
            if j == idx {
                assert(rules[i].name != name);
            } else {
                assert(rules[i].name != rules[j].name);
            }
        }
    }
}

/// Upsert idempotence: writing the same rule twice leaves exactly one
/// rule with that name, holding that content.
pub proof fn lemma_upsert_idempotent(
    rules: Seq<RuleView>,
    name: Seq<char>,
    content: Seq<char>,
    t1: u64,
    t2: u64,
)
    requires
        forall|i: int, j: int| 0 <= i < j < rules.len() ==> rules[i].name != rules[j].name,
    ensures
        spec_exactly_one_rule(
            spec_upserted(spec_upserted(rules, name, content, t1), name, content, t2),
            name,
            content,
        ),
{
    lemma_upsert_exactly_one(rules, name, content, t1);
    lemma_upsert_exactly_one(spec_upserted(rules, name, content, t1), name, content, t2);
}

/// Whether reloaded tables satisfy the store's invariant as data:
/// session ids unique, sessions/messages/events sorted by their
/// stamps, tool events well-formed, rule names unique, and every log
/// row referencing an existing session.
pub open spec fn spec_tables_consistent(
    sessions: Seq<SessionRowView>,
    messages: Seq<MessageRowView>,
    events: Seq<ToolEventRowView>,
    items: Seq<ContextItemRowView>,
    rules: Seq<RuleView>,
) -> bool {
    &&& forall|a: int, b: int| 0 <= a < b < sessions.len() ==> sessions[a].id != sessions[b].id
    &&& forall|a: int, b: int|
        0 <= a <= b < sessions.len() ==> sessions[a].created_at <= sessions[b].created_at
    &&& forall|a: int, b: int|
        0 <= a <= b < messages.len() ==> messages[a].message.created_at
            <= messages[b].message.created_at
    &&& forall|a: int, b: int|
        0 <= a <= b < events.len() ==> events[a].event.created_at <= events[b].event.created_at
    &&& forall|i: int| 0 <= i < events.len() ==> spec_event_wf(#[trigger] events[i].event)
    &&& forall|a: int, b: int| 0 <= a < b < rules.len() ==> rules[a].name != rules[b].name
    &&& forall|i: int|
        0 <= i < messages.len() ==> spec_has_session(
            sessions,
            #[trigger] messages[i].session_id,
        )
    &&& forall|i: int|
        0 <= i < events.len() ==> spec_has_session(sessions, #[trigger] events[i].session_id)
    &&& forall|i: int|
        0 <= i < items.len() ==> spec_has_session(sessions, #[trigger] items[i].session_id)
}

/// Whether some row of a loose sessions table carries this id.
fn rows_have_session(sessions: &Vec<SessionRow>, id: &String) -> (r: bool)
    ensures
        r == spec_has_session(sessions.deep_view(), id@),
{
    let n = sessions.len();
    let mut i: usize = 0;
    while i < n
        invariant
            n == sessions@.len(),
            0 <= i <= n,
            forall|j: int| 0 <= j < i ==> sessions.deep_view()[j].id != id@,
        decreases n - i,
    {
        if sessions[i].id == *id {
            proof {
                assert(spec_has_session(sessions.deep_view(), id@)) by {
                    assert(sessions.deep_view()[i as int].id == id@);
                }
            }
            return true;
        }
        i = i + 1;
    }
    false
}

fn sessions_ids_unique(sessions: &Vec<SessionRow>) -> (r: bool)
    ensures
        r == (forall|a: int, b: int|
            0 <= a < b < sessions.deep_view().len() ==> sessions.deep_view()[a].id
                != sessions.deep_view()[b].id),
{
    let n = sessions.len();
    let mut i: usize = 0;
    while i < n
        invariant
            n == sessions@.len(),
            0 <= i <= n,
            forall|a: int, b: int|
                0 <= a < b < n && a < i ==> sessions.deep_view()[a].id
                    != sessions.deep_view()[b].id,
        decreases n - i,
    {
        let mut j: usize = i + 1;
        while j < n
            invariant
                n == sessions@.len(),
                0 <= i < n,
                i < j <= n,
                forall|a: int, b: int|
                    0 <= a < b < n && a < i ==> sessions.deep_view()[a].id
                        != sessions.deep_view()[b].id,
                forall|b: int|
                    i < b < j ==> sessions.deep_view()[i as int].id != sessions.deep_view()[b].id,
            decreases n - j,
        {
            if sessions[i].id == sessions[j].id {
                proof {
                    assert(sessions.deep_view()[i as int].id == sessions.deep_view()[j as int].id);
                }
                return false;
            }
            j = j + 1;
        }
        i = i + 1;
    }
    true
}

fn rules_names_unique(rules: &Vec<Rule>) -> (r: bool)
    ensures
        r == (forall|a: int, b: int|
            0 <= a < b < rules.deep_view().len() ==> rules.deep_view()[a].name
                != rules.deep_view()[b].name),
{
    let n = rules.len();
    let mut i: usize = 0;
    while i < n
        invariant
            n == rules@.len(),
            0 <= i <= n,
            forall|a: int, b: int|
                0 <= a < b < n && a < i ==> rules.deep_view()[a].name != rules.deep_view()[b].name,
        decreases n - i,
    {
        let mut j: usize = i + 1;
        while j < n
            invariant
                n == rules@.len(),
                0 <= i < n,
                i < j <= n,
                forall|a: int, b: int|
                    0 <= a < b < n && a < i ==> rules.deep_view()[a].name
                        != rules.deep_view()[b].name,
                forall|b: int|
                    i < b < j ==> rules.deep_view()[i as int].name != rules.deep_view()[b].name,
            decreases n - j,
        {
            if rules[i].name == rules[j].name {
                proof {
                    assert(rules.deep_view()[i as int].name == rules.deep_view()[j as int].name);
                }
                return false;
            }
            j = j + 1;
        }
        i = i + 1;
    }
    true
}

fn sessions_sorted(sessions: &Vec<SessionRow>) -> (r: bool)
    ensures
        r == (forall|a: int, b: int|
            0 <= a <= b < sessions.deep_view().len() ==> sessions.deep_view()[a].created_at
                <= sessions.deep_view()[b].created_at),
{
    let n = sessions.len();
    if n == 0 {
        return true;
    }
    let mut i: usize = 1;
    while i < n
        invariant
            n == sessions@.len(),
            1 <= i <= n,
            forall|a: int, b: int|
                0 <= a <= b < i ==> sessions.deep_view()[a].created_at
                    <= sessions.deep_view()[b].created_at,
        decreases n - i,
    {
        if sessions[i - 1].created_at > sessions[i].created_at {
            proof {
                assert(sessions.deep_view()[i as int - 1].created_at
                    > sessions.deep_view()[i as int].created_at);
            }
            return false;
        }
        proof {
            assert forall|a: int, b: int|
                0 <= a <= b <= i implies sessions.deep_view()[a].created_at
                <= sessions.deep_view()[b].created_at by {
                if b == i as int && a < b {
                    assert(sessions.deep_view()[a].created_at
                        <= sessions.deep_view()[i as int - 1].created_at);
                }
            }
        }
        i = i + 1;
    }
    true
}

fn messages_sorted(messages: &Vec<MessageRow>) -> (r: bool)
    ensures
        r == (forall|a: int, b: int|
            0 <= a <= b < messages.deep_view().len() ==> messages.deep_view()[a].message.created_at
                <= messages.deep_view()[b].message.created_at),
{
    let n = messages.len();
    if n == 0 {
        return true;
    }
    let mut i: usize = 1;
    while i < n
        invariant
            n == messages@.len(),
            1 <= i <= n,
            forall|a: int, b: int|
                0 <= a <= b < i ==> messages.deep_view()[a].message.created_at
                    <= messages.deep_view()[b].message.created_at,
        decreases n - i,
    {
        if messages[i - 1].message.created_at > messages[i].message.created_at {
            proof {
                assert(messages.deep_view()[i as int - 1].message.created_at
                    > messages.deep_view()[i as int].message.created_at);
            }
            return false;
        }
        proof {
            assert forall|a: int, b: int|
                0 <= a <= b <= i implies messages.deep_view()[a].message.created_at
                <= messages.deep_view()[b].message.created_at by {
                if b == i as int && a < b {
                    assert(messages.deep_view()[a].message.created_at
                        <= messages.deep_view()[i as int - 1].message.created_at);
                }
            }
        }
        i = i + 1;
    }
    true
}

fn events_sorted(events: &Vec<ToolEventRow>) -> (r: bool)
    ensures
        r == (forall|a: int, b: int|
            0 <= a <= b < events.deep_view().len() ==> events.deep_view()[a].event.created_at
                <= events.deep_view()[b].event.created_at),
{
    let n = events.len();
    if n == 0 {
        return true;
    }
    let mut i: usize = 1;
    while i < n
        invariant
            n == events@.len(),
            1 <= i <= n,
            forall|a: int, b: int|
                0 <= a <= b < i ==> events.deep_view()[a].event.created_at
                    <= events.deep_view()[b].event.created_at,
        decreases n - i,
    {
        if events[i - 1].event.created_at > events[i].event.created_at {
            proof {
                assert(events.deep_view()[i as int - 1].event.created_at
                    > events.deep_view()[i as int].event.created_at);
            }
            return false;
        }
        proof {
            assert forall|a: int, b: int|
                0 <= a <= b <= i implies events.deep_view()[a].event.created_at
                <= events.deep_view()[b].event.created_at by {
                if b == i as int && a < b {
                    assert(events.deep_view()[a].event.created_at
                        <= events.deep_view()[i as int - 1].event.created_at);
                }
            }
        }
        i = i + 1;
    }
    true
}

fn events_well_formed(events: &Vec<ToolEventRow>) -> (r: bool)
    ensures
        r == (forall|i: int|
            0 <= i < events.deep_view().len() ==> spec_event_wf(
                #[trigger] events.deep_view()[i].event,
            )),
{
    let ok_word: String = "ok".to_owned();
    let error_word: String = "error".to_owned();
    let n = events.len();
    let mut i: usize = 0;
    while i < n
        invariant
            n == events@.len(),
            0 <= i <= n,
            ok_word@ == "ok"@,
            error_word@ == "error"@,
            forall|j: int| 0 <= j < i ==> spec_event_wf(#[trigger] events.deep_view()[j].event),
        decreases n - i,
    {
        let is_ok = events[i].event.status == ok_word;
        let is_error = events[i].event.status == error_word;
        let has_error = events[i].event.error.is_some();
        if !((is_ok || is_error) && (is_error == has_error)) {
            proof {
                assert(!spec_event_wf(events.deep_view()[i as int].event));
            }
            return false;
        }
        i = i + 1;
    }
    true
}

fn messages_reference_sessions(sessions: &Vec<SessionRow>, messages: &Vec<MessageRow>) -> (r:
    bool)
    ensures
        r == (forall|i: int|
            0 <= i < messages.deep_view().len() ==> spec_has_session(
                sessions.deep_view(),
                #[trigger] messages.deep_view()[i].session_id,
            )),
{
    let n = messages.len();
    let mut i: usize = 0;
    while i < n
        invariant
            n == messages@.len(),
            0 <= i <= n,
            forall|j: int|
                0 <= j < i ==> spec_has_session(
                    sessions.deep_view(),
                    #[trigger] messages.deep_view()[j].session_id,
                ),
        decreases n - i,
    {
        if !rows_have_session(sessions, &messages[i].session_id) {
            proof {
                assert(!spec_has_session(
                    sessions.deep_view(),
                    messages.deep_view()[i as int].session_id,
                ));
            }
            return false;
        }
        i = i + 1;
    }
    true
}

fn events_reference_sessions(sessions: &Vec<SessionRow>, events: &Vec<ToolEventRow>) -> (r: bool)
    ensures
        r == (forall|i: int|
            0 <= i < events.deep_view().len() ==> spec_has_session(
                sessions.deep_view(),
                #[trigger] events.deep_view()[i].session_id,
            )),
{
    let n = events.len();
    let mut i: usize = 0;
    while i < n
        invariant
            n == events@.len(),
            0 <= i <= n,
            forall|j: int|
                0 <= j < i ==> spec_has_session(
                    sessions.deep_view(),
                    #[trigger] events.deep_view()[j].session_id,
                ),
        decreases n - i,
    {
        if !rows_have_session(sessions, &events[i].session_id) {
            proof {
                assert(!spec_has_session(
                    sessions.deep_view(),
                    events.deep_view()[i as int].session_id,
                ));
            }
            return false;
        }
        i = i + 1;
    }
    true
}

fn items_reference_sessions(sessions: &Vec<SessionRow>, items: &Vec<ContextItemRow>) -> (r: bool)
    ensures
        r == (forall|i: int|
            0 <= i < items.deep_view().len() ==> spec_has_session(
                sessions.deep_view(),
                #[trigger] items.deep_view()[i].session_id,
            )),
{
    let n = items.len();
    let mut i: usize = 0;
    while i < n
        invariant
            n == items@.len(),
            0 <= i <= n,
            forall|j: int|
                0 <= j < i ==> spec_has_session(
                    sessions.deep_view(),
                    #[trigger] items.deep_view()[j].session_id,
                ),
        decreases n - i,
    {
        if !rows_have_session(sessions, &items[i].session_id) {
            proof {
                assert(!spec_has_session(
                    sessions.deep_view(),
                    items.deep_view()[i as int].session_id,
                ));
            }
            return false;
        }
        i = i + 1;
    }
    true
}

impl SessionStore {
    /// Rebuilds a store from reloaded tables, validating the whole
    /// invariant before accepting them: inconsistent data — duplicate
    /// session ids or rule names, out-of-order stamps, a malformed
    /// event, or a log row without its session — is refused as a
    /// storage fault.  The clock resumes at the latest stamp seen, so
    /// later appends stay monotone.
    pub fn from_tables(
        sessions: Vec<SessionRow>,
        messages: Vec<MessageRow>,
        tool_events: Vec<ToolEventRow>,
        context_items: Vec<ContextItemRow>,
        rules: Vec<Rule>,
    ) -> (r: Result<SessionStore, ErrorKind>)
        ensures
            r is Ok <==> spec_tables_consistent(
                sessions.deep_view(),
                messages.deep_view(),
                tool_events.deep_view(),
                context_items.deep_view(),
                rules.deep_view(),
            ),
            r is Err ==> r == Result::<SessionStore, ErrorKind>::Err(ErrorKind::StorageFailure),
            r matches Ok(st) ==> {
                &&& st.wf()
                &&& st.sessions_v() == sessions.deep_view()
                &&& st.messages_v() == messages.deep_view()
                &&& st.events_v() == tool_events.deep_view()
                &&& st.items_v() == context_items.deep_view()
                &&& st.rules_v() == rules.deep_view()
            },
    {
        if !(sessions_ids_unique(&sessions) && sessions_sorted(&sessions)) {
            return Err(ErrorKind::StorageFailure);
        }
        if !(messages_sorted(&messages) && events_sorted(&tool_events)) {
            return Err(ErrorKind::StorageFailure);
        }
        if !events_well_formed(&tool_events) {
            return Err(ErrorKind::StorageFailure);
        }
        if !rules_names_unique(&rules) {
            return Err(ErrorKind::StorageFailure);
        }
        if !(messages_reference_sessions(&sessions, &messages) && events_reference_sessions(
            &sessions,
            &tool_events,
        ) && items_reference_sessions(&sessions, &context_items)) {
            return Err(ErrorKind::StorageFailure);
        }

        let mut clock: u64 = 0;
        let sn = sessions.len();
        let mut i: usize = 0;
        while i < sn
            invariant
                sn == sessions@.len(),
                0 <= i <= sn,
                forall|k: int| 0 <= k < i ==> sessions.deep_view()[k].created_at <= clock,
            decreases sn - i,
        {
            if sessions[i].created_at > clock {
                clock = sessions[i].created_at;
            }
            i = i + 1;
        }
        let mn = messages.len();
        let mut m: usize = 0;
        while m < mn
            invariant
                sn == sessions@.len(),
                mn == messages@.len(),
                0 <= m <= mn,
                forall|k: int| 0 <= k < sn ==> sessions.deep_view()[k].created_at <= clock,
                forall|k: int| 0 <= k < m ==> messages.deep_view()[k].message.created_at <= clock,
            decreases mn - m,
        {
            if messages[m].message.created_at > clock {
                clock = messages[m].message.created_at;
            }
            m = m + 1;
        }
        let en = tool_events.len();
        let mut e: usize = 0;
        while e < en
            invariant
                sn == sessions@.len(),
                mn == messages@.len(),
                en == tool_events@.len(),
                0 <= e <= en,
                forall|k: int| 0 <= k < sn ==> sessions.deep_view()[k].created_at <= clock,
                forall|k: int| 0 <= k < mn ==> messages.deep_view()[k].message.created_at <= clock,
                forall|k: int| 0 <= k < e ==> tool_events.deep_view()[k].event.created_at <= clock,
            decreases en - e,
        {
            if tool_events[e].event.created_at > clock {
                clock = tool_events[e].event.created_at;
            }
            e = e + 1;
        }

        let st = SessionStore { sessions, messages, tool_events, context_items, rules, clock };
        proof {
            assert(st.wf());
        }
        Ok(st)
    }
}

/// A session witness survives extending the table at the end.
proof fn lemma_has_session_extended(
    pre: Seq<SessionRowView>,
    post: Seq<SessionRowView>,
    sid: Seq<char>,
)
    requires
        spec_has_session(pre, sid),
        post.len() >= pre.len(),
        forall|i: int| 0 <= i < pre.len() ==> post[i] == pre[i],
    ensures
        spec_has_session(post, sid),
{
    let k = choose|k: int| 0 <= k < pre.len() && #[trigger] pre[k].id == sid;
    assert(post[k].id == sid);
}

/// A session witness survives replacing one row by another that
/// carries the same id.
proof fn lemma_has_session_update_same(
    pre: Seq<SessionRowView>,
    idx: int,
    row: SessionRowView,
    sid: Seq<char>,
)
    requires
        0 <= idx < pre.len(),
        row.id == pre[idx].id,
        spec_has_session(pre, sid),
    ensures
        spec_has_session(pre.update(idx, row), sid),
{
    let k = choose|k: int| 0 <= k < pre.len() && #[trigger] pre[k].id == sid;
    if k == idx {
        assert(pre.update(idx, row)[k].id == sid);
    } else {
        assert(pre.update(idx, row)[k].id == sid);
    }
}

/// Deleting one session keeps every other session reachable.
proof fn lemma_sessions_without_keeps(
    rows: Seq<SessionRowView>,
    deleted: Seq<char>,
    sid: Seq<char>,
)
    requires
        sid != deleted,
        spec_has_session(rows, sid),
    ensures
        spec_has_session(spec_sessions_without(rows, deleted), sid),
    decreases rows.len(),
{
    reveal(Seq::filter);
    let kept = spec_sessions_without(rows, deleted);
    if rows.len() == 0 {
    } else {
        let init = rows.drop_last();
        let prev = spec_sessions_without(init, deleted);
        if rows.last().id == sid {
            assert(kept.last() == rows.last());
            assert(spec_has_session(kept, sid)) by {
                assert(kept[kept.len() - 1].id == sid);
            }
        } else {
            let k = choose|k: int| 0 <= k < rows.len() && #[trigger] rows[k].id == sid;
            assert(k < init.len());
            assert(spec_has_session(init, sid)) by {
                assert(init[k].id == sid);
            }
            lemma_sessions_without_keeps(init, deleted, sid);
            let j = choose|j: int| 0 <= j < prev.len() && #[trigger] prev[j].id == sid;
            assert(kept[j].id == sid);
        }
    }
}

/// The context-item rows kept by a delete: originals only, the
/// deleted session gone.
proof fn lemma_items_without_props(rows: Seq<ContextItemRowView>, id: Seq<char>)
    ensures
        forall|i: int|
            0 <= i < spec_items_without(rows, id).len() ==> rows.contains(
                #[trigger] spec_items_without(rows, id)[i],
            ),
        forall|i: int|
            0 <= i < spec_items_without(rows, id).len()
                ==> #[trigger] spec_items_without(rows, id)[i].session_id != id,
    decreases rows.len(),
{
    reveal(Seq::filter);
    let kept = spec_items_without(rows, id);
    if rows.len() == 0 {
    } else {
        let init = rows.drop_last();
        lemma_items_without_props(init, id);
        let prev = spec_items_without(init, id);
        assert forall|i: int| 0 <= i < kept.len() implies rows.contains(#[trigger] kept[i]) by {
            if i < prev.len() {
                assert(init.contains(prev[i]));
                let a = choose|a: int| 0 <= a < init.len() && init[a] == prev[i];
                assert(rows[a] == kept[i]);
            } else {
                assert(kept[i] == rows[rows.len() - 1]);
            }
        }
    }
}

/// The referential-integrity invariant carries over any step that
/// leaves the sessions table and all three logs alone.
proof fn lemma_children_wf_carry(pre: SessionStore, post: SessionStore)
    requires
        pre.children_wf(),
        post.sessions_v() == pre.sessions_v(),
        post.messages_v() == pre.messages_v(),
        post.events_v() == pre.events_v(),
        post.items_v() == pre.items_v(),
    ensures
        post.children_wf(),
{
    assert forall|i: int|
        0 <= i < post.messages_v().len() implies spec_has_session(
        post.sessions_v(),
        #[trigger] post.messages_v()[i].session_id,
    ) by {
        assert(spec_has_session(pre.sessions_v(), pre.messages_v()[i].session_id));
    }
    assert forall|i: int|
        0 <= i < post.events_v().len() implies spec_has_session(
        post.sessions_v(),
        #[trigger] post.events_v()[i].session_id,
    ) by {
        assert(spec_has_session(pre.sessions_v(), pre.events_v()[i].session_id));
    }
    assert forall|i: int|
        0 <= i < post.items_v().len() implies spec_has_session(
        post.sessions_v(),
        #[trigger] post.items_v()[i].session_id,
    ) by {
        assert(spec_has_session(pre.sessions_v(), pre.items_v()[i].session_id));
    }
}

} // verus!
