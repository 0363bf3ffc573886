//! The built-in tools' decision logic.
//!
//! Each tool validates its arguments, applies its defaults and the
//! session's policies, and produces a *plan*: the exact, checked
//! request that an adapter then carries out against the filesystem,
//! the network or the version-control library.  Everything that can
//! be decided from plain values is decided — and verified — here;
//! the adapter only performs the effects the plan calls for.

use vstd::prelude::*;

use crate::errors::ErrorKind;
use crate::hosts::is_allowed_host;
use crate::hosts::spec_allowed_host;
use crate::hosts::spec_allowlist;
use crate::settings::SessionSettings;
use crate::settings::ToolPolicies;
use crate::settings::opt_dry_run;
use crate::store::dup_string;
use crate::text::slugify;
use crate::text::spec_slug;
use crate::text::lower_of;
use vstd::string::StringSliceAdditionalSpecFns;
use crate::text::cap_utf8;
use crate::text::spec_capped;
use crate::text::utf8_lossy_of;
use crate::registry::ListTool;
use crate::registry::SearchTool;
use crate::registry::ReadTool;
use crate::registry::WriteTool;
use crate::registry::MoveTool;
use crate::registry::DeleteTool;
use crate::registry::StatusTool;
use crate::registry::DiffTool;
use crate::registry::AddAllTool;
use crate::registry::CommitTool;
use crate::registry::IncludeFileTool;
use crate::registry::IncludeUrlTool;
use crate::registry::AddRuleTool;

verus! {

/// One entry a directory walk reports.
#[derive(Clone, Debug, PartialEq)]
pub struct FileEntry {
    pub path: String,
    pub is_dir: bool,
}

pub struct FileEntryView {
    pub path: Seq<char>,
    pub is_dir: bool,
}

impl DeepView for FileEntry {
    type V = FileEntryView;

    open spec fn deep_view(&self) -> FileEntryView {
        FileEntryView { path: self.path@, is_dir: self.is_dir }
    }
}

/// Whether `regex::Regex::new` accepts a pattern.
pub uninterp spec fn regex_valid(pattern: Seq<char>) -> bool;

/// Whether `regex::Regex::is_match` finds a match of a (valid)
/// pattern anywhere in a text.
pub uninterp spec fn regex_matches(pattern: Seq<char>, text: Seq<char>) -> bool;

/// Relies on `regex::Regex::new` and `Regex::is_match`: whether a
/// pattern compiles depends on the pattern alone, and whether it
/// matches a path depends on the pattern and the path alone.  An
/// entry under an invalid pattern matches nothing.
#[verifier::external_body]
fn regex_match_paths(pattern: &str, entries: &Vec<FileEntry>) -> (r: Vec<bool>)
    ensures
        r@.len() == entries@.len(),
        forall|i: int|
            0 <= i < entries@.len() ==> r@[i] == (regex_valid(pattern@) && regex_matches(
                pattern@,
                entries.deep_view()[i].path,
            )),
{
    let re = regex::Regex::new(pattern).ok();
    entries.iter().map(
        |e: &FileEntry| match &re {
            Some(re) => re.is_match(&e.path),
            None => false,
        },
    ).collect()
}

/// The first `max` entries, in order.
pub open spec fn spec_limited(entries: Seq<FileEntryView>, max: int) -> Seq<FileEntryView> {
    if entries.len() <= max {
        entries
    } else {
        entries.take(max)
    }
}

/// Truncates a walk listing to at most `max` entries.
pub fn limit_entries(entries: Vec<FileEntry>, max: usize) -> (r: Vec<FileEntry>)
    ensures
        r.deep_view() == spec_limited(entries.deep_view(), max as int),
{
    let mut entries = entries;
    let ghost oldv = entries.deep_view();
    if entries.len() > max {
        entries.truncate(max);
        proof {
            assert(entries.deep_view() =~= oldv.take(max as int));
        }
    }
    entries
}

/// One step of collecting up to `max` entries whose path the pattern
/// matches.
pub open spec fn search_scan(
    entries: Seq<FileEntryView>,
    pattern: Seq<char>,
    max: int,
    i: int,
    acc: Seq<FileEntryView>,
) -> Seq<FileEntryView>
    decreases entries.len() - i,
{
    if i < 0 || i >= entries.len() || acc.len() >= max {
        acc
    } else if regex_matches(pattern, entries[i].path) {
        search_scan(entries, pattern, max, i + 1, acc.push(entries[i]))
    } else {
        search_scan(entries, pattern, max, i + 1, acc)
    }
}

/// The entries a search reports: the first `max` whose path matches
/// the pattern, in walk order; an invalid pattern matches nothing.
pub open spec fn spec_search_filtered(
    entries: Seq<FileEntryView>,
    pattern: Seq<char>,
    max: int,
) -> Seq<FileEntryView> {
    if regex_valid(pattern) {
        search_scan(entries, pattern, max, 0, Seq::empty())
    } else {
        Seq::empty()
    }
}

/// Keeps the first `max` entries whose absolute path matches the
/// regular expression; an invalid pattern yields no matches.
pub fn search_filter(entries: Vec<FileEntry>, pattern: &str, max: usize) -> (r: Vec<FileEntry>)
    ensures
        r.deep_view() == spec_search_filtered(entries.deep_view(), pattern@, max as int),
{
    let flags = regex_match_paths(pattern, &entries);
    let n = entries.len();
    let mut out: Vec<FileEntry> = Vec::new();
    let mut i: usize = 0;
    proof {
        assert(out.deep_view() =~= Seq::<FileEntryView>::empty());
    }
    while i < n
        invariant
            n == entries@.len(),
            flags@.len() == n,
            0 <= i <= n,
            out@.len() <= i,
            forall|j: int|
                0 <= j < n ==> flags@[j] == (regex_valid(pattern@) && regex_matches(
                    pattern@,
                    entries.deep_view()[j].path,
                )),
            regex_valid(pattern@) ==> search_scan(
                entries.deep_view(),
                pattern@,
                max as int,
                i as int,
                out.deep_view(),
            ) == spec_search_filtered(entries.deep_view(), pattern@, max as int),
            !regex_valid(pattern@) ==> out.deep_view() == Seq::<FileEntryView>::empty(),
            out@.len() <= max,
        decreases n - i,
    {
        if out.len() >= max {
            proof {
                if regex_valid(pattern@) {
                    assert(search_scan(
                        entries.deep_view(),
                        pattern@,
                        max as int,
                        i as int,
                        out.deep_view(),
                    ) == out.deep_view());
                }
            }
            return out;
        }
        if flags[i] {
            let ghost oldv = out.deep_view();
            out.push(dup_entry(&entries[i]));
            proof {
                assert(out.deep_view() =~= oldv.push(entries.deep_view()[i as int]));
            }
        }
        i = i + 1;
    }
    out
}

fn dup_entry(e: &FileEntry) -> (r: FileEntry)
    ensures
        r.deep_view() == e.deep_view(),
{
    FileEntry { path: e.path.clone(), is_dir: e.is_dir }
}

/// The host component `url::Url` parses out of a URL string, when the
/// string is a valid URL with a host.
pub uninterp spec fn host_of(url: Seq<char>) -> Option<Seq<char>>;

/// Relies on `url::Url::parse` and `Url::host_str`: the host component
/// of a URL depends on the URL string alone.
#[verifier::external_body]
fn url_host(url: &str) -> (r: Option<String>)
    ensures
        r.deep_view() == host_of(url@),
{
    url::Url::parse(url).ok().and_then(|u| u.host_str().map(|h| h.to_string()))
}

/// The visible text scraper extracts from the `<body>` of a document.
pub uninterp spec fn body_text_of(html: Seq<char>) -> Seq<char>;

/// Relies on `scraper::Html::parse_document`, `Selector::parse` and
/// the element text iterator: the text extracted from a document
/// depends on the document alone.
#[verifier::external_body]
fn html_body_text(html: &str) -> (r: String)
    ensures
        r@ == body_text_of(html@),
{
    let doc = scraper::Html::parse_document(html);
    let selector = scraper::Selector::parse("body").unwrap();
    let mut text = String::new();
    for el in doc.select(&selector) {
        text.push_str(&el.text().collect::<Vec<_>>().join(" "));
        text.push('\n');
    }
    text
}

/// What a fetched document is reduced to: the visible text of its
/// body, or the document itself when no such text was found.
pub open spec fn spec_extracted(html: Seq<char>) -> Seq<char> {
    if body_text_of(html).len() == 0 {
        html
    } else {
        body_text_of(html)
    }
}

/// Reduces a fetched document to its visible body text, falling back
/// to the raw document when nothing was extracted.
pub fn extract_content(html: &String) -> (r: String)
    ensures
        r@ == spec_extracted(html@),
{
    let text = html_body_text(html.as_str());
    if text.as_str().unicode_len() == 0 {
        dup_string(html)
    } else {
        text
    }
}

/// Caps fetched bytes at `max_bytes`, decodes them lossily, and
/// extracts the visible body text.
pub fn ingest_content(bytes: Vec<u8>, max_bytes: usize) -> (r: String)
    ensures
        r@ == spec_extracted(utf8_lossy_of(spec_capped(bytes@, max_bytes as int))),
{
    let html = cap_utf8(bytes, max_bytes);
    extract_content(&html)
}

/// The dry-run flag a mutating tool runs under: the explicit argument
/// first, then the session policy, and `true` when neither speaks.
pub open spec fn spec_default_dry_run(arg: Option<bool>, policies: Option<ToolPolicies>) -> bool {
    match arg {
        Some(b) => b,
        None => match opt_dry_run(policies) {
            Some(b) => b,
            None => true,
        },
    }
}

/// Resolves the dry-run flag for one invocation.
pub fn effective_dry_run(arg: Option<bool>, policies: Option<ToolPolicies>) -> (r: bool)
    ensures
        r == spec_default_dry_run(arg, policies),
{
    match arg {
        Some(b) => b,
        None => match policies {
            Some(p) => match p.dry_run {
                Some(b) => b,
                None => true,
            },
            None => true,
        },
    }
}

/// The project root a tool works under; absent means the session is
/// not configured for filesystem work.
fn root_of(settings: &SessionSettings) -> (r: Result<String, ErrorKind>)
    ensures
        settings.project_root is None ==> r == Result::<String, ErrorKind>::Err(
            ErrorKind::ConfigMissing,
        ),
        settings.project_root is Some ==> r is Ok && r.unwrap()@
            == settings.project_root.unwrap()@,
{
    match &settings.project_root {
        Some(root) => Ok(root.clone()),
        None => Err(ErrorKind::ConfigMissing),
    }
}

/// Before/after previews of an edit, capped and UTF-8-lossy.
#[derive(Clone, Debug, PartialEq)]
pub struct EditPreview {
    pub before_preview: String,
    pub after_preview: String,
}

/// The result of a mutating operation: whether it was applied (never
/// under dry-run) and what it produced.
#[derive(Clone, Debug, PartialEq)]
pub struct OperationResult<T> {
    pub applied: bool,
    pub output: T,
}

/// Decides a file write: refuses a missing target unless creation is
/// allowed, reports whether the write is applied (exactly when not a
/// dry run), and previews both states.  The adapter writes `content`
/// only when `applied` is set.
pub fn write_file_plan(
    existed: bool,
    before: Vec<u8>,
    content: &str,
    create: bool,
    dry_run: bool,
    preview_bytes: usize,
) -> (r: Result<OperationResult<EditPreview>, ErrorKind>)
    ensures
        !existed && !create ==> r == Result::<OperationResult<EditPreview>, ErrorKind>::Err(
            ErrorKind::NotFound,
        ),
        existed || create ==> (r matches Ok(p) && p.applied == !dry_run
            && p.output.before_preview@ == utf8_lossy_of(spec_capped(before@, preview_bytes as int))
            && p.output.after_preview@ == utf8_lossy_of(
            spec_capped(content.spec_bytes(), preview_bytes as int),
        )),
{
    if !existed && !create {
        return Err(ErrorKind::NotFound);
    }
    let after_bytes = content.as_bytes_vec();
    Ok(
        OperationResult {
            applied: !dry_run,
            output: EditPreview {
                before_preview: cap_utf8(before, preview_bytes),
                after_preview: cap_utf8(after_bytes, preview_bytes),
            },
        },
    )
}

/// Decides a file move: the source must exist; the move is applied
/// exactly when not a dry run.  The adapter renames only when
/// `applied` is set.
pub fn move_file_plan(from_exists: bool, from: &str, to: &str, dry_run: bool) -> (r: Result<
    OperationResult<String>,
    ErrorKind,
>)
    ensures
        !from_exists ==> r == Result::<OperationResult<String>, ErrorKind>::Err(
            ErrorKind::NotFound,
        ),
        from_exists ==> (r matches Ok(p) && p.applied == !dry_run && p.output@ == from@ + " -> "@
            + to@),
{
    if !from_exists {
        return Err(ErrorKind::NotFound);
    }
    let mut out: String = from.to_owned();
    out.append(" -> ");
    out.append(to);
    Ok(OperationResult { applied: !dry_run, output: out })
}

/// Decides a file delete: the target must exist; the delete is
/// applied exactly when not a dry run.  The adapter removes the
/// target only when `applied` is set.
pub fn delete_file_plan(exists: bool, path: &str, dry_run: bool) -> (r: Result<
    OperationResult<String>,
    ErrorKind,
>)
    ensures
        !exists ==> r == Result::<OperationResult<String>, ErrorKind>::Err(ErrorKind::NotFound),
        exists ==> (r matches Ok(p) && p.applied == !dry_run && p.output@ == path@),
{
    if !exists {
        return Err(ErrorKind::NotFound);
    }
    Ok(OperationResult { applied: !dry_run, output: path.to_owned() })
}

/// Arguments of `discovery.list`.
#[derive(Clone, Debug, PartialEq)]
pub struct ListArgs {
    pub max: Option<usize>,
}

/// The checked request of `discovery.list`.
#[derive(Clone, Debug, PartialEq)]
pub struct ListPlan {
    pub root: String,
    pub max: usize,
}

impl ListTool {
    /// Validates a listing request: the walk root comes from the
    /// session, and at most `max` entries (default 500) are returned.
    pub fn plan(&self, settings: &SessionSettings, args: ListArgs) -> (r: Result<
        ListPlan,
        ErrorKind,
    >)
        ensures
            settings.project_root is None ==> r == Result::<ListPlan, ErrorKind>::Err(
                ErrorKind::ConfigMissing,
            ),
            settings.project_root is Some ==> (r matches Ok(p) && p.root@
                == settings.project_root.unwrap()@ && p.max == (match args.max {
                Some(m) => m,
                None => 500usize,
            })),
    {
        let root = root_of(settings)?;
        let max: usize = match args.max {
            Some(m) => m,
            None => 500,
        };
        Ok(ListPlan { root, max })
    }
}

/// Arguments of `discovery.search`.
#[derive(Clone, Debug, PartialEq)]
pub struct SearchArgs {
    pub pattern: Option<String>,
    pub max: Option<usize>,
}

/// The checked request of `discovery.search`.
#[derive(Clone, Debug, PartialEq)]
pub struct SearchPlan {
    pub root: String,
    pub pattern: String,
    pub max: usize,
}

impl SearchTool {
    /// Validates a search request: the pattern is required, the walk
    /// root comes from the session, at most `max` matches (default
    /// 500) are returned.
    pub fn plan(&self, settings: &SessionSettings, args: SearchArgs) -> (r: Result<
        SearchPlan,
        ErrorKind,
    >)
        ensures
            args.pattern is None ==> r == Result::<SearchPlan, ErrorKind>::Err(ErrorKind::BadArgs),
            args.pattern is Some && settings.project_root is None ==> r == Result::<
                SearchPlan,
                ErrorKind,
            >::Err(ErrorKind::ConfigMissing),
            args.pattern is Some && settings.project_root is Some ==> (r matches Ok(p) && p.root@
                == settings.project_root.unwrap()@ && p.pattern == args.pattern.unwrap() && p.max
                == (match args.max {
                Some(m) => m,
                None => 500usize,
            })),
    {
        let pattern = match args.pattern {
            Some(p) => p,
            None => {
                return Err(ErrorKind::BadArgs);
            }
        };
        let root = root_of(settings)?;
        let max: usize = match args.max {
            Some(m) => m,
            None => 500,
        };
        Ok(SearchPlan { root, pattern, max })
    }
}

/// Arguments of `discovery.read` and `include_file`.
#[derive(Clone, Debug, PartialEq)]
pub struct ReadArgs {
    pub path: Option<String>,
    pub max_bytes: Option<usize>,
}

/// The checked request of `discovery.read` and `include_file`.
#[derive(Clone, Debug, PartialEq)]
pub struct ReadPlan {
    pub root: String,
    pub path: String,
    pub max_bytes: usize,
}

impl ReadTool {
    /// Validates a read request: the path is required, the root comes
    /// from the session, at most `max_bytes` (default 65 536) bytes
    /// are read.
    pub fn plan(&self, settings: &SessionSettings, args: ReadArgs) -> (r: Result<
        ReadPlan,
        ErrorKind,
    >)
        ensures
            args.path is None ==> r == Result::<ReadPlan, ErrorKind>::Err(ErrorKind::BadArgs),
            args.path is Some && settings.project_root is None ==> r == Result::<
                ReadPlan,
                ErrorKind,
            >::Err(ErrorKind::ConfigMissing),
            args.path is Some && settings.project_root is Some ==> (r matches Ok(p) && p.root@
                == settings.project_root.unwrap()@ && p.path == args.path.unwrap() && p.max_bytes
                == (match args.max_bytes {
                Some(m) => m,
                None => 65536usize,
            })),
    {
        let path = match args.path {
            Some(p) => p,
            None => {
                return Err(ErrorKind::BadArgs);
            }
        };
        let root = root_of(settings)?;
        let max_bytes: usize = match args.max_bytes {
            Some(m) => m,
            None => 65536,
        };
        Ok(ReadPlan { root, path, max_bytes })
    }
}

impl IncludeFileTool {
    /// `include_file` validates exactly as a read does; what differs
    /// is that its result is persisted as a context item.
    pub fn plan(&self, settings: &SessionSettings, args: ReadArgs) -> (r: Result<
        ReadPlan,
        ErrorKind,
    >)
        ensures
            args.path is None ==> r == Result::<ReadPlan, ErrorKind>::Err(ErrorKind::BadArgs),
            args.path is Some && settings.project_root is None ==> r == Result::<
                ReadPlan,
                ErrorKind,
            >::Err(ErrorKind::ConfigMissing),
            args.path is Some && settings.project_root is Some ==> (r matches Ok(p) && p.root@
                == settings.project_root.unwrap()@ && p.path == args.path.unwrap() && p.max_bytes
                == (match args.max_bytes {
                Some(m) => m,
                None => 65536usize,
            })),
    {
        (ReadTool).plan(settings, args)
    }
}

/// Arguments of `files.write`.
#[derive(Clone, Debug, PartialEq)]
pub struct WriteArgs {
    pub path: Option<String>,
    pub content: Option<String>,
    pub create: Option<bool>,
    pub dry_run: Option<bool>,
    pub preview_bytes: Option<usize>,
}

/// The checked request of `files.write`.
#[derive(Clone, Debug, PartialEq)]
pub struct WritePlan {
    pub root: String,
    pub path: String,
    pub content: String,
    pub create: bool,
    pub dry_run: bool,
    pub preview_bytes: usize,
}

impl WriteTool {
    /// Validates a write request: path and content are required,
    /// creation defaults to allowed, previews to 1024 bytes, and the
    /// dry-run flag to the session policy (or to `true`).
    pub fn plan(&self, settings: &SessionSettings, args: WriteArgs) -> (r: Result<
        WritePlan,
        ErrorKind,
    >)
        ensures
            args.path is None ==> r == Result::<WritePlan, ErrorKind>::Err(ErrorKind::BadArgs),
            args.path is Some && args.content is None ==> r == Result::<WritePlan, ErrorKind>::Err(
                ErrorKind::BadArgs,
            ),
            args.path is Some && args.content is Some && settings.project_root is None ==> r
                == Result::<WritePlan, ErrorKind>::Err(ErrorKind::ConfigMissing),
            args.path is Some && args.content is Some && settings.project_root is Some ==> (
            r matches Ok(p) && p.root@ == settings.project_root.unwrap()@ && p.path
                == args.path.unwrap() && p.content == args.content.unwrap() && p.create == (
            match args.create {
                Some(b) => b,
                None => true,
            }) && p.dry_run == spec_default_dry_run(args.dry_run, settings.tool_policies)
                && p.preview_bytes == (match args.preview_bytes {
                Some(v) => v,
                None => 1024usize,
            })),
    {
        let path = match args.path {
            Some(p) => p,
            None => {
                return Err(ErrorKind::BadArgs);
            }
        };
        let content = match args.content {
            Some(c) => c,
            None => {
                return Err(ErrorKind::BadArgs);
            }
        };
        let create: bool = match args.create {
            Some(b) => b,
            None => true,
        };
        let preview_bytes: usize = match args.preview_bytes {
            Some(v) => v,
            None => 1024,
        };
        let dry_run = effective_dry_run(args.dry_run, settings.tool_policies);
        let root = root_of(settings)?;
        Ok(WritePlan { root, path, content, create, dry_run, preview_bytes })
    }
}

/// Arguments of `files.move`.
#[derive(Clone, Debug, PartialEq)]
pub struct MoveArgs {
    pub from: Option<String>,
    pub to: Option<String>,
    pub dry_run: Option<bool>,
}

/// The checked request of `files.move`.
#[derive(Clone, Debug, PartialEq)]
pub struct MovePlan {
    pub root: String,
    pub from: String,
    pub to: String,
    pub dry_run: bool,
}

impl MoveTool {
    /// Validates a move request: both endpoints are required; the
    /// dry-run flag defaults to the session policy (or to `true`).
    pub fn plan(&self, settings: &SessionSettings, args: MoveArgs) -> (r: Result<
        MovePlan,
        ErrorKind,
    >)
        ensures
            args.from is None ==> r == Result::<MovePlan, ErrorKind>::Err(ErrorKind::BadArgs),
            args.from is Some && args.to is None ==> r == Result::<MovePlan, ErrorKind>::Err(
                ErrorKind::BadArgs,
            ),
            args.from is Some && args.to is Some && settings.project_root is None ==> r == Result::<
                MovePlan,
                ErrorKind,
            >::Err(ErrorKind::ConfigMissing),
            args.from is Some && args.to is Some && settings.project_root is Some ==> (
            r matches Ok(p) && p.root@ == settings.project_root.unwrap()@ && p.from
                == args.from.unwrap() && p.to == args.to.unwrap() && p.dry_run
                == spec_default_dry_run(args.dry_run, settings.tool_policies)),
    {
        let from = match args.from {
            Some(f) => f,
            None => {
                return Err(ErrorKind::BadArgs);
            }
        };
        let to = match args.to {
            Some(t) => t,
            None => {
                return Err(ErrorKind::BadArgs);
            }
        };
        let dry_run = effective_dry_run(args.dry_run, settings.tool_policies);
        let root = root_of(settings)?;
        Ok(MovePlan { root, from, to, dry_run })
    }
}

/// Arguments of `files.delete`.
#[derive(Clone, Debug, PartialEq)]
pub struct DeleteArgs {
    pub path: Option<String>,
    pub dry_run: Option<bool>,
}

/// The checked request of `files.delete`.
#[derive(Clone, Debug, PartialEq)]
pub struct DeletePlan {
    pub root: String,
    pub path: String,
    pub dry_run: bool,
}

impl DeleteTool {
    /// Validates a delete request: the path is required; the dry-run
    /// flag defaults to the session policy (or to `true`).
    pub fn plan(&self, settings: &SessionSettings, args: DeleteArgs) -> (r: Result<
        DeletePlan,
        ErrorKind,
    >)
        ensures
            args.path is None ==> r == Result::<DeletePlan, ErrorKind>::Err(ErrorKind::BadArgs),
            args.path is Some && settings.project_root is None ==> r == Result::<
                DeletePlan,
                ErrorKind,
            >::Err(ErrorKind::ConfigMissing),
            args.path is Some && settings.project_root is Some ==> (r matches Ok(p) && p.root@
                == settings.project_root.unwrap()@ && p.path == args.path.unwrap() && p.dry_run
                == spec_default_dry_run(args.dry_run, settings.tool_policies)),
    {
        let path = match args.path {
            Some(p) => p,
            None => {
                return Err(ErrorKind::BadArgs);
            }
        };
        let dry_run = effective_dry_run(args.dry_run, settings.tool_policies);
        let root = root_of(settings)?;
        Ok(DeletePlan { root, path, dry_run })
    }
}

/// One entry of a version-control status report: a workdir path and
/// the state the repository reports for it.
#[derive(Clone, Debug, PartialEq)]
pub struct GitStatusEntry {
    pub path: String,
    pub status: String,
}

/// The checked request of the read-only version-control tools.
#[derive(Clone, Debug, PartialEq)]
pub struct GitPlan {
    pub root: String,
}

impl StatusTool {
    /// `git.status` needs only a configured project root.
    pub fn plan(&self, settings: &SessionSettings) -> (r: Result<GitPlan, ErrorKind>)
        ensures
            settings.project_root is None ==> r == Result::<GitPlan, ErrorKind>::Err(
                ErrorKind::ConfigMissing,
            ),
            settings.project_root is Some ==> (r matches Ok(p) && p.root@
                == settings.project_root.unwrap()@),
    {
        let root = root_of(settings)?;
        Ok(GitPlan { root })
    }
}

impl DiffTool {
    /// `git.diff` needs only a configured project root.
    pub fn plan(&self, settings: &SessionSettings) -> (r: Result<GitPlan, ErrorKind>)
        ensures
            settings.project_root is None ==> r == Result::<GitPlan, ErrorKind>::Err(
                ErrorKind::ConfigMissing,
            ),
            settings.project_root is Some ==> (r matches Ok(p) && p.root@
                == settings.project_root.unwrap()@),
    {
        let root = root_of(settings)?;
        Ok(GitPlan { root })
    }
}

impl AddAllTool {
    /// `git.add_all` needs only a configured project root.
    pub fn plan(&self, settings: &SessionSettings) -> (r: Result<GitPlan, ErrorKind>)
        ensures
            settings.project_root is None ==> r == Result::<GitPlan, ErrorKind>::Err(
                ErrorKind::ConfigMissing,
            ),
            settings.project_root is Some ==> (r matches Ok(p) && p.root@
                == settings.project_root.unwrap()@),
    {
        let root = root_of(settings)?;
        Ok(GitPlan { root })
    }
}

/// Arguments of `git.commit`.
#[derive(Clone, Debug, PartialEq)]
pub struct CommitArgs {
    pub message: Option<String>,
}

/// The checked request of `git.commit`.
#[derive(Clone, Debug, PartialEq)]
pub struct CommitPlan {
    pub root: String,
    pub message: String,
}

impl CommitTool {
    /// Validates a commit request: the message is required and the
    /// root comes from the session.
    pub fn plan(&self, settings: &SessionSettings, args: CommitArgs) -> (r: Result<
        CommitPlan,
        ErrorKind,
    >)
        ensures
            args.message is None ==> r == Result::<CommitPlan, ErrorKind>::Err(ErrorKind::BadArgs),
            args.message is Some && settings.project_root is None ==> r == Result::<
                CommitPlan,
                ErrorKind,
            >::Err(ErrorKind::ConfigMissing),
            args.message is Some && settings.project_root is Some ==> (r matches Ok(p) && p.root@
                == settings.project_root.unwrap()@ && p.message == args.message.unwrap()),
    {
        let message = match args.message {
            Some(m) => m,
            None => {
                return Err(ErrorKind::BadArgs);
            }
        };
        let root = root_of(settings)?;
        Ok(CommitPlan { root, message })
    }
}

/// Arguments of `include_url`.
#[derive(Clone, Debug, PartialEq)]
pub struct UrlArgs {
    pub url: Option<String>,
    pub max_bytes: Option<usize>,
}

/// The checked request of `include_url`: the fetch is already cleared
/// by the host allowlist and its size capped.
#[derive(Clone, Debug, PartialEq)]
pub struct UrlPlan {
    pub url: String,
    pub max_bytes: usize,
}

/// The byte budget of a URL ingest: the requested cap, absent meaning
/// 262 144, never above 2 MiB.
pub open spec fn spec_url_budget(max_bytes: Option<usize>) -> usize {
    let x = match max_bytes {
        Some(v) => v,
        None => 262144usize,
    };
    if x > 2097152 {
        2097152usize
    } else {
        x
    }
}

/// Clears one URL for fetching: the URL must parse and carry a host,
/// and the host must be on the session's allowlist; an absent or
/// empty allowlist denies every host.  Returns the byte budget of the
/// fetch.
pub fn ingest_url_gate(settings: &SessionSettings, url: &str, max_bytes: Option<usize>) -> (r:
    Result<usize, ErrorKind>)
    ensures
        host_of(url@) is None ==> r == Result::<usize, ErrorKind>::Err(ErrorKind::BadArgs),
        host_of(url@) is Some && !spec_allowed_host(
            spec_allowlist(&settings.network_allowlist),
            host_of(url@).unwrap(),
        ) ==> r == Result::<usize, ErrorKind>::Err(ErrorKind::ForbiddenHost),
        host_of(url@) is Some && spec_allowed_host(
            spec_allowlist(&settings.network_allowlist),
            host_of(url@).unwrap(),
        ) ==> r == Result::<usize, ErrorKind>::Ok(spec_url_budget(max_bytes)),
{
    let host = match url_host(url) {
        Some(h) => h,
        None => {
            return Err(ErrorKind::BadArgs);
        }
    };
    if !is_allowed_host(&settings.network_allowlist, host.as_str()) {
        return Err(ErrorKind::ForbiddenHost);
    }
    let x: usize = match max_bytes {
        Some(v) => v,
        None => 262144,
    };
    let capped: usize = if x > 2097152 {
        2097152
    } else {
        x
    };
    Ok(capped)
}

impl IncludeUrlTool {
    /// Validates a URL ingest: the URL is required, must parse with a
    /// host, and the host must be allowlisted; the byte budget
    /// defaults to 262 144 and is capped at 2 MiB.
    pub fn plan(&self, settings: &SessionSettings, args: UrlArgs) -> (r: Result<
        UrlPlan,
        ErrorKind,
    >)
        ensures
            args.url is None ==> r == Result::<UrlPlan, ErrorKind>::Err(ErrorKind::BadArgs),
            args.url is Some && host_of(args.url.unwrap()@) is None ==> r == Result::<
                UrlPlan,
                ErrorKind,
            >::Err(ErrorKind::BadArgs),
            args.url is Some && host_of(args.url.unwrap()@) is Some && !spec_allowed_host(
                spec_allowlist(&settings.network_allowlist),
                host_of(args.url.unwrap()@).unwrap(),
            ) ==> r == Result::<UrlPlan, ErrorKind>::Err(ErrorKind::ForbiddenHost),
            args.url is Some && host_of(args.url.unwrap()@) is Some && spec_allowed_host(
                spec_allowlist(&settings.network_allowlist),
                host_of(args.url.unwrap()@).unwrap(),
            ) ==> (r matches Ok(p) && p.url == args.url.unwrap() && p.max_bytes == spec_url_budget(
                args.max_bytes,
            )),
    {
        let url = match args.url {
            Some(u) => u,
            None => {
                return Err(ErrorKind::BadArgs);
            }
        };
        let max_bytes = ingest_url_gate(settings, url.as_str(), args.max_bytes)?;
        Ok(UrlPlan { url, max_bytes })
    }
}

/// Arguments of `add_rule`.
#[derive(Clone, Debug, PartialEq)]
pub struct RuleArgs {
    pub name: Option<String>,
    pub content: Option<String>,
    pub system: Option<bool>,
    pub repo_dir: Option<String>,
}

/// The checked request of `add_rule`: either a global (system) rule
/// upsert, or a Markdown file at a slug-derived path relative to the
/// project root, for the adapter to resolve through the path sandbox
/// and write.
#[derive(Clone, Debug, PartialEq)]
pub enum RulePlan {
    System { name: String, content: String },
    Repo { root: String, rel_path: String, content: String },
}

/// The repository-relative path an `add_rule` write lands at.
pub open spec fn spec_rule_rel_path(repo_dir: Seq<char>, name: Seq<char>) -> Seq<char> {
    repo_dir + "/"@ + spec_slug(lower_of(name)) + ".md"@
}

impl AddRuleTool {
    /// Validates a rule request: name and content are required; a
    /// system rule goes to the global store, anything else becomes a
    /// Markdown file under `repo_dir` (default `.cursor/rules`) named
    /// by the slug of the rule name.
    pub fn plan(&self, settings: &SessionSettings, args: RuleArgs) -> (r: Result<
        RulePlan,
        ErrorKind,
    >)
        ensures
            args.name is None ==> r == Result::<RulePlan, ErrorKind>::Err(ErrorKind::BadArgs),
            args.name is Some && args.content is None ==> r == Result::<RulePlan, ErrorKind>::Err(
                ErrorKind::BadArgs,
            ),
            args.name is Some && args.content is Some && (args.system matches Some(true)) ==> (
            r matches Ok(p) && p matches RulePlan::System { name, content } && name
                == args.name.unwrap() && content == args.content.unwrap()),
            args.name is Some && args.content is Some && !(args.system matches Some(true))
                && settings.project_root is None ==> r == Result::<RulePlan, ErrorKind>::Err(
                ErrorKind::ConfigMissing,
            ),
            args.name is Some && args.content is Some && !(args.system matches Some(true))
                && settings.project_root is Some ==> (r matches Ok(p) && p matches RulePlan::Repo {
                root,
                rel_path,
                content,
            } && root@ == settings.project_root.unwrap()@ && rel_path@ == spec_rule_rel_path(
                match args.repo_dir {
                    Some(d) => d@,
                    None => ".cursor/rules"@,
                },
                args.name.unwrap()@,
            ) && content == args.content.unwrap()),
    {
        let name = match args.name {
            Some(n) => n,
            None => {
                return Err(ErrorKind::BadArgs);
            }
        };
        let content = match args.content {
            Some(c) => c,
            None => {
                return Err(ErrorKind::BadArgs);
            }
        };
        let system: bool = match args.system {
            Some(b) => b,
            None => false,
        };
        if system {
            return Ok(RulePlan::System { name, content });
        }
        let root = root_of(settings)?;
        let mut rel_path: String = match args.repo_dir {
            Some(d) => d,
            None => ".cursor/rules".to_owned(),
        };
        rel_path.append("/");
        let slug = slugify(name.as_str());
        rel_path.append(slug.as_str());
        rel_path.append(".md");
        Ok(RulePlan::Repo { root, rel_path, content })
    }
}

} // verus!
