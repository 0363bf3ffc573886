//! Session settings, three-valued patches and layered resolution.
//!
//! All settings fields are optional so that three layers — global
//! defaults, the session, and per-request overrides — can each
//! contribute.  A patch distinguishes *absent* (leave unchanged) from
//! *present-but-null* (clear) from *present-with-value* (set).
//!
//! Model temperature and top-p are carried as the bit patterns of their
//! IEEE-754 single-precision values; the layering logic never interprets
//! them, it only picks the first layer that supplies one, and adapters
//! convert at the boundary.

use vstd::prelude::*;

verus! {

#[derive(Clone, Copy, Debug, PartialEq, Eq, Structural)]
pub struct ModelParams {
    /// Bit pattern of the sampling temperature.
    pub temperature: Option<u32>,
    pub max_tokens: Option<u32>,
    /// Bit pattern of the nucleus-sampling threshold.
    pub top_p: Option<u32>,
}

#[derive(Clone, Copy, Debug, PartialEq, Eq, Structural)]
pub struct ModelParamsPatch {
    pub temperature: Option<Option<u32>>,
    pub max_tokens: Option<Option<u32>>,
    pub top_p: Option<Option<u32>>,
}

#[derive(Clone, Copy, Debug, PartialEq, Eq, Structural)]
pub struct ToolPolicies {
    pub dry_run: Option<bool>,
    pub max_read_bytes: Option<u64>,
}

#[derive(Clone, Copy, Debug, PartialEq, Eq, Structural)]
pub struct ToolPoliciesPatch {
    pub dry_run: Option<Option<bool>>,
    pub max_read_bytes: Option<Option<u64>>,
}

#[derive(Clone, Debug, PartialEq)]
pub struct SessionSettings {
    pub default_model: Option<String>,
    pub model_params: Option<ModelParams>,
    pub project_root: Option<String>,
    pub tool_policies: Option<ToolPolicies>,
    /// `None` and an empty list both deny every host.
    pub network_allowlist: Option<Vec<String>>,
}

#[derive(Clone, Debug, PartialEq)]
pub struct SessionSettingsPatch {
    pub default_model: Option<Option<String>>,
    pub model_params: Option<ModelParamsPatch>,
    pub project_root: Option<Option<String>>,
    pub tool_policies: Option<ToolPoliciesPatch>,
    pub network_allowlist: Option<Option<Vec<String>>>,
}

#[derive(Clone, Debug, PartialEq)]
pub struct GlobalConfigDefaults {
    pub default_model: Option<String>,
    pub model_params: Option<ModelParams>,
    pub tool_policies: Option<ToolPolicies>,
}

#[derive(Clone, Debug, PartialEq)]
pub struct RequestOverrides {
    pub model: Option<String>,
    pub model_params: Option<ModelParams>,
    pub tool_policies: Option<ToolPolicies>,
}

#[derive(Clone, Debug, PartialEq)]
pub struct EffectiveSettings {
    pub model: Option<String>,
    pub model_params: ModelParams,
    pub project_root: Option<String>,
    pub tool_policies: ToolPolicies,
}

/// The spec-level shape of a settings value: strings and lists by
/// their character sequences, the scalar structs as themselves.
pub struct SettingsView {
    pub default_model: Option<Seq<char>>,
    pub model_params: Option<ModelParams>,
    pub project_root: Option<Seq<char>>,
    pub tool_policies: Option<ToolPolicies>,
    pub network_allowlist: Option<Seq<Seq<char>>>,
}

impl DeepView for SessionSettings {
    type V = SettingsView;

    open spec fn deep_view(&self) -> SettingsView {
        SettingsView {
            default_model: self.default_model.deep_view(),
            model_params: self.model_params,
            project_root: self.project_root.deep_view(),
            tool_policies: self.tool_policies,
            network_allowlist: self.network_allowlist.deep_view(),
        }
    }
}

pub open spec fn spec_empty_params() -> ModelParams {
    ModelParams { temperature: None, max_tokens: None, top_p: None }
}

pub open spec fn spec_empty_policies() -> ToolPolicies {
    ToolPolicies { dry_run: None, max_read_bytes: None }
}

pub open spec fn spec_empty_settings() -> SessionSettings {
    SessionSettings {
        default_model: None,
        model_params: None,
        project_root: None,
        tool_policies: None,
        network_allowlist: None,
    }
}

pub open spec fn spec_empty_patch() -> SessionSettingsPatch {
    SessionSettingsPatch {
        default_model: None,
        model_params: None,
        project_root: None,
        tool_policies: None,
        network_allowlist: None,
    }
}

impl Default for ModelParams {
    fn default() -> (r: Self)
        ensures
            r == spec_empty_params(),
    {
        ModelParams { temperature: None, max_tokens: None, top_p: None }
    }
}

impl Default for ModelParamsPatch {
    fn default() -> (r: Self)
        ensures
            r == (ModelParamsPatch { temperature: None, max_tokens: None, top_p: None }),
    {
        ModelParamsPatch { temperature: None, max_tokens: None, top_p: None }
    }
}

impl Default for ToolPolicies {
    fn default() -> (r: Self)
        ensures
            r == spec_empty_policies(),
    {
        ToolPolicies { dry_run: None, max_read_bytes: None }
    }
}

impl Default for ToolPoliciesPatch {
    fn default() -> (r: Self)
        ensures
            r == (ToolPoliciesPatch { dry_run: None, max_read_bytes: None }),
    {
        ToolPoliciesPatch { dry_run: None, max_read_bytes: None }
    }
}

impl Default for SessionSettings {
    fn default() -> (r: Self)
        ensures
            r == spec_empty_settings(),
    {
        SessionSettings {
            default_model: None,
            model_params: None,
            project_root: None,
            tool_policies: None,
            network_allowlist: None,
        }
    }
}

impl Default for SessionSettingsPatch {
    fn default() -> (r: Self)
        ensures
            r == spec_empty_patch(),
    {
        SessionSettingsPatch {
            default_model: None,
            model_params: None,
            project_root: None,
            tool_policies: None,
            network_allowlist: None,
        }
    }
}

impl Default for GlobalConfigDefaults {
    fn default() -> (r: Self)
        ensures
            r == (GlobalConfigDefaults {
                default_model: None,
                model_params: None,
                tool_policies: None,
            }),
    {
        GlobalConfigDefaults { default_model: None, model_params: None, tool_policies: None }
    }
}

impl Default for RequestOverrides {
    fn default() -> (r: Self)
        ensures
            r == (RequestOverrides { model: None, model_params: None, tool_policies: None }),
    {
        RequestOverrides { model: None, model_params: None, tool_policies: None }
    }
}

/// A nested-params patch applied to the current nested value: a missing
/// inner field preserves, present-null clears, present-value sets.
pub open spec fn spec_merge_params(cur: Option<ModelParams>, p: ModelParamsPatch) -> ModelParams {
    let base = match cur {
        Some(m) => m,
        None => spec_empty_params(),
    };
    ModelParams {
        temperature: match p.temperature {
            Some(v) => v,
            None => base.temperature,
        },
        max_tokens: match p.max_tokens {
            Some(v) => v,
            None => base.max_tokens,
        },
        top_p: match p.top_p {
            Some(v) => v,
            None => base.top_p,
        },
    }
}

/// A nested-policies patch applied to the current nested value.
pub open spec fn spec_merge_policies(cur: Option<ToolPolicies>, p: ToolPoliciesPatch) -> ToolPolicies {
    let base = match cur {
        Some(m) => m,
        None => spec_empty_policies(),
    };
    ToolPolicies {
        dry_run: match p.dry_run {
            Some(v) => v,
            None => base.dry_run,
        },
        max_read_bytes: match p.max_read_bytes {
            Some(v) => v,
            None => base.max_read_bytes,
        },
    }
}

/// A patch applied to settings, field by field: presence in the patch
/// overwrites (or merges, for the nested structs), absence preserves.
pub open spec fn spec_apply_patch(s: SessionSettings, p: SessionSettingsPatch) -> SessionSettings {
    SessionSettings {
        default_model: match p.default_model {
            Some(v) => v,
            None => s.default_model,
        },
        model_params: match p.model_params {
            Some(mp) => Some(spec_merge_params(s.model_params, mp)),
            None => s.model_params,
        },
        project_root: match p.project_root {
            Some(v) => v,
            None => s.project_root,
        },
        tool_policies: match p.tool_policies {
            Some(tp) => Some(spec_merge_policies(s.tool_policies, tp)),
            None => s.tool_policies,
        },
        network_allowlist: match p.network_allowlist {
            Some(v) => v,
            None => s.network_allowlist,
        },
    }
}

impl SessionSettings {
    /// Applies a three-valued patch in place.
    pub fn apply_patch(&mut self, patch: SessionSettingsPatch)
        ensures
            *final(self) == spec_apply_patch(*old(self), patch),
    {
        if let Some(dm) = patch.default_model {
            self.default_model = dm;
        }
        if let Some(mp) = patch.model_params {
            let mut current = match self.model_params {
                Some(m) => m,
                None => ModelParams::default(),
            };
            if let Some(t) = mp.temperature {
                current.temperature = t;
            }
            if let Some(m) = mp.max_tokens {
                current.max_tokens = m;
            }
            if let Some(p) = mp.top_p {
                current.top_p = p;
            }
            self.model_params = Some(current);
        }
        if let Some(pr) = patch.project_root {
            self.project_root = pr;
        }
        if let Some(tp) = patch.tool_policies {
            let mut current = match self.tool_policies {
                Some(m) => m,
                None => ToolPolicies::default(),
            };
            if let Some(d) = tp.dry_run {
                current.dry_run = d;
            }
            if let Some(m) = tp.max_read_bytes {
                current.max_read_bytes = m;
            }
            self.tool_policies = Some(current);
        }
        if let Some(na) = patch.network_allowlist {
            self.network_allowlist = na;
        }
    }
}

/// The empty patch leaves any settings value exactly as it was.
pub proof fn lemma_empty_patch_is_identity(s: SessionSettings)
    ensures
        spec_apply_patch(s, spec_empty_patch()) == s,
{
}

/// The first present value, in priority order.
pub open spec fn pick3<T>(a: Option<T>, b: Option<T>, c: Option<T>) -> Option<T> {
    if a is Some {
        a
    } else if b is Some {
        b
    } else {
        c
    }
}

pub open spec fn opt_temperature(p: Option<ModelParams>) -> Option<u32> {
    match p {
        Some(m) => m.temperature,
        None => None,
    }
}

pub open spec fn opt_max_tokens(p: Option<ModelParams>) -> Option<u32> {
    match p {
        Some(m) => m.max_tokens,
        None => None,
    }
}

pub open spec fn opt_top_p(p: Option<ModelParams>) -> Option<u32> {
    match p {
        Some(m) => m.top_p,
        None => None,
    }
}

pub open spec fn opt_dry_run(p: Option<ToolPolicies>) -> Option<bool> {
    match p {
        Some(m) => m.dry_run,
        None => None,
    }
}

pub open spec fn opt_max_read_bytes(p: Option<ToolPolicies>) -> Option<u64> {
    match p {
        Some(m) => m.max_read_bytes,
        None => None,
    }
}

/// The per-request materialization of the three layers: for each
/// scalar, the first present value among request, session and global,
/// resolved field by field even inside the nested structs.
pub open spec fn spec_resolved_settings(
    g: GlobalConfigDefaults,
    s: SessionSettings,
    r: RequestOverrides,
) -> EffectiveSettings {
    EffectiveSettings {
        model: pick3(r.model, s.default_model, g.default_model),
        model_params: ModelParams {
            temperature: pick3(
                opt_temperature(r.model_params),
                opt_temperature(s.model_params),
                opt_temperature(g.model_params),
            ),
            max_tokens: pick3(
                opt_max_tokens(r.model_params),
                opt_max_tokens(s.model_params),
                opt_max_tokens(g.model_params),
            ),
            top_p: pick3(
                opt_top_p(r.model_params),
                opt_top_p(s.model_params),
                opt_top_p(g.model_params),
            ),
        },
        project_root: s.project_root,
        tool_policies: ToolPolicies {
            dry_run: pick3(
                opt_dry_run(r.tool_policies),
                opt_dry_run(s.tool_policies),
                opt_dry_run(g.tool_policies),
            ),
            max_read_bytes: pick3(
                opt_max_read_bytes(r.tool_policies),
                opt_max_read_bytes(s.tool_policies),
                opt_max_read_bytes(g.tool_policies),
            ),
        },
    }
}

fn clone_opt_string(o: &Option<String>) -> (r: Option<String>)
    ensures
        r == *o,
{
    match o {
        Some(s) => Some(s.clone()),
        None => None,
    }
}

fn pick3_u32(a: Option<u32>, b: Option<u32>, c: Option<u32>) -> (r: Option<u32>)
    ensures
        r == pick3(a, b, c),
{
    match a {
        Some(v) => Some(v),
        None => match b {
            Some(v) => Some(v),
            None => c,
        },
    }
}

fn pick3_string(a: Option<String>, b: Option<String>, c: Option<String>) -> (r: Option<String>)
    ensures
        r == pick3(a, b, c),
{
    match a {
        Some(v) => Some(v),
        None => match b {
            Some(v) => Some(v),
            None => c,
        },
    }
}

/// Resolves the effective settings for one request from the three
/// layers, request highest priority, per scalar field.
pub fn resolve_effective_settings(
    global: &GlobalConfigDefaults,
    session: &SessionSettings,
    request: &RequestOverrides,
) -> (r: EffectiveSettings)
    ensures
        r == spec_resolved_settings(*global, *session, *request),
{
    let model = pick3_string(
        clone_opt_string(&request.model),
        clone_opt_string(&session.default_model),
        clone_opt_string(&global.default_model),
    );
    let r_mp = request.model_params;
    let s_mp = session.model_params;
    let g_mp = global.model_params;
    let model_params = ModelParams {
        temperature: pick3_u32(
            opt_temperature_exec(r_mp),
            opt_temperature_exec(s_mp),
            opt_temperature_exec(g_mp),
        ),
        max_tokens: pick3_u32(
            opt_max_tokens_exec(r_mp),
            opt_max_tokens_exec(s_mp),
            opt_max_tokens_exec(g_mp),
        ),
        top_p: pick3_u32(opt_top_p_exec(r_mp), opt_top_p_exec(s_mp), opt_top_p_exec(g_mp)),
    };
    let r_tp = request.tool_policies;
    let s_tp = session.tool_policies;
    let g_tp = global.tool_policies;
    let dry_run = match opt_dry_run_exec(r_tp) {
        Some(v) => Some(v),
        None => match opt_dry_run_exec(s_tp) {
            Some(v) => Some(v),
            None => opt_dry_run_exec(g_tp),
        },
    };
    let max_read_bytes = match opt_max_read_bytes_exec(r_tp) {
        Some(v) => Some(v),
        None => match opt_max_read_bytes_exec(s_tp) {
            Some(v) => Some(v),
            None => opt_max_read_bytes_exec(g_tp),
        },
    };
    EffectiveSettings {
        model,
        model_params,
        project_root: clone_opt_string(&session.project_root),
        tool_policies: ToolPolicies { dry_run, max_read_bytes },
    }
}

fn opt_temperature_exec(p: Option<ModelParams>) -> (r: Option<u32>)
    ensures
        r == opt_temperature(p),
{
    match p {
        Some(m) => m.temperature,
        None => None,
    }
}

fn opt_max_tokens_exec(p: Option<ModelParams>) -> (r: Option<u32>)
    ensures
        r == opt_max_tokens(p),
{
    match p {
        Some(m) => m.max_tokens,
        None => None,
    }
}

fn opt_top_p_exec(p: Option<ModelParams>) -> (r: Option<u32>)
    ensures
        r == opt_top_p(p),
{
    match p {
        Some(m) => m.top_p,
        None => None,
    }
}

fn opt_dry_run_exec(p: Option<ToolPolicies>) -> (r: Option<bool>)
    ensures
        r == opt_dry_run(p),
{
    match p {
        Some(m) => m.dry_run,
        None => None,
    }
}

fn opt_max_read_bytes_exec(p: Option<ToolPolicies>) -> (r: Option<u64>)
    ensures
        r == opt_max_read_bytes(p),
{
    match p {
        Some(m) => m.max_read_bytes,
        None => None,
    }
}

/// Layering: for every scalar, a value present in the request wins; an
/// absent one falls back to the session's, and only then to the global
/// default.
pub proof fn lemma_layering(g: GlobalConfigDefaults, s: SessionSettings, r: RequestOverrides)
    ensures
        r.model is Some ==> spec_resolved_settings(g, s, r).model == r.model,
        r.model is None && s.default_model is Some ==> spec_resolved_settings(g, s, r).model
            == s.default_model,
        r.model is None && s.default_model is None ==> spec_resolved_settings(g, s, r).model
            == g.default_model,
        opt_temperature(r.model_params) is Some ==> spec_resolved_settings(
            g,
            s,
            r,
        ).model_params.temperature == opt_temperature(r.model_params),
        opt_temperature(r.model_params) is None && opt_temperature(s.model_params) is Some
            ==> spec_resolved_settings(g, s, r).model_params.temperature == opt_temperature(
            s.model_params,
        ),
        opt_temperature(r.model_params) is None && opt_temperature(s.model_params) is None
            ==> spec_resolved_settings(g, s, r).model_params.temperature == opt_temperature(
            g.model_params,
        ),
        opt_max_tokens(r.model_params) is Some ==> spec_resolved_settings(
            g,
            s,
            r,
        ).model_params.max_tokens == opt_max_tokens(r.model_params),
        opt_max_tokens(r.model_params) is None && opt_max_tokens(s.model_params) is Some
            ==> spec_resolved_settings(g, s, r).model_params.max_tokens == opt_max_tokens(
            s.model_params,
        ),
        opt_max_tokens(r.model_params) is None && opt_max_tokens(s.model_params) is None
            ==> spec_resolved_settings(g, s, r).model_params.max_tokens == opt_max_tokens(
            g.model_params,
        ),
        opt_top_p(r.model_params) is Some ==> spec_resolved_settings(g, s, r).model_params.top_p
            == opt_top_p(r.model_params),
        opt_top_p(r.model_params) is None && opt_top_p(s.model_params) is Some
            ==> spec_resolved_settings(g, s, r).model_params.top_p == opt_top_p(s.model_params),
        opt_top_p(r.model_params) is None && opt_top_p(s.model_params) is None
            ==> spec_resolved_settings(g, s, r).model_params.top_p == opt_top_p(g.model_params),
        opt_dry_run(r.tool_policies) is Some ==> spec_resolved_settings(
            g,
            s,
            r,
        ).tool_policies.dry_run == opt_dry_run(r.tool_policies),
        opt_dry_run(r.tool_policies) is None && opt_dry_run(s.tool_policies) is Some
            ==> spec_resolved_settings(g, s, r).tool_policies.dry_run == opt_dry_run(
            s.tool_policies,
        ),
        opt_dry_run(r.tool_policies) is None && opt_dry_run(s.tool_policies) is None
            ==> spec_resolved_settings(g, s, r).tool_policies.dry_run == opt_dry_run(
            g.tool_policies,
        ),
        opt_max_read_bytes(r.tool_policies) is Some ==> spec_resolved_settings(
            g,
            s,
            r,
        ).tool_policies.max_read_bytes == opt_max_read_bytes(r.tool_policies),
        opt_max_read_bytes(r.tool_policies) is None && opt_max_read_bytes(s.tool_policies) is Some
            ==> spec_resolved_settings(g, s, r).tool_policies.max_read_bytes == opt_max_read_bytes(
            s.tool_policies,
        ),
        opt_max_read_bytes(r.tool_policies) is None && opt_max_read_bytes(s.tool_policies) is None
            ==> spec_resolved_settings(g, s, r).tool_policies.max_read_bytes == opt_max_read_bytes(
            g.tool_policies,
        ),
{
}

} // verus!
