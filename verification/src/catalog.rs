//! Presets, models, providers and managed functions, and the rules that pick
//! among them.
use vstd::prelude::*;
use vstd::string::*;
use crate::message::ToolDefinition;
use crate::text::str_eq;
use std::collections::HashMap;

verus! {

broadcast use vstd::std_specs::hash::group_hash_axioms;

/// A model preset.
pub struct LlmPreset {
    pub id: i64,
    pub name: String,
    /// Non-zero for the default preset.
    pub is_default: i64,
}

/// A provider that serves models over a chat-completion endpoint.
pub struct LlmProvider {
    pub id: i64,
    pub name: String,
    pub base_url: String,
}

/// A model, which belongs to a preset and is served by a provider.
pub struct LlmModel {
    pub id: i64,
    pub name: String,
    pub preset_id: Option<i64>,
    pub provider_id: Option<i64>,
    pub priority: i32,
}

/// The models of `models` that belong to preset `preset_id`, in order.
pub open spec fn models_of_preset(models: Seq<LlmModel>, preset_id: i64) -> Seq<LlmModel>
    decreases models.len(),
{
    if models.len() == 0 {
        Seq::<LlmModel>::empty()
    } else {
        let r = models_of_preset(models.drop_last(), preset_id);
        if models.last().preset_id == Some(preset_id) {
            r.push(models.last())
        } else {
            r
        }
    }
}

/// The models that may be chosen under the selected preset: none without one.
pub open spec fn selectable_models(models: Seq<LlmModel>, preset_id: Option<i64>) -> Seq<LlmModel> {
    match preset_id {
        Some(p) => models_of_preset(models, p),
        None => Seq::<LlmModel>::empty(),
    }
}

/// The models that belong to the selected preset (none without one).
pub fn models_for_preset<'a>(models: &'a [LlmModel], preset_id: Option<i64>) -> (r: Vec<&'a LlmModel>)
    ensures
        r@.map_values(|m: &LlmModel| *m) == selectable_models(models@, preset_id),
{
    let mut out: Vec<&'a LlmModel> = Vec::new();
    let p = match preset_id {
        Some(p) => p,
        None => {
            assert(out@.map_values(|m: &LlmModel| *m) =~= Seq::<LlmModel>::empty());
            return out;
        },
    };
    let mut i: usize = 0;
    assert(models@.subrange(0, 0) =~= Seq::<LlmModel>::empty());
    while i < models.len()
        invariant
            i <= models.len(),
            out@.map_values(|m: &LlmModel| *m) == models_of_preset(models@.subrange(0, i as int), p),
        decreases models.len() - i,
    {
        let ghost q = models@.subrange(0, i + 1);
        assert(q.drop_last() =~= models@.subrange(0, i as int));
        assert(q.last() == models@[i as int]);
        let m = &models[i];
        if m.preset_id == Some(p) {
            out.push(m);
        }
        i = i + 1;
        assert(out@.map_values(|m: &LlmModel| *m) =~= models_of_preset(q, p));
    }
    assert(models@.subrange(0, models.len() as int) =~= models@);
    out
}


/// Whether some model that may be chosen under the preset has this id.
pub open spec fn model_selectable(models: Seq<LlmModel>, preset_id: Option<i64>, model_id: i64) -> bool {
    exists|i: int|
        0 <= i < selectable_models(models, preset_id).len()
            && (#[trigger] selectable_models(models, preset_id)[i]).id == model_id
}

/// The selected model, kept only while it belongs to the selected preset.
pub fn valid_model_selection(
    models: &[LlmModel],
    preset_id: Option<i64>,
    selected_model_id: Option<i64>,
) -> (r: Option<i64>)
    ensures
        r == (match selected_model_id {
            Some(m) => if model_selectable(models@, preset_id, m) { Some(m) } else { None },
            None => None,
        }),
{
    let selected = match selected_model_id {
        Some(m) => m,
        None => return None,
    };
    let candidates = models_for_preset(models, preset_id);
    let ghost sel = selectable_models(models@, preset_id);
    let mut i: usize = 0;
    while i < candidates.len()
        invariant
            i <= candidates.len(),
            candidates@.map_values(|m: &LlmModel| *m) == sel,
            sel == selectable_models(models@, preset_id),
            selected_model_id == Some(selected),
            forall|j: int| 0 <= j < i ==> (#[trigger] sel[j]).id != selected,
        decreases candidates.len() - i,
    {
        assert(sel[i as int] == *candidates@[i as int]);
        if candidates[i].id == selected {
            assert(selectable_models(models@, preset_id)[i as int].id == selected);
            return Some(selected);
        }
        i = i + 1;
    }
    None
}

/// Which application hosts the view.
#[derive(Debug, Clone, Copy, PartialEq, Eq, Structural)]
pub enum AppIdentity {
    /// The HiveGUI desktop application.
    Hivegui,
    /// Ngy Prompt Studio.
    NgyPromptStudio,
}

/// Only Ngy Prompt Studio has a prompt library, so only it offers the
/// "pick a prompt" entry.
pub fn prompt_library_available(identity: AppIdentity) -> (r: bool)
    ensures
        r == (identity == AppIdentity::NgyPromptStudio),
{
    identity == AppIdentity::NgyPromptStudio
}

/// A function from function management.
pub struct DbFunction {
    pub id: i64,
    pub identifier: String,
    pub name: String,
    pub description: Option<String>,
    /// `builtin` for the built-in functions; other kinds are user functions.
    pub kind: String,
    pub input_schema: String,
    pub output_schema: String,
}

impl Clone for DbFunction {
    fn clone(&self) -> (r: Self)
        ensures
            r == *self,
    {
        DbFunction {
            id: self.id,
            identifier: self.identifier.clone(),
            name: self.name.clone(),
            description: match &self.description {
                Some(d) => Some(d.clone()),
                None => None,
            },
            kind: self.kind.clone(),
            input_schema: self.input_schema.clone(),
            output_schema: self.output_schema.clone(),
        }
    }
}

/// The functions that are not built in, in order.
pub open spec fn non_builtin(fs: Seq<DbFunction>) -> Seq<DbFunction>
    decreases fs.len(),
{
    if fs.len() == 0 {
        Seq::<DbFunction>::empty()
    } else {
        let r = non_builtin(fs.drop_last());
        if fs.last().kind@ != "builtin"@ {
            r.push(fs.last())
        } else {
            r
        }
    }
}

/// The functions offered by the "pick from function management" picker:
/// Prompt Studio hides the built-in functions, the desktop keeps them all.
pub open spec fn selectable_functions_spec(identity: AppIdentity, fs: Seq<DbFunction>) -> Seq<DbFunction> {
    if identity == AppIdentity::NgyPromptStudio {
        non_builtin(fs)
    } else {
        fs
    }
}

pub fn selectable_functions(identity: AppIdentity, functions: Vec<DbFunction>) -> (r: Vec<DbFunction>)
    ensures
        r@ == selectable_functions_spec(identity, functions@),
{
    if identity != AppIdentity::NgyPromptStudio {
        return functions;
    }
    let ghost all = functions@;
    let mut rest = functions;
    let mut kept: Vec<DbFunction> = Vec::new();
    let mut i: usize = 0;
    let n = rest.len();
    assert(all.subrange(0, 0) =~= Seq::<DbFunction>::empty());
    assert(all.subrange(0, n as int) =~= all);
    while rest.len() > 0
        invariant
            i + rest.len() == n,
            n == all.len(),
            rest@ == all.subrange(i as int, n as int),
            kept@ == non_builtin(all.subrange(0, i as int)),
        decreases rest.len(),
    {
        let f = rest.remove(0);
        proof {
            assert(f == all[i as int]);
            let q = all.subrange(0, i + 1);
            assert(q.drop_last() =~= all.subrange(0, i as int));
            assert(q.last() == f);
        }
        let builtin = str_eq(f.kind.as_str(), "builtin");
        if !builtin {
            kept.push(f);
        }
        i = i + 1;
        assert(rest@ =~= all.subrange(i as int, n as int));
    }
    kept
}

/// The description that a function contributes to a tool: its own, or empty.
pub open spec fn description_text(d: Option<String>) -> Seq<char> {
    match d {
        Some(s) => s@,
        None => Seq::<char>::empty(),
    }
}

/// A function from function management, as a tool definition of this page:
/// its name, its description (empty when it has none) and its input schema.
pub fn tool_definition_from_function(local_id: u64, function: &DbFunction) -> (r: ToolDefinition)
    ensures
        r.id == local_id,
        r.name@ == function.name@,
        r.description@ == description_text(function.description),
        r.parameters_json@ == function.input_schema@,
{
    let description = match &function.description {
        Some(d) => d.clone(),
        None => String::new(),
    };
    ToolDefinition {
        id: local_id,
        name: function.name.clone(),
        description,
        parameters_json: function.input_schema.clone(),
    }
}

/// Whether some tool of the page already came from this function.
/// `sources` maps each such tool's id to its function's id.
pub fn function_already_added(sources: &HashMap<u64, i64>, function_id: i64) -> (r: bool)
    ensures
        r == exists|k: u64| sources@.contains_key(k) && #[trigger] sources@[k] == function_id,
{
    let ghost mut seen: Seq<i64> = Seq::empty();
    for v in it: sources.values()
        invariant
            it.seq().unref().to_set() == sources@.values(),
            seen == it.seq().unref().subrange(0, it.index() as int),
            it.index() == it.seq().len() ==> seen.to_set() == sources@.values(),
            forall|j: int| 0 <= j < seen.len() ==> seen[j] != function_id,
    {
        proof {
            assert(it.seq().unref().subrange(0, it.index() as int + 1)
                =~= seen.push(it.seq().unref()[it.index() as int]));
        }
        if *v == function_id {
            proof {
                assert(it.seq().unref().contains(function_id));
                assert(sources@.values().contains(function_id));
            }
            return true;
        }
        proof {
            seen = seen.push(*v);
        }
        assert(it.index() + 1 == it.seq().len() ==> seen =~= it.seq().unref());
    }
    proof {
        assert forall|k: u64| sources@.contains_key(k) implies #[trigger] sources@[k] != function_id by {
            assert(sources@.values().contains(sources@[k]));
            assert(seen.to_set().contains(sources@[k]));
        }
    }
    false
}

/// The label of a preset in the preset picker.
pub open spec fn preset_label_spec(p: LlmPreset) -> Seq<char> {
    if p.is_default != 0 {
        p.name@ + "（默认）"@
    } else {
        p.name@
    }
}

pub fn preset_label(preset: &LlmPreset) -> (r: String)
    ensures
        r@ == preset_label_spec(*preset),
{
    let mut s = preset.name.clone();
    if preset.is_default != 0 {
        s.append("（默认）");
    }
    s
}

/// The name of the provider with this id, if listed.
pub open spec fn provider_name(providers: Seq<LlmProvider>, id: Option<i64>) -> Seq<char>
    decreases providers.len(),
{
    match id {
        None => Seq::<char>::empty(),
        Some(pid) => if providers.len() == 0 {
            Seq::<char>::empty()
        } else if providers[0].id == pid {
            providers[0].name@
        } else {
            provider_name(providers.drop_first(), id)
        },
    }
}

/// The label of a model in the model picker: its name, followed by its
/// provider's name in brackets when that is known and not empty.
pub open spec fn model_label_spec(m: LlmModel, providers: Seq<LlmProvider>) -> Seq<char> {
    let p = provider_name(providers, m.provider_id);
    if p.len() == 0 {
        m.name@
    } else {
        m.name@ + " ("@ + p + ")"@
    }
}

fn find_provider_name(providers: &[LlmProvider], pid: i64) -> (r: String)
    ensures
        r@ == provider_name(providers@, Some(pid)),
{
    let mut i: usize = 0;
    assert(providers@.subrange(0, providers.len() as int) =~= providers@);
    while i < providers.len()
        invariant
            i <= providers.len(),
            provider_name(providers@, Some(pid)) == provider_name(
                providers@.subrange(i as int, providers.len() as int),
                Some(pid),
            ),
        decreases providers.len() - i,
    {
        let ghost t = providers@.subrange(i as int, providers.len() as int);
        assert(t[0] == providers@[i as int]);
        assert(t.drop_first() =~= providers@.subrange(i + 1, providers.len() as int));
        if providers[i].id == pid {
            return providers[i].name.clone();
        }
        i = i + 1;
    }
    String::new()
}

pub fn model_label(model: &LlmModel, providers: &[LlmProvider]) -> (r: String)
    ensures
        r@ == model_label_spec(*model, providers@),
{
    let provider = match model.provider_id {
        Some(pid) => find_provider_name(providers, pid),
        None => String::new(),
    };
    let mut s = model.name.clone();
    if !provider.as_str().is_empty() {
        s.append(" (");
        s.append(provider.as_str());
        s.append(")");
    }
    s
}


/// A prompt from the prompt library.
pub struct PromptTemplate {
    pub id: i64,
    pub name: String,
    pub content: String,
    pub description: Option<String>,
}

} // verus!
