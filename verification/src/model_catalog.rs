//! The vocabulary of the model catalog (provider kinds, authentication,
//! capabilities, release status) and what a catalog preset implies for the
//! model spec built from it.
use vstd::prelude::*;

use crate::text::same_text;
use crate::types::{ModelCapabilities, ModelSpec, ModelSpecV, ThinkingLevel};

verus! {

/// Whether a provider's models run on a remote API or on local hardware.
#[derive(Debug, Clone, Copy, PartialEq, Eq, Structural)]
pub enum ProviderKind {
    Remote,
    Local,
}

/// How requests to a provider are authenticated.
#[derive(Debug, Clone, Copy, PartialEq, Eq, Structural)]
pub enum AuthMode {
    Bearer,
    ApiKeyHeader,
    AwsSigv4,
}

/// Provider API version selector used when building request URLs.
#[derive(Debug, Clone, Copy, PartialEq, Eq, Structural)]
pub enum ApiVersion {
    V1,
    V1beta,
}

/// A capability a preset's model supports, as declared in the catalog.
#[derive(Debug, Clone, Copy, PartialEq, Eq, Structural)]
pub enum PresetCapability {
    Text,
    Tools,
    Thinking,
    ImagesIn,
    Streaming,
    StructuredOutput,
}

/// Release maturity of a preset's model at the provider.
#[derive(Debug, Clone, PartialEq, Eq)]
pub enum PresetStatus {
    Ga,
    Preview,
    /// The provider has retired (or announced retirement of) this model;
    /// `replacement_model_id` names the successor when one is known.
    Deprecated { replacement_model_id: Option<String> },
}

impl PresetStatus {
    /// `true` for [`PresetStatus::Deprecated`], whether or not a replacement
    /// model is recorded.
    pub fn is_deprecated(&self) -> (r: bool)
        ensures
            r == (self is Deprecated),
    {
        match self {
            PresetStatus::Deprecated { .. } => true,
            _ => false,
        }
    }
}

/// Whether a preset with this (optional) status is deprecated.
pub fn status_is_deprecated(status: &Option<PresetStatus>) -> (r: bool)
    ensures
        r == (status matches Some(s) && s is Deprecated),
{
    match status {
        Some(s) => s.is_deprecated(),
        None => false,
    }
}

/// The recorded replacement of a deprecated preset; `None` for a preset that
/// is not deprecated and for a deprecated one without a known successor.
pub fn replacement_model_id(status: &Option<PresetStatus>) -> (r: Option<&str>)
    ensures
        match status {
            Some(PresetStatus::Deprecated { replacement_model_id: Some(id) }) => r matches Some(x) && x@ == id@,
            _ => r is None,
        },
{
    match status {
        Some(PresetStatus::Deprecated { replacement_model_id: Some(id) }) => Some(id.as_str()),
        _ => None,
    }
}

/// Whether `cap` is among the declared capabilities.
pub open spec fn declares(caps: Seq<PresetCapability>, cap: PresetCapability) -> bool {
    caps.contains(cap)
}

/// The capabilities a preset declares, with its token limits.
pub open spec fn capabilities_spec(
    caps: Seq<PresetCapability>,
    context_window_tokens: Option<u64>,
    max_output_tokens: Option<u64>,
) -> ModelCapabilities {
    ModelCapabilities {
        supports_thinking: declares(caps, PresetCapability::Thinking),
        supports_vision: declares(caps, PresetCapability::ImagesIn),
        supports_tool_use: declares(caps, PresetCapability::Tools),
        supports_streaming: declares(caps, PresetCapability::Streaming),
        supports_structured_output: declares(caps, PresetCapability::StructuredOutput),
        max_context_window: context_window_tokens,
        max_output_tokens: max_output_tokens,
    }
}

/// Each flag of a preset's capabilities is true exactly when the preset's
/// list names the matching capability (thinking, images in, tools,
/// streaming, structured output), and the token limits are the preset's own.
pub proof fn law_capabilities_follow_declarations(
    caps: Seq<PresetCapability>,
    context_window_tokens: Option<u64>,
    max_output_tokens: Option<u64>,
)
    ensures
        ({
            let c = capabilities_spec(caps, context_window_tokens, max_output_tokens);
            &&& c.supports_thinking <==> exists|i: int| 0 <= i < caps.len() && caps[i] == PresetCapability::Thinking
            &&& c.supports_vision <==> exists|i: int| 0 <= i < caps.len() && caps[i] == PresetCapability::ImagesIn
            &&& c.supports_tool_use <==> exists|i: int| 0 <= i < caps.len() && caps[i] == PresetCapability::Tools
            &&& c.supports_streaming <==> exists|i: int| 0 <= i < caps.len() && caps[i] == PresetCapability::Streaming
            &&& c.supports_structured_output <==> exists|i: int|
                0 <= i < caps.len() && caps[i] == PresetCapability::StructuredOutput
            &&& c.max_context_window == context_window_tokens
            &&& c.max_output_tokens == max_output_tokens
        }),
{
}


fn declares_capability(caps: &[PresetCapability], cap: PresetCapability) -> (r: bool)
    ensures
        r == declares(caps@, cap),
{
    let mut i: usize = 0;
    while i < caps.len()
        invariant
            i <= caps@.len(),
            forall|j: int| 0 <= j < i ==> caps@[j] != cap,
        decreases caps@.len() - i,
    {
        if caps[i] == cap {
            return true;
        }
        i = i + 1;
    }
    false
}

/// Build [`ModelCapabilities`] from a preset's capability list and token
/// limits.
pub fn model_capabilities(
    caps: &[PresetCapability],
    context_window_tokens: Option<u64>,
    max_output_tokens: Option<u64>,
) -> (r: ModelCapabilities)
    ensures
        r == capabilities_spec(caps@, context_window_tokens, max_output_tokens),
{
    ModelCapabilities {
        supports_thinking: declares_capability(caps, PresetCapability::Thinking),
        supports_vision: declares_capability(caps, PresetCapability::ImagesIn),
        supports_tool_use: declares_capability(caps, PresetCapability::Tools),
        supports_streaming: declares_capability(caps, PresetCapability::Streaming),
        supports_structured_output: declares_capability(caps, PresetCapability::StructuredOutput),
        max_context_window: context_window_tokens,
        max_output_tokens,
    }
}

/// Thinking is on by default only for local thinking-capable models: local
/// inference treats any level but `Off` as "on", while remote thinking spends
/// billable tokens and stays opt-in.
pub open spec fn default_thinking(kind: ProviderKind, caps: ModelCapabilities) -> ThinkingLevel {
    if kind == ProviderKind::Local && caps.supports_thinking {
        ThinkingLevel::Medium
    } else {
        ThinkingLevel::Off
    }
}

/// A [`ModelSpec`] for a catalog preset: provider and model id, the preset's
/// capabilities, and the default thinking level for its kind of provider.
pub fn preset_model_spec(
    provider_key: &str,
    model_id: &str,
    provider_kind: ProviderKind,
    caps: &[PresetCapability],
    context_window_tokens: Option<u64>,
    max_output_tokens: Option<u64>,
) -> (r: ModelSpec)
    ensures
        r@ == (ModelSpecV {
            provider: provider_key@,
            model_id: model_id@,
            thinking_level: default_thinking(
                provider_kind,
                capabilities_spec(caps@, context_window_tokens, max_output_tokens),
            ),
            capabilities: Some(capabilities_spec(caps@, context_window_tokens, max_output_tokens)),
        }),
{
    let capabilities = model_capabilities(caps, context_window_tokens, max_output_tokens);
    let mut spec = ModelSpec::new(provider_key, model_id);
    if provider_kind == ProviderKind::Local && capabilities.supports_thinking {
        spec = spec.with_thinking_level(ThinkingLevel::Medium);
    }
    spec.with_capabilities(capabilities)
}

/// The identifiers of a catalog preset: its id within its provider and the
/// model it names.
#[derive(Debug, Clone)]
pub struct PresetKeys {
    pub id: String,
    pub model_id: String,
}

/// The identifiers of a catalog provider and of its presets, in catalog
/// order.
#[derive(Debug, Clone)]
pub struct ProviderKeys {
    pub key: String,
    pub presets: Vec<PresetKeys>,
}

pub open spec fn provider_key_at(c: Seq<ProviderKeys>, i: int) -> Seq<char> {
    c[i].key@
}

pub open spec fn preset_id_at(c: Seq<ProviderKeys>, i: int, j: int) -> Seq<char> {
    c[i].presets@[j].id@
}

pub open spec fn preset_model_at(c: Seq<ProviderKeys>, i: int, j: int) -> Seq<char> {
    c[i].presets@[j].model_id@
}

/// The first provider with key `key`.
pub open spec fn first_provider(c: Seq<ProviderKeys>, key: Seq<char>, i: int) -> bool {
    &&& 0 <= i < c.len()
    &&& provider_key_at(c, i) == key
    &&& forall|k: int| 0 <= k < i ==> provider_key_at(c, k) != key
}

/// The first preset of provider `i` with id `id`.
pub open spec fn first_preset(c: Seq<ProviderKeys>, i: int, id: Seq<char>, j: int) -> bool {
    &&& 0 <= j < c[i].presets@.len()
    &&& preset_id_at(c, i, j) == id
    &&& forall|k: int| 0 <= k < j ==> preset_id_at(c, i, k) != id
}

/// Preset `j` of provider `i` is the one a lookup of `(key, id)` finds: the
/// first preset with that id in the first provider with that key.
pub open spec fn resolves_to(c: Seq<ProviderKeys>, key: Seq<char>, id: Seq<char>, i: int, j: int) -> bool {
    first_provider(c, key, i) && first_preset(c, i, id, j)
}

/// Where the lookup of `key` finds a provider, if it does.
pub fn find_provider(catalog: &[ProviderKeys], key: &str) -> (r: Option<usize>)
    ensures
        match r {
            Some(i) => first_provider(catalog@, key@, i as int),
            None => forall|k: int| 0 <= k < catalog@.len() ==> provider_key_at(catalog@, k) != key@,
        },
{
    let mut i: usize = 0;
    while i < catalog.len()
        invariant
            i <= catalog@.len(),
            forall|k: int| 0 <= k < i ==> provider_key_at(catalog@, k) != key@,
        decreases catalog@.len() - i,
    {
        if same_text(catalog[i].key.as_str(), key) {
            return Some(i);
        }
        i = i + 1;
    }
    None
}

fn find_preset_in(catalog: &[ProviderKeys], i: usize, id: &str) -> (r: Option<usize>)
    requires
        i < catalog@.len(),
    ensures
        match r {
            Some(j) => first_preset(catalog@, i as int, id@, j as int),
            None => forall|k: int| 0 <= k < catalog@[i as int].presets@.len() ==> preset_id_at(catalog@, i as int, k) != id@,
        },
{
    let presets = &catalog[i].presets;
    let mut j: usize = 0;
    while j < presets.len()
        invariant
            j <= presets@.len(),
            presets@ == catalog@[i as int].presets@,
            forall|k: int| 0 <= k < j ==> preset_id_at(catalog@, i as int, k) != id@,
        decreases presets@.len() - j,
    {
        if same_text(presets[j].id.as_str(), id) {
            return Some(j);
        }
        j = j + 1;
    }
    None
}

/// Where the lookup of preset `id` of provider `key` ends: the first preset
/// with that id in the first provider with that key; `None` when either is
/// missing.
pub fn find_preset(catalog: &[ProviderKeys], key: &str, id: &str) -> (r: Option<(usize, usize)>)
    ensures
        match r {
            Some((i, j)) => resolves_to(catalog@, key@, id@, i as int, j as int),
            None => forall|i: int, j: int| !resolves_to(catalog@, key@, id@, i, j),
        },
{
    match find_provider(catalog, key) {
        Some(i) => match find_preset_in(catalog, i, id) {
            Some(j) => Some((i, j)),
            None => {
                assert forall|a: int, b: int| !resolves_to(catalog@, key@, id@, a, b) by {
                    if resolves_to(catalog@, key@, id@, a, b) {
                        if a < i {
                        } else if a > i {
                            assert(provider_key_at(catalog@, i as int) == key@);
                        }
                    }
                }
                None
            },
        },
        None => None,
    }
}

/// The first preset, in catalog order, that names `model_id`.
pub open spec fn first_model_match(c: Seq<ProviderKeys>, model_id: Seq<char>, i: int, j: int) -> bool {
    &&& 0 <= i < c.len()
    &&& 0 <= j < c[i].presets@.len()
    &&& preset_model_at(c, i, j) == model_id
    &&& forall|a: int, b: int| #![trigger preset_model_at(c, a, b)] 0 <= a < i && 0 <= b < c[a].presets@.len() ==> preset_model_at(c, a, b) != model_id
    &&& forall|b: int| 0 <= b < j ==> preset_model_at(c, i, b) != model_id
}

/// Search every provider, in order, for the first preset naming
/// `model_id`, then resolve it by its provider key and preset id (as a
/// lookup by key and id would).
pub fn find_preset_by_model_id(catalog: &[ProviderKeys], model_id: &str) -> (r: Option<(usize, usize)>)
    ensures
        match r {
            Some((i, j)) => exists|a: int, b: int| first_model_match(catalog@, model_id@, a, b)
                && resolves_to(catalog@, provider_key_at(catalog@, a), preset_id_at(catalog@, a, b), i as int, j as int),
            None => forall|a: int, b: int| !first_model_match(catalog@, model_id@, a, b)
                || forall|x: int, y: int| !resolves_to(catalog@, provider_key_at(catalog@, a), preset_id_at(catalog@, a, b), x, y),
        },
{
    let mut i: usize = 0;
    while i < catalog.len()
        invariant
            i <= catalog@.len(),
            forall|a: int, b: int| #![trigger preset_model_at(catalog@, a, b)] 0 <= a < i && 0 <= b < catalog@[a].presets@.len() ==> preset_model_at(catalog@, a, b) != model_id@,
        decreases catalog@.len() - i,
    {
        let presets = &catalog[i].presets;
        let mut j: usize = 0;
        while j < presets.len()
            invariant
                i < catalog@.len(),
                j <= presets@.len(),
                presets@ == catalog@[i as int].presets@,
                forall|a: int, b: int| #![trigger preset_model_at(catalog@, a, b)] 0 <= a < i && 0 <= b < catalog@[a].presets@.len() ==> preset_model_at(catalog@, a, b) != model_id@,
                forall|b: int| 0 <= b < j ==> preset_model_at(catalog@, i as int, b) != model_id@,
            decreases presets@.len() - j,
        {
            if same_text(presets[j].model_id.as_str(), model_id) {
                assert(first_model_match(catalog@, model_id@, i as int, j as int));
                let r = find_preset(catalog, catalog[i].key.as_str(), presets[j].id.as_str());
                return r;
            }
            j = j + 1;
        }
        i = i + 1;
    }
    None
}

/// Whether a pricing table `age_days` old is stale under a threshold of
/// `threshold_days`: only strictly older tables are.
pub fn pricing_is_stale(age_days: i64, threshold_days: u32) -> (r: bool)
    ensures
        r == (age_days > threshold_days),
{
    age_days > threshold_days as i64
}

} // verus!
