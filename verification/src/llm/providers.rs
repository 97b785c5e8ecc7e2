//! The LLM backends the application ships presets for. All speak the same
//! OpenAI-compatible protocol; only the base URL and the need for a key
//! differ. Model lists are never hardcoded: they are fetched from each
//! provider.
use vstd::prelude::*;

use crate::text::str_eq;

verus! {

#[derive(Debug, Clone, Copy)]
pub struct ProviderPreset {
    pub id: &'static str,
    pub label: &'static str,
    /// Groups related presets under one heading (e.g. "OpenCode");
    /// `None` for a standalone entry.
    pub family: Option<&'static str>,
    pub base_url: &'static str,
    pub requires_key: bool,
}

pub struct PresetView {
    pub id: Seq<char>,
    pub label: Seq<char>,
    pub family: Option<Seq<char>>,
    pub base_url: Seq<char>,
    pub requires_key: bool,
}

impl View for ProviderPreset {
    type V = PresetView;

    open spec fn view(&self) -> PresetView {
        PresetView {
            id: self.id@,
            label: self.label@,
            family: match self.family {
                Some(f) => Some(f@),
                None => None,
            },
            base_url: self.base_url@,
            requires_key: self.requires_key,
        }
    }
}

pub open spec fn preset_v(
    id: Seq<char>,
    label: Seq<char>,
    family: Option<Seq<char>>,
    base_url: Seq<char>,
    requires_key: bool,
) -> PresetView {
    PresetView { id, label, family, base_url, requires_key }
}

/// The presets, in the order they are offered.
pub open spec fn presets_spec() -> Seq<PresetView> {
    seq![
        preset_v("lmstudio"@, "LM Studio (Local, Offline)"@, None, "http://localhost:1234/v1"@, false),
        preset_v("ollama"@, "Ollama (Local, Offline)"@, None, "http://localhost:11434/v1"@, false),
        preset_v(
            "groq"@,
            "Groq (Free Cloud, Recommended)"@,
            None,
            "https://api.groq.com/openai/v1"@,
            true,
        ),
        preset_v(
            "openrouter"@,
            "OpenRouter (Free Models)"@,
            None,
            "https://openrouter.ai/api/v1"@,
            true,
        ),
        preset_v(
            "opencode-zen"@,
            "OpenCode Zen"@,
            Some("OpenCode"@),
            "https://opencode.ai/zen/v1"@,
            true,
        ),
        preset_v(
            "opencode-go"@,
            "OpenCode Go"@,
            Some("OpenCode"@),
            "https://opencode.ai/zen/go/v1"@,
            true,
        ),
        preset_v(
            "gemini"@,
            "Google Gemini (OpenAI-Compatible)"@,
            None,
            "https://generativelanguage.googleapis.com/v1beta/openai"@,
            true,
        ),
        preset_v("custom"@, "Custom OpenAI-Compatible Endpoint"@, None, ""@, true),
    ]
}

pub open spec fn preset_views(ps: Seq<ProviderPreset>) -> Seq<PresetView> {
    ps.map_values(|p: ProviderPreset| p@)
}

/// Every preset the application offers, in order.
pub fn provider_presets() -> (r: Vec<ProviderPreset>)
    ensures
        preset_views(r@) == presets_spec(),
{
    let r = vec![
        ProviderPreset {
            id: "lmstudio",
            label: "LM Studio (Local, Offline)",
            family: None,
            base_url: "http://localhost:1234/v1",
            requires_key: false,
        },
        ProviderPreset {
            id: "ollama",
            label: "Ollama (Local, Offline)",
            family: None,
            base_url: "http://localhost:11434/v1",
            requires_key: false,
        },
        ProviderPreset {
            id: "groq",
            label: "Groq (Free Cloud, Recommended)",
            family: None,
            base_url: "https://api.groq.com/openai/v1",
            requires_key: true,
        },
        ProviderPreset {
            id: "openrouter",
            label: "OpenRouter (Free Models)",
            family: None,
            base_url: "https://openrouter.ai/api/v1",
            requires_key: true,
        },
        ProviderPreset {
            id: "opencode-zen",
            label: "OpenCode Zen",
            family: Some("OpenCode"),
            base_url: "https://opencode.ai/zen/v1",
            requires_key: true,
        },
        ProviderPreset {
            id: "opencode-go",
            label: "OpenCode Go",
            family: Some("OpenCode"),
            base_url: "https://opencode.ai/zen/go/v1",
            requires_key: true,
        },
        ProviderPreset {
            id: "gemini",
            label: "Google Gemini (OpenAI-Compatible)",
            family: None,
            base_url: "https://generativelanguage.googleapis.com/v1beta/openai",
            requires_key: true,
        },
        ProviderPreset {
            id: "custom",
            label: "Custom OpenAI-Compatible Endpoint",
            family: None,
            base_url: "",
            requires_key: true,
        },
    ];
    proof {
        assert(preset_views(r@) =~= presets_spec());
    }
    r
}

/// `i` is the first preset whose id is `id`.
pub open spec fn is_first_preset_with_id(id: Seq<char>, i: int) -> bool {
    0 <= i < presets_spec().len() && presets_spec()[i].id == id && forall|j: int|
        0 <= j < i ==> presets_spec()[j].id != id
}

/// The preset with id `id`, if there is one.
pub fn find_preset(id: &str) -> (r: Option<ProviderPreset>)
    ensures
        match r {
            Some(p) => exists|i: int| is_first_preset_with_id(id@, i) && p@ == presets_spec()[i],
            None => forall|i: int| 0 <= i < presets_spec().len() ==> presets_spec()[i].id != id@,
        },
{
    let all = provider_presets();
    let n = all.len();
    let mut i: usize = 0;
    while i < n
        invariant
            n == all@.len(),
            preset_views(all@) == presets_spec(),
            i <= n,
            forall|j: int| 0 <= j < i ==> presets_spec()[j].id != id@,
        decreases n - i,
    {
        let p = all[i];
        proof {
            assert(preset_views(all@)[i as int] == p@);
        }
        if str_eq(p.id, id) {
            assert(is_first_preset_with_id(id@, i as int));
            return Some(p);
        }
        i = i + 1;
    }
    None
}

} // verus!
