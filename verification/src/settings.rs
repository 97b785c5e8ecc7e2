//! The user's provider settings.
use vstd::prelude::*;

use crate::llm::providers::{find_preset, presets_spec};

verus! {

/// Which provider, endpoint and model scans use.
#[derive(Debug, Clone)]
pub struct Settings {
    pub provider_id: String,
    pub base_url: String,
    pub model: String,
}

/// The model name used when none was chosen.
pub const FALLBACK_MODEL: &'static str = "local-model";

impl Default for Settings {
    /// The settings before the user picks anything: the LM Studio preset,
    /// which works offline with no key to set up.
    fn default() -> (s: Settings)
        ensures
            s.provider_id@ == presets_spec()[0].id,
            s.base_url@ == presets_spec()[0].base_url,
            s.model@ == FALLBACK_MODEL@,
    {
        let found = find_preset("lmstudio");
        proof {
            assert(presets_spec()[0].id == "lmstudio"@);
        }
        match found {
            Some(p) => {
                proof {
                    let i = choose|i: int|
                        crate::llm::providers::is_first_preset_with_id("lmstudio"@, i)
                            && p@ == presets_spec()[i];
                    assert(i == 0);
                }
                Settings {
                    provider_id: String::from_str(p.id),
                    base_url: String::from_str(p.base_url),
                    model: String::from_str(FALLBACK_MODEL),
                }
            },
            None => {
                proof {
                    assert(false);
                }
                Settings {
                    provider_id: String::new(),
                    base_url: String::new(),
                    model: String::new(),
                }
            },
        }
    }
}

} // verus!
