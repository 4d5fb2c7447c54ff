use crate::error::{ProviderError, ProviderErrorV};
use crate::text::str_eq;
use vstd::prelude::*;
use vstd::string::StringExecFns;

verus! {

/// Chooses the provider backend a configuration names. Building the backend —
/// a network client — happens outside this library; the choice of backend and
/// of its default model is decided here.
pub struct ProviderFactory;

/// Which backend a provider type names, with the model to use: the named one,
/// or the backend's default.
pub enum ProviderChoice {
    Ollama { base_url: Seq<char>, model: Seq<char> },
    Copilot { model: Seq<char> },
}

/// What the factory decides for a provider type and an optional model name.
pub open spec fn spec_choose(
    provider_type: Seq<char>,
    model: Option<Seq<char>>,
) -> Result<ProviderChoice, ProviderErrorV> {
    if provider_type == "ollama"@ {
        Ok(
            ProviderChoice::Ollama {
                base_url: "http://localhost:11434"@,
                model: match model {
                    Some(m) => m,
                    None => "qwen2.5-coder"@,
                },
            },
        )
    } else if provider_type == "copilot"@ {
        Ok(
            ProviderChoice::Copilot {
                model: match model {
                    Some(m) => m,
                    None => "gpt-4"@,
                },
            },
        )
    } else {
        Err(ProviderErrorV::Auth("Unknown provider: "@ + provider_type))
    }
}

impl ProviderFactory {
    /// The model the given backend runs when the configuration names none.
    pub fn resolve_model(provider_type: &str, model: Option<String>) -> (r: Result<
        String,
        ProviderError,
    >)
        ensures
            match spec_choose(provider_type@, match model {
                Some(m) => Some(m@),
                None => None,
            }) {
                Ok(ProviderChoice::Ollama { model: sm, .. }) => r matches Ok(m) && m@ == sm,
                Ok(ProviderChoice::Copilot { model: sm }) => r matches Ok(m) && m@ == sm,
                Err(ev) => r matches Err(e) && e@ == ev,
            },
    {
        if str_eq(provider_type, "ollama") {
            match model {
                Some(m) => Ok(m),
                None => Ok("qwen2.5-coder".to_owned()),
            }
        } else if str_eq(provider_type, "copilot") {
            match model {
                Some(m) => Ok(m),
                None => Ok("gpt-4".to_owned()),
            }
        } else {
            let mut m = "Unknown provider: ".to_owned();
            m.append(provider_type);
            Err(ProviderError::Auth(m))
        }
    }
}

} // verus!
