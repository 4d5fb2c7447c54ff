use vstd::prelude::*;
use vstd::string::StringExecFns;

verus! {

/// Which provider backend to use, and with which model.
#[derive(Debug)]
pub struct ProviderConfig {
    pub provider_type: String,
    pub model: Option<String>,
}

/// Bounds on an agent run.
#[derive(Debug)]
pub struct AgentConfig {
    pub max_turns: u32,
    pub timeout_seconds: u64,
}

/// What the repository scanner should skip.
#[derive(Debug)]
pub struct RepositoryConfig {
    pub ignore_patterns: Vec<String>,
}

/// Where generated documents go.
#[derive(Debug)]
pub struct DocumentationConfig {
    pub output_dir: String,
}

/// The whole configuration. Loading it from a file or the environment happens
/// outside this library; the defaults are fixed here.
#[derive(Debug)]
pub struct Config {
    pub provider: ProviderConfig,
    pub agent: AgentConfig,
    pub repository: RepositoryConfig,
    pub documentation: DocumentationConfig,
}

impl Default for Config {
    /// The built-in defaults: a local model backend, ten turns, a ten-minute
    /// timeout, the build and version-control directories ignored, and
    /// documents under `docs`.
    fn default() -> (r: Config)
        ensures
            r.provider.provider_type@ == "ollama"@,
            r.provider.model matches Some(m) && m@ == "qwen2.5-coder"@,
            r.agent.max_turns == 10,
            r.agent.timeout_seconds == 600,
            r.repository.ignore_patterns@.len() == 2,
            r.repository.ignore_patterns@[0]@ == "target"@,
            r.repository.ignore_patterns@[1]@ == ".git"@,
            r.documentation.output_dir@ == "docs"@,
    {
        let mut ignore_patterns: Vec<String> = Vec::new();
        ignore_patterns.push("target".to_owned());
        ignore_patterns.push(".git".to_owned());
        Config {
            provider: ProviderConfig {
                provider_type: "ollama".to_owned(),
                model: Some("qwen2.5-coder".to_owned()),
            },
            agent: AgentConfig { max_turns: 10, timeout_seconds: 600 },
            repository: RepositoryConfig { ignore_patterns },
            documentation: DocumentationConfig { output_dir: "docs".to_owned() },
        }
    }
}

} // verus!
