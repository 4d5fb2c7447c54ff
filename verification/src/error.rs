use vstd::prelude::*;
use vstd::string::StringExecFns;

verus! {

/// Errors raised while loading or validating configuration.
#[derive(Debug)]
pub enum ConfigError {
    Load(String),
    Validation(String),
}

/// The mathematical model of `ConfigError`.
pub enum ConfigErrorV {
    Load(Seq<char>),
    Validation(Seq<char>),
}

/// The mathematical model of `ProviderError`.
pub enum ProviderErrorV {
    Auth(Seq<char>),
    Api(Seq<char>),
    Network(Seq<char>),
    Serialization(Seq<char>),
}

/// The mathematical model of `WorkflowError`.
pub enum WorkflowErrorV {
    Parse(Seq<char>),
    Execution(Seq<char>),
}

/// The mathematical model of `RepositoryError`.
pub enum RepositoryErrorV {
    Git(Seq<char>),
    Scan(Seq<char>),
}

/// The mathematical model of `DocGenError`.
pub enum DocGenErrorV {
    Template(Seq<char>),
    Generation(Seq<char>),
    Io(Seq<char>),
}

/// The mathematical model of `XzardgzError`.
pub enum XzardgzErrorV {
    Config(ConfigErrorV),
    Provider(ProviderErrorV),
    Workflow(WorkflowErrorV),
    Repository(RepositoryErrorV),
    Io(Seq<char>),
    DocGen(DocGenErrorV),
}

impl View for ConfigError {
    type V = ConfigErrorV;

    open spec fn view(&self) -> ConfigErrorV {
        match self {
            ConfigError::Load(s) => ConfigErrorV::Load(s@),
            ConfigError::Validation(s) => ConfigErrorV::Validation(s@),
        }
    }
}

impl View for ProviderError {
    type V = ProviderErrorV;

    open spec fn view(&self) -> ProviderErrorV {
        match self {
            ProviderError::Auth(s) => ProviderErrorV::Auth(s@),
            ProviderError::Api(s) => ProviderErrorV::Api(s@),
            ProviderError::Network(s) => ProviderErrorV::Network(s@),
            ProviderError::Serialization(s) => ProviderErrorV::Serialization(s@),
        }
    }
}

impl View for WorkflowError {
    type V = WorkflowErrorV;

    open spec fn view(&self) -> WorkflowErrorV {
        match self {
            WorkflowError::Parse(s) => WorkflowErrorV::Parse(s@),
            WorkflowError::Execution(s) => WorkflowErrorV::Execution(s@),
        }
    }
}

impl View for RepositoryError {
    type V = RepositoryErrorV;

    open spec fn view(&self) -> RepositoryErrorV {
        match self {
            RepositoryError::Git(s) => RepositoryErrorV::Git(s@),
            RepositoryError::Scan(s) => RepositoryErrorV::Scan(s@),
        }
    }
}

impl View for DocGenError {
    type V = DocGenErrorV;

    open spec fn view(&self) -> DocGenErrorV {
        match self {
            DocGenError::Template(s) => DocGenErrorV::Template(s@),
            DocGenError::Generation(s) => DocGenErrorV::Generation(s@),
            DocGenError::Io(s) => DocGenErrorV::Io(s@),
        }
    }
}

impl View for XzardgzError {
    type V = XzardgzErrorV;

    open spec fn view(&self) -> XzardgzErrorV {
        match self {
            XzardgzError::Config(e) => XzardgzErrorV::Config(e@),
            XzardgzError::Provider(e) => XzardgzErrorV::Provider(e@),
            XzardgzError::Workflow(e) => XzardgzErrorV::Workflow(e@),
            XzardgzError::Repository(e) => XzardgzErrorV::Repository(e@),
            XzardgzError::Io(s) => XzardgzErrorV::Io(s@),
            XzardgzError::DocGen(e) => XzardgzErrorV::DocGen(e@),
        }
    }
}

/// Errors raised by a language-model provider.
#[derive(Debug)]
pub enum ProviderError {
    Auth(String),
    Api(String),
    Network(String),
    Serialization(String),
}

/// Errors raised while parsing or executing a workflow plan.
#[derive(Debug)]
pub enum WorkflowError {
    Parse(String),
    Execution(String),
}

/// Errors raised by repository scanning or version-control operations.
#[derive(Debug)]
pub enum RepositoryError {
    Git(String),
    Scan(String),
}

/// Errors raised while generating documentation.
#[derive(Debug)]
pub enum DocGenError {
    Template(String),
    Generation(String),
    Io(String),
}

/// The top-level error type: every component's failure converts into it.
#[derive(Debug)]
pub enum XzardgzError {
    Config(ConfigError),
    Provider(ProviderError),
    Workflow(WorkflowError),
    Repository(RepositoryError),
    Io(String),
    DocGen(DocGenError),
}

impl ConfigError {
    pub open spec fn spec_message(&self) -> Seq<char> {
        match self {
            ConfigError::Load(s) => "Failed to load config: "@ + s@,
            ConfigError::Validation(s) => "Validation error: "@ + s@,
        }
    }

    /// The human-readable description of this error.
    pub fn message(&self) -> (r: String)
        ensures
            r@ == self.spec_message(),
    {
        match self {
            ConfigError::Load(s) => {
                let mut m = "Failed to load config: ".to_owned();
                m.append(s.as_str());
                m
            },
            ConfigError::Validation(s) => {
                let mut m = "Validation error: ".to_owned();
                m.append(s.as_str());
                m
            },
        }
    }
}

impl ProviderError {
    pub open spec fn spec_message(&self) -> Seq<char> {
        match self {
            ProviderError::Auth(s) => "Authentication failed: "@ + s@,
            ProviderError::Api(s) => "API error: "@ + s@,
            ProviderError::Network(s) => "Network error: "@ + s@,
            ProviderError::Serialization(s) => "Serialization error: "@ + s@,
        }
    }

    /// The human-readable description of this error.
    pub fn message(&self) -> (r: String)
        ensures
            r@ == self.spec_message(),
    {
        match self {
            ProviderError::Auth(s) => {
                let mut m = "Authentication failed: ".to_owned();
                m.append(s.as_str());
                m
            },
            ProviderError::Api(s) => {
                let mut m = "API error: ".to_owned();
                m.append(s.as_str());
                m
            },
            ProviderError::Network(s) => {
                let mut m = "Network error: ".to_owned();
                m.append(s.as_str());
                m
            },
            ProviderError::Serialization(s) => {
                let mut m = "Serialization error: ".to_owned();
                m.append(s.as_str());
                m
            },
        }
    }
}

impl WorkflowError {
    pub open spec fn spec_message(&self) -> Seq<char> {
        match self {
            WorkflowError::Parse(s) => "Plan parsing failed: "@ + s@,
            WorkflowError::Execution(s) => "Execution failed: "@ + s@,
        }
    }

    /// The human-readable description of this error.
    pub fn message(&self) -> (r: String)
        ensures
            r@ == self.spec_message(),
    {
        match self {
            WorkflowError::Parse(s) => {
                let mut m = "Plan parsing failed: ".to_owned();
                m.append(s.as_str());
                m
            },
            WorkflowError::Execution(s) => {
                let mut m = "Execution failed: ".to_owned();
                m.append(s.as_str());
                m
            },
        }
    }
}

impl RepositoryError {
    pub open spec fn spec_message(&self) -> Seq<char> {
        match self {
            RepositoryError::Git(s) => "Git operation failed: "@ + s@,
            RepositoryError::Scan(s) => "Scan failed: "@ + s@,
        }
    }

    /// The human-readable description of this error.
    pub fn message(&self) -> (r: String)
        ensures
            r@ == self.spec_message(),
    {
        match self {
            RepositoryError::Git(s) => {
                let mut m = "Git operation failed: ".to_owned();
                m.append(s.as_str());
                m
            },
            RepositoryError::Scan(s) => {
                let mut m = "Scan failed: ".to_owned();
                m.append(s.as_str());
                m
            },
        }
    }
}

impl DocGenError {
    pub open spec fn spec_message(&self) -> Seq<char> {
        match self {
            DocGenError::Template(s) => "Template error: "@ + s@,
            DocGenError::Generation(s) => "Generation error: "@ + s@,
            DocGenError::Io(s) => "IO error: "@ + s@,
        }
    }

    /// The human-readable description of this error.
    pub fn message(&self) -> (r: String)
        ensures
            r@ == self.spec_message(),
    {
        match self {
            DocGenError::Template(s) => {
                let mut m = "Template error: ".to_owned();
                m.append(s.as_str());
                m
            },
            DocGenError::Generation(s) => {
                let mut m = "Generation error: ".to_owned();
                m.append(s.as_str());
                m
            },
            DocGenError::Io(s) => {
                let mut m = "IO error: ".to_owned();
                m.append(s.as_str());
                m
            },
        }
    }
}

impl XzardgzError {
    pub open spec fn spec_message(&self) -> Seq<char> {
        match self {
            XzardgzError::Config(e) => "Configuration error: "@ + e.spec_message(),
            XzardgzError::Provider(e) => "Provider error: "@ + e.spec_message(),
            XzardgzError::Workflow(e) => "Workflow error: "@ + e.spec_message(),
            XzardgzError::Repository(e) => "Repository error: "@ + e.spec_message(),
            XzardgzError::Io(s) => "IO error: "@ + s@,
            XzardgzError::DocGen(e) => "Documentation generation error: "@ + e.spec_message(),
        }
    }

    /// The human-readable description of this error.
    pub fn message(&self) -> (r: String)
        ensures
            r@ == self.spec_message(),
    {
        match self {
            XzardgzError::Config(e) => {
                let mut m = "Configuration error: ".to_owned();
                m.append(e.message().as_str());
                m
            },
            XzardgzError::Provider(e) => {
                let mut m = "Provider error: ".to_owned();
                m.append(e.message().as_str());
                m
            },
            XzardgzError::Workflow(e) => {
                let mut m = "Workflow error: ".to_owned();
                m.append(e.message().as_str());
                m
            },
            XzardgzError::Repository(e) => {
                let mut m = "Repository error: ".to_owned();
                m.append(e.message().as_str());
                m
            },
            XzardgzError::Io(s) => {
                let mut m = "IO error: ".to_owned();
                m.append(s.as_str());
                m
            },
            XzardgzError::DocGen(e) => {
                let mut m = "Documentation generation error: ".to_owned();
                m.append(e.message().as_str());
                m
            },
        }
    }
}


impl ConfigErrorV {
    /// The modelled human-readable description.
    pub open spec fn spec_message(&self) -> Seq<char> {
        match self {
            ConfigErrorV::Load(s) => "Failed to load config: "@ + *s,
            ConfigErrorV::Validation(s) => "Validation error: "@ + *s,
        }
    }
}

impl ProviderErrorV {
    /// The modelled human-readable description.
    pub open spec fn spec_message(&self) -> Seq<char> {
        match self {
            ProviderErrorV::Auth(s) => "Authentication failed: "@ + *s,
            ProviderErrorV::Api(s) => "API error: "@ + *s,
            ProviderErrorV::Network(s) => "Network error: "@ + *s,
            ProviderErrorV::Serialization(s) => "Serialization error: "@ + *s,
        }
    }
}

impl WorkflowErrorV {
    /// The modelled human-readable description.
    pub open spec fn spec_message(&self) -> Seq<char> {
        match self {
            WorkflowErrorV::Parse(s) => "Plan parsing failed: "@ + *s,
            WorkflowErrorV::Execution(s) => "Execution failed: "@ + *s,
        }
    }
}

impl RepositoryErrorV {
    /// The modelled human-readable description.
    pub open spec fn spec_message(&self) -> Seq<char> {
        match self {
            RepositoryErrorV::Git(s) => "Git operation failed: "@ + *s,
            RepositoryErrorV::Scan(s) => "Scan failed: "@ + *s,
        }
    }
}

impl DocGenErrorV {
    /// The modelled human-readable description.
    pub open spec fn spec_message(&self) -> Seq<char> {
        match self {
            DocGenErrorV::Template(s) => "Template error: "@ + *s,
            DocGenErrorV::Generation(s) => "Generation error: "@ + *s,
            DocGenErrorV::Io(s) => "IO error: "@ + *s,
        }
    }
}

impl XzardgzErrorV {
    /// The modelled human-readable description.
    pub open spec fn spec_message(&self) -> Seq<char> {
        match self {
            XzardgzErrorV::Config(e) => "Configuration error: "@ + e.spec_message(),
            XzardgzErrorV::Provider(e) => "Provider error: "@ + e.spec_message(),
            XzardgzErrorV::Workflow(e) => "Workflow error: "@ + e.spec_message(),
            XzardgzErrorV::Repository(e) => "Repository error: "@ + e.spec_message(),
            XzardgzErrorV::Io(s) => "IO error: "@ + *s,
            XzardgzErrorV::DocGen(e) => "Documentation generation error: "@ + e.spec_message(),
        }
    }
}

/// The executable and the modelled descriptions agree.
pub proof fn lemma_message_view(e: &XzardgzError)
    ensures
        e.spec_message() == e@.spec_message(),
{
}

impl From<ConfigError> for XzardgzError {
    fn from(e: ConfigError) -> (r: XzardgzError)
        ensures
            r == XzardgzError::Config(e),
    {
        XzardgzError::Config(e)
    }
}

impl vstd::std_specs::convert::FromSpecImpl<ConfigError> for XzardgzError {
    open spec fn obeys_from_spec() -> bool {
        true
    }

    open spec fn from_spec(e: ConfigError) -> XzardgzError {
        XzardgzError::Config(e)
    }
}

impl From<ProviderError> for XzardgzError {
    fn from(e: ProviderError) -> (r: XzardgzError)
        ensures
            r == XzardgzError::Provider(e),
    {
        XzardgzError::Provider(e)
    }
}

impl vstd::std_specs::convert::FromSpecImpl<ProviderError> for XzardgzError {
    open spec fn obeys_from_spec() -> bool {
        true
    }

    open spec fn from_spec(e: ProviderError) -> XzardgzError {
        XzardgzError::Provider(e)
    }
}

impl From<WorkflowError> for XzardgzError {
    fn from(e: WorkflowError) -> (r: XzardgzError)
        ensures
            r == XzardgzError::Workflow(e),
    {
        XzardgzError::Workflow(e)
    }
}

impl vstd::std_specs::convert::FromSpecImpl<WorkflowError> for XzardgzError {
    open spec fn obeys_from_spec() -> bool {
        true
    }

    open spec fn from_spec(e: WorkflowError) -> XzardgzError {
        XzardgzError::Workflow(e)
    }
}

impl From<RepositoryError> for XzardgzError {
    fn from(e: RepositoryError) -> (r: XzardgzError)
        ensures
            r == XzardgzError::Repository(e),
    {
        XzardgzError::Repository(e)
    }
}

impl vstd::std_specs::convert::FromSpecImpl<RepositoryError> for XzardgzError {
    open spec fn obeys_from_spec() -> bool {
        true
    }

    open spec fn from_spec(e: RepositoryError) -> XzardgzError {
        XzardgzError::Repository(e)
    }
}

impl From<DocGenError> for XzardgzError {
    fn from(e: DocGenError) -> (r: XzardgzError)
        ensures
            r == XzardgzError::DocGen(e),
    {
        XzardgzError::DocGen(e)
    }
}

impl vstd::std_specs::convert::FromSpecImpl<DocGenError> for XzardgzError {
    open spec fn obeys_from_spec() -> bool {
        true
    }

    open spec fn from_spec(e: DocGenError) -> XzardgzError {
        XzardgzError::DocGen(e)
    }
}

} // verus!
