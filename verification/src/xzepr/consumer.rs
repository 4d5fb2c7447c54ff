use vstd::prelude::*;
use vstd::string::StringExecFns;

verus! {

/// Errors raised while assembling a consumer configuration.
#[derive(Debug)]
pub enum ConfigError {
    MissingConfig(String),
    InvalidSecurityProtocol(String),
    InvalidSaslMechanism(String),
}

impl ConfigError {
    /// The modelled human-readable description.
    pub open spec fn spec_message(&self) -> Seq<char> {
        match self {
            ConfigError::MissingConfig(s) => "Missing required configuration: "@ + s@,
            ConfigError::InvalidSecurityProtocol(s) => "Invalid security protocol: "@ + s@,
            ConfigError::InvalidSaslMechanism(s) => "Invalid SASL mechanism: "@ + s@,
        }
    }

    /// The human-readable description of this error.
    pub fn message(&self) -> (r: String)
        ensures
            r@ == self.spec_message(),
    {
        match self {
            ConfigError::MissingConfig(s) => {
                let mut m = "Missing required configuration: ".to_owned();
                m.append(s.as_str());
                m
            },
            ConfigError::InvalidSecurityProtocol(s) => {
                let mut m = "Invalid security protocol: ".to_owned();
                m.append(s.as_str());
                m
            },
            ConfigError::InvalidSaslMechanism(s) => {
                let mut m = "Invalid SASL mechanism: ".to_owned();
                m.append(s.as_str());
                m
            },
        }
    }
}

/// The security protocol of the broker connection.
#[derive(Debug, Clone, Copy, PartialEq, Eq, Structural)]
pub enum SecurityProtocol {
    Plaintext,
    Ssl,
    SaslPlaintext,
    SaslSsl,
}

/// The authentication mechanism used with the SASL protocols.
#[derive(Debug, Clone, Copy, PartialEq, Eq, Structural)]
pub enum SaslMechanism {
    Plain,
    ScramSha256,
    ScramSha512,
}

impl Default for SecurityProtocol {
    /// The unauthenticated default.
    fn default() -> (r: SecurityProtocol)
        ensures
            r == SecurityProtocol::Plaintext,
    {
        SecurityProtocol::Plaintext
    }
}

impl Default for SaslMechanism {
    /// The usual salted-challenge default.
    fn default() -> (r: SaslMechanism)
        ensures
            r == SaslMechanism::ScramSha256,
    {
        SaslMechanism::ScramSha256
    }
}

impl SecurityProtocol {
    /// The protocol's configuration name.
    pub open spec fn spec_str(&self) -> Seq<char> {
        match self {
            SecurityProtocol::Plaintext => "PLAINTEXT"@,
            SecurityProtocol::Ssl => "SSL"@,
            SecurityProtocol::SaslPlaintext => "SASL_PLAINTEXT"@,
            SecurityProtocol::SaslSsl => "SASL_SSL"@,
        }
    }

    /// The protocol's configuration name.
    pub fn as_str(&self) -> (r: &'static str)
        ensures
            r@ == self.spec_str(),
    {
        match self {
            SecurityProtocol::Plaintext => "PLAINTEXT",
            SecurityProtocol::Ssl => "SSL",
            SecurityProtocol::SaslPlaintext => "SASL_PLAINTEXT",
            SecurityProtocol::SaslSsl => "SASL_SSL",
        }
    }
}

impl SaslMechanism {
    /// The mechanism's configuration name.
    pub open spec fn spec_str(&self) -> Seq<char> {
        match self {
            SaslMechanism::Plain => "PLAIN"@,
            SaslMechanism::ScramSha256 => "SCRAM-SHA-256"@,
            SaslMechanism::ScramSha512 => "SCRAM-SHA-512"@,
        }
    }

    /// The mechanism's configuration name.
    pub fn as_str(&self) -> (r: &'static str)
        ensures
            r@ == self.spec_str(),
    {
        match self {
            SaslMechanism::Plain => "PLAIN",
            SaslMechanism::ScramSha256 => "SCRAM-SHA-256",
            SaslMechanism::ScramSha512 => "SCRAM-SHA-512",
        }
    }
}

/// Credentials for the SASL protocols.
#[derive(Debug)]
pub struct SaslConfig {
    pub mechanism: SaslMechanism,
    pub username: String,
    pub password: String,
}

/// Certificate locations for the TLS protocols.
#[derive(Debug)]
pub struct SslConfig {
    pub ca_location: Option<String>,
    pub certificate_location: Option<String>,
    pub key_location: Option<String>,
}

/// The consumer's connection settings. Reading them from the environment
/// happens outside this library; the defaults and the builders are fixed here.
#[derive(Debug)]
pub struct KafkaConsumerConfig {
    pub brokers: String,
    pub topic: String,
    pub group_id: String,
    pub service_name: String,
    pub security_protocol: SecurityProtocol,
    pub sasl_config: Option<SaslConfig>,
    pub ssl_config: Option<SslConfig>,
    pub auto_offset_reset: String,
    pub enable_auto_commit: bool,
    pub session_timeout_secs: u64,
}

impl KafkaConsumerConfig {
    /// A configuration with the defaults: a group id derived from the service
    /// name, the plaintext protocol, no credentials, reading from the earliest
    /// offset, auto-commit on, and a half-minute session timeout.
    pub fn new(brokers: &str, topic: &str, service_name: &str) -> (r: KafkaConsumerConfig)
        ensures
            r.brokers@ == brokers@,
            r.topic@ == topic@,
            r.group_id@ == "xzepr-consumer-"@ + service_name@,
            r.service_name@ == service_name@,
            r.security_protocol == SecurityProtocol::Plaintext,
            r.sasl_config is None,
            r.ssl_config is None,
            r.auto_offset_reset@ == "earliest"@,
            r.enable_auto_commit == true,
            r.session_timeout_secs == 30,
    {
        let mut group_id = "xzepr-consumer-".to_owned();
        group_id.append(service_name);
        KafkaConsumerConfig {
            brokers: brokers.to_owned(),
            topic: topic.to_owned(),
            group_id,
            service_name: service_name.to_owned(),
            security_protocol: SecurityProtocol::Plaintext,
            sasl_config: None,
            ssl_config: None,
            auto_offset_reset: "earliest".to_owned(),
            enable_auto_commit: true,
            session_timeout_secs: 30,
        }
    }

    /// The same configuration with the given consumer group id.
    pub fn with_group_id(self, group_id: &str) -> (r: KafkaConsumerConfig)
        ensures
            r.group_id@ == group_id@,
            r.brokers == self.brokers,
            r.topic == self.topic,
            r.service_name == self.service_name,
            r.security_protocol == self.security_protocol,
            r.sasl_config == self.sasl_config,
            r.ssl_config == self.ssl_config,
            r.auto_offset_reset == self.auto_offset_reset,
            r.enable_auto_commit == self.enable_auto_commit,
            r.session_timeout_secs == self.session_timeout_secs,
    {
        KafkaConsumerConfig { group_id: group_id.to_owned(), ..self }
    }

    /// The same configuration with salted-challenge credentials over TLS.
    pub fn with_sasl_scram_sha256(self, username: &str, password: &str) -> (r: KafkaConsumerConfig)
        ensures
            r.security_protocol == SecurityProtocol::SaslSsl,
            r.sasl_config matches Some(sc) && sc.mechanism == SaslMechanism::ScramSha256
                && sc.username@ == username@ && sc.password@ == password@,
            r.brokers == self.brokers,
            r.topic == self.topic,
            r.group_id == self.group_id,
            r.service_name == self.service_name,
            r.ssl_config == self.ssl_config,
            r.auto_offset_reset == self.auto_offset_reset,
            r.enable_auto_commit == self.enable_auto_commit,
            r.session_timeout_secs == self.session_timeout_secs,
    {
        KafkaConsumerConfig {
            security_protocol: SecurityProtocol::SaslSsl,
            sasl_config: Some(
                SaslConfig {
                    mechanism: SaslMechanism::ScramSha256,
                    username: username.to_owned(),
                    password: password.to_owned(),
                },
            ),
            ..self
        }
    }

    /// The same configuration trusting the given certificate authority.
    pub fn with_ssl(self, ca_location: &str) -> (r: KafkaConsumerConfig)
        ensures
            r.ssl_config matches Some(sc) && sc.ca_location matches Some(ca) && ca@ == ca_location@
                && sc.certificate_location is None && sc.key_location is None,
            r.brokers == self.brokers,
            r.topic == self.topic,
            r.group_id == self.group_id,
            r.service_name == self.service_name,
            r.security_protocol == self.security_protocol,
            r.sasl_config == self.sasl_config,
            r.auto_offset_reset == self.auto_offset_reset,
            r.enable_auto_commit == self.enable_auto_commit,
            r.session_timeout_secs == self.session_timeout_secs,
    {
        KafkaConsumerConfig {
            ssl_config: Some(
                SslConfig {
                    ca_location: Some(ca_location.to_owned()),
                    certificate_location: None,
                    key_location: None,
                },
            ),
            ..self
        }
    }
}

/// How a tracking-service client reaches its API. Reading it from the
/// environment happens outside this library.
#[derive(Debug)]
pub struct XzeprClientConfig {
    pub base_url: String,
    pub token: String,
    pub timeout_secs: u64,
}

/// The body of a receiver-creation response: the new receiver's id.
#[derive(Debug)]
pub struct CreateEventReceiverResponse {
    pub data: String,
}

/// The body of an event-creation response: the new event's id.
#[derive(Debug)]
pub struct CreateEventResponse {
    pub data: String,
}

/// How a listing response reports its window.
#[derive(Debug)]
pub struct PaginationMeta {
    pub limit: usize,
    pub offset: usize,
    pub total: usize,
    pub has_more: bool,
}

/// A page of results with its window.
#[derive(Debug)]
pub struct PaginatedResponse<T> {
    pub data: Vec<T>,
    pub pagination: PaginationMeta,
}

} // verus!
