//! The handshake message an agent sends once per control-connection
//! establishment, with its builder. Each type carries a mathematical model
//! (its view); the wire codec and its round-trip law speak of the models.
use vstd::prelude::*;
use crate::addr::IpAddress;
use crate::ident::{AgentId, ParseError};

verus! {

/// Authentication the agent declares: a secret key, or nothing. No
/// validation lives here; the auth backend consumes the declaration.
#[derive(Debug, Clone)]
pub enum Auth {
    /// Authentication using a secret key.
    Key(String),
    /// Anonymous authentication; the zero value.
    Anonymous,
}

/// Model of `Auth`: the key as its characters.
pub ghost enum AuthModel {
    Key(Seq<char>),
    Anonymous,
}

impl View for Auth {
    type V = AuthModel;

    open spec fn view(&self) -> AuthModel {
        match self {
            Auth::Key(s) => AuthModel::Key(s@),
            Auth::Anonymous => AuthModel::Anonymous,
        }
    }
}

impl Auth {
    /// A key declaration from its bare secret text.
    pub fn key_from_text(s: &str) -> (r: Auth)
        ensures
            r@ == AuthModel::Key(s@),
    {
        Auth::Key(s.to_owned())
    }
}

impl Default for Auth {
    /// Anonymous is the zero value.
    fn default() -> (r: Auth)
        ensures
            r@ == AuthModel::Anonymous,
    {
        Auth::Anonymous
    }
}

impl PartialEq for Auth {
    fn eq(&self, other: &Auth) -> (r: bool) {
        match (self, other) {
            (Auth::Key(a), Auth::Key(b)) => *a == *b,
            (Auth::Anonymous, Auth::Anonymous) => true,
            _ => false,
        }
    }
}

impl vstd::std_specs::cmp::PartialEqSpecImpl for Auth {
    open spec fn obeys_eq_spec() -> bool {
        true
    }

    open spec fn eq_spec(&self, other: &Auth) -> bool {
        self@ == other@
    }
}

/// Where the agent listens locally; advisory only, never trusted for
/// security decisions.
#[derive(Clone, Copy, Debug, PartialEq, Eq, Structural)]
pub struct LocalInfo {
    /// Local address of the agent.
    pub ip: IpAddress,
    /// Local port the agent is listening on.
    pub port: u16,
}

impl Default for LocalInfo {
    /// Loopback, port 8080, when the agent reports nothing.
    fn default() -> (r: LocalInfo)
        ensures
            r == (LocalInfo { ip: IpAddress { o0: 127, o1: 0, o2: 0, o3: 1 }, port: 8080 }),
    {
        LocalInfo { ip: IpAddress::loopback(), port: 8080 }
    }
}

/// The backend the agent forwards traffic to; same default policy as
/// `LocalInfo`.
#[derive(Clone, Copy, Debug, PartialEq, Eq, Structural)]
pub struct ServiceInfo {
    /// Address of the target service.
    pub target_ip: IpAddress,
    /// Port of the target service.
    pub target_port: u16,
}

impl Default for ServiceInfo {
    /// Loopback, port 8080, when the agent reports nothing.
    fn default() -> (r: ServiceInfo)
        ensures
            r == (ServiceInfo {
                target_ip: IpAddress { o0: 127, o1: 0, o2: 0, o3: 1 },
                target_port: 8080,
            }),
    {
        ServiceInfo { target_ip: IpAddress::loopback(), target_port: 8080 }
    }
}

/// Opaque encryption parameters a higher transport-security layer consumes;
/// absence means unencrypted.
#[derive(Debug, Clone)]
pub struct Encryption {
    /// Encryption method used.
    pub method: String,
    /// Public key used for encryption.
    pub key: String,
}

/// Model of `Encryption`.
pub ghost struct EncryptionModel {
    pub method: Seq<char>,
    pub key: Seq<char>,
}

impl View for Encryption {
    type V = EncryptionModel;

    open spec fn view(&self) -> EncryptionModel {
        EncryptionModel { method: self.method@, key: self.key@ }
    }
}

impl Encryption {
    pub fn new(method: String, key: String) -> (r: Encryption)
        ensures
            r@ == (EncryptionModel { method: method@, key: key@ }),
    {
        Encryption { method, key }
    }
}

impl PartialEq for Encryption {
    fn eq(&self, other: &Encryption) -> (r: bool) {
        self.method == other.method && self.key == other.key
    }
}

impl vstd::std_specs::cmp::PartialEqSpecImpl for Encryption {
    open spec fn obeys_eq_spec() -> bool {
        true
    }

    open spec fn eq_spec(&self, other: &Encryption) -> bool {
        self@ == other@
    }
}

/// What `semver::Version::parse` extracts from a text: its major, minor and
/// patch numbers, or nothing when the text is not a semantic version.
pub uninterp spec fn semver_of_text(s: Seq<char>) -> Option<(u64, u64, u64)>;

/// Relies on `semver::Version::parse`: the major, minor and patch numbers
/// of the version the text denotes, `None` when it denotes none. The result
/// depends on the text alone.
#[verifier::external_body]
fn parse_semver(s: &str) -> (r: Option<(u64, u64, u64)>)
    ensures
        r == semver_of_text(s@),
{
    match semver::Version::parse(s) {
        Ok(v) => Some((v.major, v.minor, v.patch)),
        Err(_) => None,
    }
}

/// Model of `Version`: the text as written, with the numbers read out of it.
pub ghost struct VersionModel {
    pub text: Seq<char>,
    pub major: u64,
    pub minor: u64,
    pub patch: u64,
}

/// The model holds what parsing its own text yields.
pub open spec fn version_model_wf(m: VersionModel) -> bool {
    semver_of_text(m.text) == Some((m.major, m.minor, m.patch))
}

/// A semantic version: the text the agent sent, together with the numbers
/// parsed out of it. Values exist only for texts the parser accepts.
#[derive(Debug)]
pub struct Version {
    text: String,
    major: u64,
    minor: u64,
    patch: u64,
}

impl View for Version {
    type V = VersionModel;

    closed spec fn view(&self) -> VersionModel {
        VersionModel { text: self.text@, major: self.major, minor: self.minor, patch: self.patch }
    }
}

impl Version {
    /// Every value holds what parsing its own text yields.
    #[verifier::type_invariant]
    pub open spec fn wf(&self) -> bool {
        version_model_wf(self@)
    }

    /// Parses a version text; malformed input is a reported error, never a
    /// crash.
    pub fn parse(s: &str) -> (r: Result<Version, ParseError>)
        ensures
            r is Ok <==> semver_of_text(s@) is Some,
            r matches Ok(v) ==> v@.text == s@ && version_model_wf(v@),
            r is Err ==> r == Err::<Version, ParseError>(ParseError::Version),
    {
        match parse_semver(s) {
            Some((major, minor, patch)) => Ok(
                Version { text: s.to_owned(), major, minor, patch },
            ),
            None => Err(ParseError::Version),
        }
    }

    /// The version text as the agent sent it.
    pub fn as_text(&self) -> (r: &str)
        ensures
            r@ == self@.text,
    {
        self.text.as_str()
    }

    pub fn major(&self) -> (r: u64)
        ensures
            r == self@.major,
    {
        self.major
    }

    pub fn minor(&self) -> (r: u64)
        ensures
            r == self@.minor,
    {
        self.minor
    }

    pub fn patch(&self) -> (r: u64)
        ensures
            r == self@.patch,
    {
        self.patch
    }
}

impl Clone for Version {
    /// The clone carries the same text and numbers.
    fn clone(&self) -> (r: Version)
        ensures
            r@ == self@,
    {
        proof {
            use_type_invariant(self);
        }
        Version {
            text: self.text.clone(),
            major: self.major,
            minor: self.minor,
            patch: self.patch,
        }
    }
}

impl PartialEq for Version {
    fn eq(&self, other: &Version) -> (r: bool) {
        self.text == other.text && self.major == other.major && self.minor == other.minor
            && self.patch == other.patch
    }
}

impl vstd::std_specs::cmp::PartialEqSpecImpl for Version {
    open spec fn obeys_eq_spec() -> bool {
        true
    }

    open spec fn eq_spec(&self, other: &Version) -> bool {
        self@ == other@
    }
}

/// Model of the whole handshake message.
#[verifier::ext_equal]
pub ghost struct HandshakeModel {
    pub agent_id: Seq<char>,
    pub agent_name: Option<Seq<char>>,
    pub auth: AuthModel,
    pub version: Option<VersionModel>,
    pub local_info: Option<LocalInfo>,
    pub service_info: Option<ServiceInfo>,
    pub encryption: Option<EncryptionModel>,
    pub heartbeat_interval: u32,
    pub timestamp: u64,
}

/// A well-formed message: the identifier is canonical text and any version
/// holds what its own text parses to.
pub open spec fn handshake_model_wf(m: HandshakeModel) -> bool {
    &&& crate::ident::is_uuid_text(m.agent_id)
    &&& (m.version matches Some(v) ==> version_model_wf(v))
}

/// The handshake message an agent exchanges with the server at
/// control-connection start.
#[derive(Debug, Clone)]
pub struct AgentHandshake {
    /// Unique identifier for the agent.
    pub agent_id: AgentId,
    /// Name of the agent.
    pub agent_name: Option<String>,
    /// Authentication declaration, a key or anonymous.
    pub auth: Auth,
    /// The version of the agent software.
    pub version: Option<Version>,
    /// Local network information of the agent.
    pub local_info: Option<LocalInfo>,
    /// The service the agent is providing or connecting to.
    pub service_info: Option<ServiceInfo>,
    /// Encryption information for secure communication.
    pub encryption: Option<Encryption>,
    /// Interval in milliseconds for the agent's heartbeat; 0 means no
    /// heartbeat.
    pub heartbeat_interval: u32,
    /// Timestamp of the handshake message, epoch milliseconds, set by the
    /// sender at construction time.
    pub timestamp: u64,
}

impl View for AgentHandshake {
    type V = HandshakeModel;

    open spec fn view(&self) -> HandshakeModel {
        HandshakeModel {
            agent_id: self.agent_id@,
            agent_name: match self.agent_name {
                Some(n) => Some(n@),
                None => None,
            },
            auth: self.auth@,
            version: match self.version {
                Some(v) => Some(v@),
                None => None,
            },
            local_info: self.local_info,
            service_info: self.service_info,
            encryption: match self.encryption {
                Some(e) => Some(e@),
                None => None,
            },
            heartbeat_interval: self.heartbeat_interval,
            timestamp: self.timestamp,
        }
    }
}

impl AgentHandshake {
    pub open spec fn wf(&self) -> bool {
        handshake_model_wf(self@)
    }

    /// A builder with nothing set yet.
    pub fn builder() -> (r: AgentHandshakeBuilder)
        ensures
            r@ == AgentHandshakeBuilder::empty_model(),
    {
        AgentHandshakeBuilder {
            agent_id: None,
            agent_name: None,
            auth: None,
            version: None,
            local_info: None,
            service_info: None,
            encryption: None,
            heartbeat_interval: None,
            timestamp: None,
        }
    }
}

impl PartialEq for AgentHandshake {
    fn eq(&self, other: &AgentHandshake) -> (r: bool) {
        let ids = self.agent_id == other.agent_id;
        let names = match (&self.agent_name, &other.agent_name) {
            (Some(a), Some(b)) => *a == *b,
            (None, None) => true,
            _ => false,
        };
        let auths = self.auth == other.auth;
        let versions = match (&self.version, &other.version) {
            (Some(a), Some(b)) => *a == *b,
            (None, None) => true,
            _ => false,
        };
        let locals = match (&self.local_info, &other.local_info) {
            (Some(a), Some(b)) => *a == *b,
            (None, None) => true,
            _ => false,
        };
        let services = match (&self.service_info, &other.service_info) {
            (Some(a), Some(b)) => *a == *b,
            (None, None) => true,
            _ => false,
        };
        let encryptions = match (&self.encryption, &other.encryption) {
            (Some(a), Some(b)) => *a == *b,
            (None, None) => true,
            _ => false,
        };
        let r = ids && names && auths && versions && locals && services && encryptions
            && self.heartbeat_interval == other.heartbeat_interval
            && self.timestamp == other.timestamp;
        proof {
            if r {
                assert(self@ =~= other@);
            }
        }
        r
    }
}

impl vstd::std_specs::cmp::PartialEqSpecImpl for AgentHandshake {
    open spec fn obeys_eq_spec() -> bool {
        true
    }

    open spec fn eq_spec(&self, other: &AgentHandshake) -> bool {
        self@ == other@
    }
}

/// Model of the builder: which fields were set, and to what.
#[verifier::ext_equal]
pub ghost struct BuilderModel {
    pub agent_id: Option<Seq<char>>,
    pub agent_name: Option<Seq<char>>,
    pub auth: Option<AuthModel>,
    pub version: Option<VersionModel>,
    pub local_info: Option<LocalInfo>,
    pub service_info: Option<ServiceInfo>,
    pub encryption: Option<EncryptionModel>,
    pub heartbeat_interval: Option<u32>,
    pub timestamp: Option<u64>,
}

/// Builder for `AgentHandshake`: building with nothing set yields a
/// complete, valid message — anonymous auth, zero heartbeat interval, zero
/// timestamp, no optional field, and a freshly generated identifier.
pub struct AgentHandshakeBuilder {
    agent_id: Option<AgentId>,
    agent_name: Option<String>,
    auth: Option<Auth>,
    version: Option<Version>,
    local_info: Option<LocalInfo>,
    service_info: Option<ServiceInfo>,
    encryption: Option<Encryption>,
    heartbeat_interval: Option<u32>,
    timestamp: Option<u64>,
}

impl View for AgentHandshakeBuilder {
    type V = BuilderModel;

    closed spec fn view(&self) -> BuilderModel {
        BuilderModel {
            agent_id: match self.agent_id {
                Some(id) => Some(id@),
                None => None,
            },
            agent_name: match self.agent_name {
                Some(n) => Some(n@),
                None => None,
            },
            auth: match self.auth {
                Some(a) => Some(a@),
                None => None,
            },
            version: match self.version {
                Some(v) => Some(v@),
                None => None,
            },
            local_info: self.local_info,
            service_info: self.service_info,
            encryption: match self.encryption {
                Some(e) => Some(e@),
                None => None,
            },
            heartbeat_interval: self.heartbeat_interval,
            timestamp: self.timestamp,
        }
    }
}

impl AgentHandshakeBuilder {
    /// The model of a builder with nothing set.
    pub open spec fn empty_model() -> BuilderModel {
        BuilderModel {
            agent_id: None,
            agent_name: None,
            auth: None,
            version: None,
            local_info: None,
            service_info: None,
            encryption: None,
            heartbeat_interval: None,
            timestamp: None,
        }
    }

    /// Assigns a fresh random identity, overwriting any previously set one.
    pub fn generate_agent_id(self) -> (r: AgentHandshakeBuilder)
        ensures
            r@ == (BuilderModel { agent_id: r@.agent_id, ..self@ }),
            r@.agent_id matches Some(t) && crate::ident::is_uuid_text(t),
    {
        AgentHandshakeBuilder { agent_id: Some(AgentId::generate()), ..self }
    }

    /// Sets the identity from its canonical text; malformed text is a
    /// reported error.
    pub fn agent_id_text(self, s: &str) -> (r: Result<AgentHandshakeBuilder, ParseError>)
        ensures
            r is Ok <==> crate::ident::is_uuid_text(s@),
            r matches Ok(b) ==> b@ == (BuilderModel { agent_id: Some(s@), ..self@ }),
            r is Err ==> r == Err::<AgentHandshakeBuilder, ParseError>(ParseError::Identifier),
    {
        match AgentId::parse_text(s) {
            Ok(id) => Ok(AgentHandshakeBuilder { agent_id: Some(id), ..self }),
            Err(e) => Err(e),
        }
    }

    /// Sets the identity.
    pub fn agent_id(self, id: AgentId) -> (r: AgentHandshakeBuilder)
        ensures
            r@ == (BuilderModel { agent_id: Some(id@), ..self@ }),
    {
        AgentHandshakeBuilder { agent_id: Some(id), ..self }
    }

    pub fn agent_name(self, name: &str) -> (r: AgentHandshakeBuilder)
        ensures
            r@ == (BuilderModel { agent_name: Some(name@), ..self@ }),
    {
        AgentHandshakeBuilder { agent_name: Some(name.to_owned()), ..self }
    }

    pub fn auth(self, auth: Auth) -> (r: AgentHandshakeBuilder)
        ensures
            r@ == (BuilderModel { auth: Some(auth@), ..self@ }),
    {
        AgentHandshakeBuilder { auth: Some(auth), ..self }
    }

    /// Declares key authentication from the bare secret text.
    pub fn auth_key(self, key: &str) -> (r: AgentHandshakeBuilder)
        ensures
            r@ == (BuilderModel { auth: Some(AuthModel::Key(key@)), ..self@ }),
    {
        AgentHandshakeBuilder { auth: Some(Auth::key_from_text(key)), ..self }
    }

    /// Parses a semantic-version text; malformed input is a reported error,
    /// never a crash.
    pub fn version(self, version: &str) -> (r: Result<AgentHandshakeBuilder, ParseError>)
        ensures
            r is Ok <==> semver_of_text(version@) is Some,
            r is Err ==> r == Err::<AgentHandshakeBuilder, ParseError>(ParseError::Version),
            r matches Ok(b) ==> {
                &&& b@ == (BuilderModel { version: b@.version, ..self@ })
                &&& b@.version matches Some(v) && v.text == version@ && version_model_wf(v)
            },
    {
        match Version::parse(version) {
            Ok(v) => Ok(AgentHandshakeBuilder { version: Some(v), ..self }),
            Err(e) => Err(e),
        }
    }

    pub fn local_info(self, info: LocalInfo) -> (r: AgentHandshakeBuilder)
        ensures
            r@ == (BuilderModel { local_info: Some(info), ..self@ }),
    {
        AgentHandshakeBuilder { local_info: Some(info), ..self }
    }

    pub fn service_info(self, info: ServiceInfo) -> (r: AgentHandshakeBuilder)
        ensures
            r@ == (BuilderModel { service_info: Some(info), ..self@ }),
    {
        AgentHandshakeBuilder { service_info: Some(info), ..self }
    }

    pub fn encryption(self, encryption: Encryption) -> (r: AgentHandshakeBuilder)
        ensures
            r@ == (BuilderModel { encryption: Some(encryption@), ..self@ }),
    {
        AgentHandshakeBuilder { encryption: Some(encryption), ..self }
    }

    pub fn heartbeat_interval(self, millis: u32) -> (r: AgentHandshakeBuilder)
        ensures
            r@ == (BuilderModel { heartbeat_interval: Some(millis), ..self@ }),
    {
        AgentHandshakeBuilder { heartbeat_interval: Some(millis), ..self }
    }

    pub fn timestamp(self, millis: u64) -> (r: AgentHandshakeBuilder)
        ensures
            r@ == (BuilderModel { timestamp: Some(millis), ..self@ }),
    {
        AgentHandshakeBuilder { timestamp: Some(millis), ..self }
    }

    /// Builds the message. Every unset field takes its default: a fresh
    /// random identifier, anonymous auth, zero heartbeat interval, zero
    /// timestamp, absent optionals. Building is pure and repeatable and
    /// always succeeds; the `Result` stands so a stricter builder could
    /// refuse.
    pub fn build(self) -> (r: Result<AgentHandshake, ParseError>)
        ensures
            r matches Ok(h),
            r matches Ok(h) ==> {
                &&& h.wf()
                &&& (self@.agent_id matches Some(t) ==> h@.agent_id == t)
                &&& h@.agent_name == self@.agent_name
                &&& h@.auth == (match self@.auth {
                    Some(a) => a,
                    None => AuthModel::Anonymous,
                })
                &&& h@.version == self@.version
                &&& h@.local_info == self@.local_info
                &&& h@.service_info == self@.service_info
                &&& h@.encryption == self@.encryption
                &&& h@.heartbeat_interval == (match self@.heartbeat_interval {
                    Some(n) => n,
                    None => 0u32,
                })
                &&& h@.timestamp == (match self@.timestamp {
                    Some(n) => n,
                    None => 0u64,
                })
            },
    {
        let agent_id = match self.agent_id {
            Some(id) => id,
            None => AgentId::generate(),
        };
        let auth = match self.auth {
            Some(a) => a,
            None => Auth::Anonymous,
        };
        let heartbeat_interval = match self.heartbeat_interval {
            Some(n) => n,
            None => 0,
        };
        let timestamp = match self.timestamp {
            Some(n) => n,
            None => 0,
        };
        let version = self.version;
        proof {
            use_type_invariant(&agent_id);
            if let Some(v) = &version {
                use_type_invariant(v);
            }
        }
        Ok(
            AgentHandshake {
                agent_id,
                agent_name: self.agent_name,
                auth,
                version,
                local_info: self.local_info,
                service_info: self.service_info,
                encryption: self.encryption,
                heartbeat_interval,
                timestamp,
            },
        )
    }
}

/// Building with no setters yields the documented defaults: anonymous auth,
/// zero heartbeat interval, zero timestamp, and no optional field present.
pub proof fn lemma_builder_default_product(b: BuilderModel, h: HandshakeModel)
    requires
        b == AgentHandshakeBuilder::empty_model(),
        h.agent_name == b.agent_name,
        h.auth == (match b.auth {
            Some(a) => a,
            None => AuthModel::Anonymous,
        }),
        h.version == b.version,
        h.local_info == b.local_info,
        h.service_info == b.service_info,
        h.encryption == b.encryption,
        h.heartbeat_interval == (match b.heartbeat_interval {
            Some(n) => n,
            None => 0u32,
        }),
        h.timestamp == (match b.timestamp {
            Some(n) => n,
            None => 0u64,
        }),
    ensures
        h.auth == AuthModel::Anonymous,
        h.heartbeat_interval == 0,
        h.timestamp == 0,
        h.agent_name is None,
        h.version is None,
        h.local_info is None,
        h.service_info is None,
        h.encryption is None,
{
}

} // verus!
