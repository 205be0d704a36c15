//! Identities: opaque 128-bit identifiers carried as their canonical
//! hyphenated lowercase text, the form they take on the wire.
use vstd::prelude::*;
use vstd::std_specs::cmp::PartialEqSpec;
use crate::text::{is_lower_hex_char, is_lower_hex, chars_of_str, string_of_chars};

verus! {

/// Canonical identifier text: 36 characters, lowercase hexadecimal in the
/// 8-4-4-4-12 grouping with hyphens between the groups.
pub open spec fn is_uuid_text(s: Seq<char>) -> bool {
    &&& s.len() == 36
    &&& forall|i: int|
        0 <= i < 36 ==> {
            if i == 8 || i == 13 || i == 18 || i == 23 {
                #[trigger] s[i] == '-'
            } else {
                is_lower_hex_char(s[i])
            }
        }
}

/// Whether `v` is canonical identifier text.
pub fn check_uuid_chars(v: &Vec<char>) -> (r: bool)
    ensures
        r == is_uuid_text(v@),
{
    if v.len() != 36 {
        return false;
    }
    let mut i: usize = 0;
    while i < 36
        invariant
            v@.len() == 36,
            i <= 36,
            forall|j: int|
                0 <= j < i ==> {
                    if j == 8 || j == 13 || j == 18 || j == 23 {
                        #[trigger] v@[j] == '-'
                    } else {
                        is_lower_hex_char(v@[j])
                    }
                },
        decreases 36 - i,
    {
        let c = v[i];
        if i == 8 || i == 13 || i == 18 || i == 23 {
            if c != '-' {
                return false;
            }
        } else {
            if !is_lower_hex(c) {
                return false;
            }
        }
        i += 1;
    }
    true
}

/// A reported value could not be read as the canonical form its field
/// requires.
#[derive(Clone, Copy, Debug, PartialEq, Eq, Structural)]
pub enum ParseError {
    /// The text is not a canonical identifier.
    Identifier,
    /// The text is not a semantic version.
    Version,
}

/// Relies on `uuid::Uuid::new_v4` and its `Display` impl: a fresh random
/// identifier printed in the hyphenated lowercase hexadecimal form.
#[verifier::external_body]
fn fresh_uuid_text() -> (r: String)
    ensures
        is_uuid_text(r@),
{
    uuid::Uuid::new_v4().to_string()
}

/// Unique identifier an agent presents in its handshake.
#[derive(Debug)]
pub struct AgentId {
    text: String,
}

impl View for AgentId {
    type V = Seq<char>;

    closed spec fn view(&self) -> Seq<char> {
        self.text@
    }
}

impl AgentId {
    /// Every value holds canonical identifier text.
    #[verifier::type_invariant]
    pub open spec fn wf(&self) -> bool {
        is_uuid_text(self@)
    }

    /// A fresh random identifier.
    pub fn generate() -> (r: AgentId)
        ensures
            r.wf(),
    {
        AgentId { text: fresh_uuid_text() }
    }

    /// Reads the canonical text of an identifier; rejects anything else.
    pub fn parse_text(s: &str) -> (r: Result<AgentId, ParseError>)
        ensures
            r is Ok <==> is_uuid_text(s@),
            r matches Ok(id) ==> id@ == s@ && id.wf(),
            r is Err ==> r == Err::<AgentId, ParseError>(ParseError::Identifier),
    {
        let v = chars_of_str(s);
        if check_uuid_chars(&v) {
            Ok(AgentId { text: string_of_chars(&v) })
        } else {
            Err(ParseError::Identifier)
        }
    }

    /// The canonical text of this identifier.
    pub fn as_text(&self) -> (r: &str)
        ensures
            r@ == self@,
    {
        self.text.as_str()
    }
}

impl Default for AgentId {
    /// A fresh random identifier, as when a handshake is built without one.
    fn default() -> (r: AgentId)
        ensures
            r.wf(),
    {
        AgentId::generate()
    }
}

impl Clone for AgentId {
    /// The clone carries the same canonical text.
    fn clone(&self) -> (r: AgentId)
        ensures
            r@ == self@,
    {
        proof {
            use_type_invariant(self);
        }
        AgentId { text: self.text.clone() }
    }
}

impl PartialEq for AgentId {
    fn eq(&self, other: &AgentId) -> (r: bool) {
        self.text == other.text
    }
}

impl vstd::std_specs::cmp::PartialEqSpecImpl for AgentId {
    open spec fn obeys_eq_spec() -> bool {
        true
    }

    open spec fn eq_spec(&self, other: &AgentId) -> bool {
        self@ == other@
    }
}

/// An identifier is nothing but its canonical text: two identifiers read
/// from the same text are equal, wherever each was parsed.
pub proof fn lemma_same_text_same_identity(a: AgentId, b: AgentId)
    requires
        a@ == b@,
    ensures
        a.eq_spec(&b),
{
}

/// Identity under which a connected agent is registered in the connection
/// registry: the routing key. Kept apart from `AgentId` so another identity
/// scheme could replace it without touching the handshake shape.
#[derive(Debug)]
pub struct ClientId {
    text: String,
}

impl View for ClientId {
    type V = Seq<char>;

    closed spec fn view(&self) -> Seq<char> {
        self.text@
    }
}

impl ClientId {
    /// Every value holds canonical identity text.
    #[verifier::type_invariant]
    pub open spec fn wf(&self) -> bool {
        is_uuid_text(self@)
    }

    /// A fresh random identity.
    pub fn generate() -> (r: ClientId)
        ensures
            r.wf(),
    {
        ClientId { text: fresh_uuid_text() }
    }

    /// Reads the canonical text of an identity; rejects anything else.
    pub fn parse_text(s: &str) -> (r: Result<ClientId, ParseError>)
        ensures
            r is Ok <==> is_uuid_text(s@),
            r matches Ok(id) ==> id@ == s@ && id.wf(),
            r is Err ==> r == Err::<ClientId, ParseError>(ParseError::Identifier),
    {
        let v = chars_of_str(s);
        if check_uuid_chars(&v) {
            Ok(ClientId { text: string_of_chars(&v) })
        } else {
            Err(ParseError::Identifier)
        }
    }

    /// The routing identity an agent's declared identifier maps to.
    pub fn of_agent(id: &AgentId) -> (r: ClientId)
        ensures
            r@ == id@,
    {
        proof {
            use_type_invariant(id);
        }
        ClientId { text: id.text.clone() }
    }

    /// The canonical text of this identity.
    pub fn as_text(&self) -> (r: &str)
        ensures
            r@ == self@,
    {
        self.text.as_str()
    }
}

impl Clone for ClientId {
    /// The clone carries the same canonical text.
    fn clone(&self) -> (r: ClientId)
        ensures
            r@ == self@,
    {
        proof {
            use_type_invariant(self);
        }
        ClientId { text: self.text.clone() }
    }
}

impl PartialEq for ClientId {
    fn eq(&self, other: &ClientId) -> (r: bool) {
        self.text == other.text
    }
}

impl vstd::std_specs::cmp::PartialEqSpecImpl for ClientId {
    open spec fn obeys_eq_spec() -> bool {
        true
    }

    open spec fn eq_spec(&self, other: &ClientId) -> bool {
        self@ == other@
    }
}

/// Identifier of one in-flight proxied byte stream; its lifecycle is
/// independent of the control connection's.
#[derive(Debug)]
pub struct StreamId {
    text: String,
}

impl View for StreamId {
    type V = Seq<char>;

    closed spec fn view(&self) -> Seq<char> {
        self.text@
    }
}

impl StreamId {
    /// Every value holds canonical identifier text.
    #[verifier::type_invariant]
    pub open spec fn wf(&self) -> bool {
        is_uuid_text(self@)
    }

    /// A fresh random stream identifier.
    pub fn generate() -> (r: StreamId)
        ensures
            r.wf(),
    {
        StreamId { text: fresh_uuid_text() }
    }

    /// The canonical text of this identifier.
    pub fn as_text(&self) -> (r: &str)
        ensures
            r@ == self@,
    {
        self.text.as_str()
    }
}

impl Clone for StreamId {
    /// The clone carries the same canonical text.
    fn clone(&self) -> (r: StreamId)
        ensures
            r@ == self@,
    {
        proof {
            use_type_invariant(self);
        }
        StreamId { text: self.text.clone() }
    }
}

impl PartialEq for StreamId {
    fn eq(&self, other: &StreamId) -> (r: bool) {
        self.text == other.text
    }
}

impl vstd::std_specs::cmp::PartialEqSpecImpl for StreamId {
    open spec fn obeys_eq_spec() -> bool {
        true
    }

    open spec fn eq_spec(&self, other: &StreamId) -> bool {
        self@ == other@
    }
}

} // verus!
