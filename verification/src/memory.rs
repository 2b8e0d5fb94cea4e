//! What is kept about users and sessions: remembered facts, session
//! metadata and plain messages.
use vstd::prelude::*;
use vstd::string::StringExecFns;

verus! {

/// A lowercase hexadecimal digit.
pub open spec fn lower_hex(c: char) -> bool {
    ('0' <= c <= '9') || ('a' <= c <= 'f')
}

/// The hyphenated lowercase text of a random (version 4) UUID:
/// `xxxxxxxx-xxxx-4xxx-yxxx-xxxxxxxxxxxx`, `y` one of `8 9 a b`.
pub open spec fn uuid_v4_text(s: Seq<char>) -> bool {
    &&& s.len() == 36
    &&& forall|i: int|
        0 <= i < 36 ==> if i == 8 || i == 13 || i == 18 || i == 23 {
            s[i] == '-'
        } else {
            lower_hex(#[trigger] s[i])
        }
    &&& s[14] == '4'
    &&& (s[19] == '8' || s[19] == '9' || s[19] == 'a' || s[19] == 'b')
}

/// A fresh random identifier from `wd_tools::uuid::v4`.
///
/// Trusted: the identifier is random; what holds of every outcome is the
/// layout of `uuid::Uuid::new_v4` written by its `Display` (hyphenated,
/// lowercase, with the version and variant digits it sets).
#[verifier::external_body]
pub(crate) fn new_uuid() -> (r: String)
    ensures
        uuid_v4_text(r@),
{
    wd_tools::uuid::v4()
}

/// What a remembered fact is about.
#[derive(Debug, Clone, Copy, PartialEq, Eq, Structural)]
pub enum UserMemoryCategory {
    UserAttribute,
    Preference,
    Other,
}

/// How a remembered fact is known.
#[derive(Debug, Clone, Copy, PartialEq, Eq, Structural)]
pub enum UserMemoryConfidence {
    UserStated,
    UserConfirmed,
    SystemInferred,
}

/// A fact remembered about a user.
#[derive(Debug, Clone, PartialEq, Eq)]
pub struct UserMemory {
    pub id: u64,
    pub category: UserMemoryCategory,
    pub content: String,
    pub confidence: UserMemoryConfidence,
    pub updated_at: String,
}

/// A request for the facts remembered about a user.
#[derive(Debug, Clone, PartialEq, Eq)]
pub struct UserMemoryQuery {
    pub user_id: String,
}

impl UserMemoryQuery {
    pub fn new(user_id: &str) -> (r: UserMemoryQuery)
        ensures
            r.user_id@ == user_id@,
    {
        UserMemoryQuery { user_id: String::from_str(user_id) }
    }
}

/// A request to the user memory.
#[derive(Debug, Clone, PartialEq, Eq)]
pub enum UserMemoryRequest {
    Query { user_id: String },
    Update {
        user_id: String,
        id: Option<u64>,
        category: UserMemoryCategory,
        content: String,
        confidence: UserMemoryConfidence,
    },
    Delete { user_id: String, id: u64 },
}

/// A reply of the user memory; `path` is the file that holds the memory.
#[derive(Debug, Clone, PartialEq, Eq)]
pub enum UserMemoryResponse {
    Memories { path: String, memories: Vec<UserMemory> },
    Updated { path: String, memory: UserMemory, created: bool },
    Deleted { path: String, memory: UserMemory },
}

/// What is known of a session.
#[derive(Debug, Clone, Default, PartialEq, Eq, Hash)]
pub struct SessionMeta {
    pub id: String,
    pub title: String,
    pub created_at: u64,
    pub updated_at: u64,
}

/// Who a plain message comes from.
#[derive(Debug, Clone, Copy, Default, PartialEq, Eq, Structural)]
pub enum GeneralMessageType {
    System,
    #[default]
    Query,
    Answer,
    Tool,
}

/// A plain message kept in memory.
#[derive(Debug, Clone, Default, PartialEq, Eq)]
pub struct GeneralMessage {
    pub id: String,
    pub message_type: GeneralMessageType,
    pub payload: String,
}

impl GeneralMessage {
    /// The text the message holds.
    pub fn as_content(&self) -> (r: String)
        ensures
            r@ == self.payload@,
    {
        self.payload.clone()
    }

    /// An answer holding the text, under a fresh id.
    pub fn from_content(content: String) -> (r: GeneralMessage)
        ensures
            r.message_type == GeneralMessageType::Answer,
            r.payload == content,
            uuid_v4_text(r.id@),
    {
        GeneralMessage { id: new_uuid(), message_type: GeneralMessageType::Answer, payload: content }
    }
}

} // verus!
