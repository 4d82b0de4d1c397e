//! Documents: the durable unit of the store, with provenance, tags, TTL
//! expiry and soft deletion, and the visibility rule shared by every read
//! path.

use vstd::prelude::*;

use crate::error::StoreError;

verus! {

/// Opaque, globally unique document identifier, assigned at creation and
/// never reused.
#[derive(Debug)]
pub struct DocumentId(pub String);

/// Provenance of a document: a closed set, persisted as a stable string and
/// rejected (never defaulted) when an unknown value is read back.
#[derive(Clone, Copy, Debug, PartialEq, Eq, Structural)]
pub enum SourceType {
    Agent,
    User,
    Import,
    System,
}

/// The durable unit of the store.
///
/// Timestamps are UTC, in whole seconds since the Unix epoch. `version` is a
/// caller-supplied monotonic counter starting at 1; `ttl_seconds` marks the
/// document expired once `now >= created_at + ttl_seconds`; a non-`None`
/// `deleted_at` means soft-deleted.
#[derive(Debug)]
pub struct Document {
    pub id: DocumentId,
    pub project: String,
    pub key: Option<String>,
    pub namespace: Option<String>,
    pub title: Option<String>,
    pub tags: Vec<String>,
    pub body_markdown: String,
    pub created_at: i64,
    pub updated_at: i64,
    pub source: SourceType,
    pub version: u64,
    pub ttl_seconds: Option<i64>,
    pub deleted_at: Option<i64>,
}

/// The mathematical value of a document: every text field as a character
/// sequence, every number unbounded.
pub ghost struct DocumentV {
    pub id: Seq<char>,
    pub project: Seq<char>,
    pub key: Option<Seq<char>>,
    pub namespace: Option<Seq<char>>,
    pub title: Option<Seq<char>>,
    pub tags: Seq<Seq<char>>,
    pub body_markdown: Seq<char>,
    pub created_at: int,
    pub updated_at: int,
    pub source: SourceType,
    pub version: int,
    pub ttl_seconds: Option<int>,
    pub deleted_at: Option<int>,
}

pub open spec fn opt_view(o: Option<String>) -> Option<Seq<char>> {
    match o {
        Some(s) => Some(s@),
        None => None,
    }
}

pub open spec fn opt_int(o: Option<i64>) -> Option<int> {
    match o {
        Some(n) => Some(n as int),
        None => None,
    }
}

pub open spec fn tags_view(tags: Seq<String>) -> Seq<Seq<char>> {
    Seq::new(tags.len(), |i: int| tags[i]@)
}

impl View for Document {
    type V = DocumentV;

    open spec fn view(&self) -> DocumentV {
        DocumentV {
            id: self.id.0@,
            project: self.project@,
            key: opt_view(self.key),
            namespace: opt_view(self.namespace),
            title: opt_view(self.title),
            tags: tags_view(self.tags@),
            body_markdown: self.body_markdown@,
            created_at: self.created_at as int,
            updated_at: self.updated_at as int,
            source: self.source,
            version: self.version as int,
            ttl_seconds: opt_int(self.ttl_seconds),
            deleted_at: opt_int(self.deleted_at),
        }
    }
}

impl DocumentV {
    /// Whether the document is expired at `now`: it has a TTL and that TTL
    /// has elapsed since creation.
    pub open spec fn expired(self, now: int) -> bool {
        match self.ttl_seconds {
            Some(ttl) => now >= self.created_at + ttl,
            None => false,
        }
    }

    /// The visibility rule: a document is returned by reads iff it is not
    /// soft-deleted and not expired.
    pub open spec fn visible(self, now: int) -> bool {
        self.deleted_at is None && !self.expired(now)
    }
}

/// Exact string equality, stated over the character sequences.
pub fn str_eq(a: &str, b: &str) -> (r: bool)
    ensures
        r == (a@ == b@),
{
    let sa: String = a.to_owned();
    let sb: String = b.to_owned();
    sa == sb
}

/// Equality of optional strings, stated over the character sequences.
pub fn opt_str_eq(a: &Option<String>, b: &Option<String>) -> (r: bool)
    ensures
        r == (opt_view(*a) == opt_view(*b)),
{
    match (a, b) {
        (None, None) => true,
        (Some(x), Some(y)) => {
            let e = str_eq(x.as_str(), y.as_str());
            proof {
                if x@ == y@ {
                    assert(opt_view(*a) == opt_view(*b));
                } else {
                    assert(opt_view(*a) != opt_view(*b));
                }
            }
            e
        },
        _ => false,
    }
}

fn clone_opt_string(o: &Option<String>) -> (r: Option<String>)
    ensures
        opt_view(r) == opt_view(*o),
{
    match o {
        Some(s) => Some(s.clone()),
        None => None,
    }
}

/// Clones a tag list; the character sequences are preserved exactly.
pub fn clone_tags(tags: &Vec<String>) -> (r: Vec<String>)
    ensures
        r@.len() == tags@.len(),
        tags_view(r@) == tags_view(tags@),
{
    let r = tags.clone();
    proof {
        assert forall|i: int| 0 <= i < tags@.len() implies r@[i] == tags@[i] by {
            assert(cloned::<String>(tags@[i], r@[i]));
        }
        assert(tags_view(r@) =~= tags_view(tags@));
    }
    r
}

impl Clone for DocumentId {
    fn clone(&self) -> (r: Self)
        ensures
            r.0@ == self.0@,
    {
        DocumentId(self.0.clone())
    }
}

impl Clone for Document {
    /// A clone carries the same mathematical value.
    fn clone(&self) -> (r: Self)
        ensures
            r@ == self@,
    {
        let r = Document {
            id: self.id.clone(),
            project: self.project.clone(),
            key: clone_opt_string(&self.key),
            namespace: clone_opt_string(&self.namespace),
            title: clone_opt_string(&self.title),
            tags: clone_tags(&self.tags),
            body_markdown: self.body_markdown.clone(),
            created_at: self.created_at,
            updated_at: self.updated_at,
            source: self.source,
            version: self.version,
            ttl_seconds: self.ttl_seconds,
            deleted_at: self.deleted_at,
        };
        proof {
            assert(r@ == self@);
        }
        r
    }
}

impl SourceType {
    /// The stable string under which this provenance tag is persisted.
    pub fn as_str(&self) -> (r: &'static str)
        ensures
            *self == SourceType::Agent ==> r@ == "Agent"@,
            *self == SourceType::User ==> r@ == "User"@,
            *self == SourceType::Import ==> r@ == "Import"@,
            *self == SourceType::System ==> r@ == "System"@,
    {
        match self {
            SourceType::Agent => "Agent",
            SourceType::User => "User",
            SourceType::Import => "Import",
            SourceType::System => "System",
        }
    }

    /// Reads a persisted provenance tag back. An unknown value is a
    /// corruption-level failure, never silently defaulted.
    pub fn parse(s: &str) -> (r: Result<SourceType, StoreError>)
        ensures
            s@ == "Agent"@ ==> r == Ok::<SourceType, StoreError>(SourceType::Agent),
            s@ == "User"@ ==> r == Ok::<SourceType, StoreError>(SourceType::User),
            s@ == "Import"@ ==> r == Ok::<SourceType, StoreError>(SourceType::Import),
            s@ == "System"@ ==> r == Ok::<SourceType, StoreError>(SourceType::System),
            s@ != "Agent"@ && s@ != "User"@ && s@ != "Import"@ && s@ != "System"@ ==> r
                == Err::<SourceType, StoreError>(StoreError::Corruption),
    {
        proof {
            reveal_strlit("Agent");
            reveal_strlit("User");
            reveal_strlit("Import");
            reveal_strlit("System");
            assert("Agent"@.len() == 5 && "User"@.len() == 4 && "Import"@.len() == 6
                && "System"@.len() == 6);
            assert("Import"@[0] == 'I' && "System"@[0] == 'S');
        }
        if str_eq(s, "Agent") {
            Ok(SourceType::Agent)
        } else if str_eq(s, "User") {
            Ok(SourceType::User)
        } else if str_eq(s, "Import") {
            Ok(SourceType::Import)
        } else if str_eq(s, "System") {
            Ok(SourceType::System)
        } else {
            Err(StoreError::Corruption)
        }
    }
}

} // verus!
