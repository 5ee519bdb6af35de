use vstd::prelude::*;
use vstd::string::*;

verus! {

/// The kind of an audit event, stored as an integer code.
#[derive(Debug, Clone, Copy, PartialEq, Eq, Structural)]
pub enum MetaType {
    Create,
    Access,
}

/// The storage code of each event kind.
pub open spec fn meta_type_code(t: MetaType) -> u8 {
    match t {
        MetaType::Create => 1,
        MetaType::Access => 2,
    }
}

/// The event kind stored under a code; unknown codes are rejected.
pub open spec fn meta_type_of_code(c: u8) -> Option<MetaType> {
    if c == 1 {
        Some(MetaType::Create)
    } else if c == 2 {
        Some(MetaType::Access)
    } else {
        None
    }
}

/// The description held in the lookup table for each event kind.
pub open spec fn meta_type_name(t: MetaType) -> Seq<char> {
    match t {
        MetaType::Create => seq!['C', 'r', 'e', 'a', 't', 'e'],
        MetaType::Access => seq!['A', 'c', 'c', 'e', 's', 's'],
    }
}

impl MetaType {
    /// The integer under which this kind is stored.
    pub fn code(&self) -> (r: u8)
        ensures
            r == meta_type_code(*self),
    {
        match self {
            MetaType::Create => 1,
            MetaType::Access => 2,
        }
    }

    /// The kind stored under `c`, or `None` for a code that names no kind.
    pub fn from_code(c: u8) -> (r: Option<MetaType>)
        ensures
            r == meta_type_of_code(c),
    {
        if c == 1 {
            Some(MetaType::Create)
        } else if c == 2 {
            Some(MetaType::Access)
        } else {
            None
        }
    }

    /// The human-readable description of this kind.
    pub fn name(&self) -> (r: String)
        ensures
            r@ == meta_type_name(*self),
    {
        match self {
            MetaType::Create => {
                proof {
                    reveal_strlit("Create");
                }
                String::from_str("Create")
            },
            MetaType::Access => {
                proof {
                    reveal_strlit("Access");
                }
                String::from_str("Access")
            },
        }
    }
}

/// The rows of the event-kind lookup table: each kind's code and description.
pub fn meta_type_lookup() -> (r: Vec<(u8, String)>)
    ensures
        r@.len() == 2,
        r@[0].0 == meta_type_code(MetaType::Create) && r@[0].1@ == meta_type_name(MetaType::Create),
        r@[1].0 == meta_type_code(MetaType::Access) && r@[1].1@ == meta_type_name(MetaType::Access),
{
    let mut r: Vec<(u8, String)> = Vec::new();
    let c = MetaType::Create;
    let a = MetaType::Access;
    r.push((c.code(), c.name()));
    r.push((a.code(), a.name()));
    r
}

/// Reading back the code of a kind gives that kind, and every code that is
/// accepted on read is the code of the kind it names.
pub proof fn lemma_meta_type_code_round_trip(t: MetaType, c: u8)
    ensures
        meta_type_of_code(meta_type_code(t)) == Some(t),
        meta_type_of_code(c) matches Some(u) ==> meta_type_code(u) == c,
{
}

/// The text held by an optional string.
pub open spec fn opt_view(o: Option<String>) -> Option<Seq<char>> {
    match o {
        Some(s) => Some(s@),
        None => None,
    }
}

/// A copy of an optional string.
pub fn clone_opt(o: &Option<String>) -> (r: Option<String>)
    ensures
        opt_view(r) == opt_view(*o),
{
    match o {
        Some(s) => Some(s.clone()),
        None => None,
    }
}

/// Request metadata recorded with each audit event.
#[derive(Debug, Clone)]
pub struct Meta {
    pub address: Option<String>,
    pub header: Option<String>,
}

/// The client address and serialised headers of a request, as text.
pub struct MetaView {
    pub address: Option<Seq<char>>,
    pub header: Option<Seq<char>>,
}

impl View for Meta {
    type V = MetaView;

    open spec fn view(&self) -> MetaView {
        MetaView { address: opt_view(self.address), header: opt_view(self.header) }
    }
}

/// A short code together with the URL it stands for.
#[derive(Debug, Clone)]
pub struct ShortUrlMapping {
    pub short_code: String,
    pub url: String,
}

/// The body of a request that registers a URL.
#[derive(Debug, Clone)]
pub struct AddUrlMapping {
    pub url: String,
}

/// The name part of a request path.
#[derive(Debug, Clone)]
pub struct Id {
    pub name: String,
}

/// A short code and its long URL as a request body carries them.
#[derive(Debug, Clone)]
pub struct Item {
    pub short: String,
    pub long_url: String,
}

/// One record of the analytics: a code, the URL of its latest registration
/// if any, the number of lookups, and the time of the latest lookup.
#[derive(Debug, Clone)]
pub struct AccessLog {
    pub code: String,
    pub url: Option<String>,
    pub last_access: Option<u64>,
    pub access_count: u64,
}

} // verus!
