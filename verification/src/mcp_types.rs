//! The entity and server data model: the three capability kinds a server
//! can expose, the record persisted for a scanned entity, the outcome of a
//! remote verification, and the two transport descriptors a configuration
//! can declare.

use vstd::prelude::*;

verus! {

/// Name and optional description of one advertised capability.
pub struct EntityInfo {
    pub name: String,
    pub description: Option<String>,
}

/// A capability advertised by a server: a prompt template, a readable
/// resource, or a callable tool.
pub enum Entity {
    Prompt(EntityInfo),
    Resource(EntityInfo),
    Tool(EntityInfo),
}

/// The abstract value of an [`Entity`]: its kind name as used in composite
/// keys, its name, and its optional description.
pub struct EntityV {
    pub kind: Seq<char>,
    pub name: Seq<char>,
    pub description: Option<Seq<char>>,
}

impl View for Entity {
    type V = EntityV;

    open spec fn view(&self) -> EntityV {
        match self {
            Entity::Prompt(i) => EntityV {
                kind: "prompt"@,
                name: i.name@,
                description: i.description.deep_view(),
            },
            Entity::Resource(i) => EntityV {
                kind: "resource"@,
                name: i.name@,
                description: i.description.deep_view(),
            },
            Entity::Tool(i) => EntityV {
                kind: "tool"@,
                name: i.name@,
                description: i.description.deep_view(),
            },
        }
    }
}

/// Copies an optional string.
pub fn duplicate_opt_string(o: &Option<String>) -> (r: Option<String>)
    ensures
        r == *o,
{
    match o {
        Some(s) => Some(s.clone()),
        None => None,
    }
}

impl Entity {
    /// The entity's name.
    pub fn name(&self) -> (r: String)
        ensures
            r@ == self@.name,
    {
        match self {
            Entity::Prompt(i) => i.name.clone(),
            Entity::Resource(i) => i.name.clone(),
            Entity::Tool(i) => i.name.clone(),
        }
    }

    /// The entity's description, if it has one.
    pub fn description(&self) -> (r: Option<String>)
        ensures
            r.deep_view() == self@.description,
    {
        match self {
            Entity::Prompt(i) => duplicate_opt_string(&i.description),
            Entity::Resource(i) => duplicate_opt_string(&i.description),
            Entity::Tool(i) => duplicate_opt_string(&i.description),
        }
    }

    /// An identical copy of the entity.
    pub fn duplicate(&self) -> (r: Entity)
        ensures
            r == *self,
    {
        match self {
            Entity::Prompt(i) => Entity::Prompt(
                EntityInfo { name: i.name.clone(), description: duplicate_opt_string(&i.description) },
            ),
            Entity::Resource(i) => Entity::Resource(
                EntityInfo { name: i.name.clone(), description: duplicate_opt_string(&i.description) },
            ),
            Entity::Tool(i) => Entity::Tool(
                EntityInfo { name: i.name.clone(), description: duplicate_opt_string(&i.description) },
            ),
        }
    }
}

/// The kind name of an entity, as used in composite keys and reports.
pub fn entity_type_to_str(entity: &Entity) -> (r: &'static str)
    ensures
        r@ == entity@.kind,
{
    match entity {
        Entity::Prompt(_) => "prompt",
        Entity::Resource(_) => "resource",
        Entity::Tool(_) => "tool",
    }
}

/// The record persisted for one scanned entity: its content fingerprint,
/// kind, last verification flag, the instant of the scan (RFC 3339 text),
/// and the description seen.
pub struct ScannedEntity {
    pub hash: String,
    pub kind: String,
    pub verified: bool,
    pub timestamp: String,
    pub description: Option<String>,
}

/// The abstract value of a [`ScannedEntity`].
pub struct ScannedEntityV {
    pub hash: Seq<char>,
    pub kind: Seq<char>,
    pub verified: bool,
    pub timestamp: Seq<char>,
    pub description: Option<Seq<char>>,
}

impl View for ScannedEntity {
    type V = ScannedEntityV;

    open spec fn view(&self) -> ScannedEntityV {
        ScannedEntityV {
            hash: self.hash@,
            kind: self.kind@,
            verified: self.verified,
            timestamp: self.timestamp@,
            description: self.description.deep_view(),
        }
    }
}

impl DeepView for ScannedEntity {
    type V = ScannedEntityV;

    open spec fn deep_view(&self) -> ScannedEntityV {
        self.view()
    }
}

impl ScannedEntity {
    /// An identical copy of the record.
    pub fn duplicate(&self) -> (r: ScannedEntity)
        ensures
            r@ == self@,
    {
        ScannedEntity {
            hash: self.hash.clone(),
            kind: self.kind.clone(),
            verified: self.verified,
            timestamp: self.timestamp.clone(),
            description: duplicate_opt_string(&self.description),
        }
    }
}

/// The outcome of one verification question: `value` is `None` when no
/// verdict could be obtained (which callers must not conflate with an
/// explicit `Some(false)`), and `message` carries the reason or report.
pub struct VerifyResult {
    pub value: Option<bool>,
    pub message: Option<String>,
}

/// The abstract value of a [`VerifyResult`].
pub struct VerifyResultV {
    pub value: Option<bool>,
    pub message: Option<Seq<char>>,
}

impl View for VerifyResult {
    type V = VerifyResultV;

    open spec fn view(&self) -> VerifyResultV {
        VerifyResultV { value: self.value, message: self.message.deep_view() }
    }
}

impl DeepView for VerifyResult {
    type V = VerifyResultV;

    open spec fn deep_view(&self) -> VerifyResultV {
        self.view()
    }
}

/// A URL-addressed server reached over a streaming event transport.
pub struct SSEServer {
    pub url: String,
    pub kind: Option<String>,
    pub headers: Vec<(String, String)>,
}

/// The abstract value of an [`SSEServer`].
pub struct SSEServerV {
    pub url: Seq<char>,
    pub kind: Option<Seq<char>>,
    pub headers: Seq<(Seq<char>, Seq<char>)>,
}

impl View for SSEServer {
    type V = SSEServerV;

    open spec fn view(&self) -> SSEServerV {
        SSEServerV { url: self.url@, kind: self.kind.deep_view(), headers: self.headers.deep_view() }
    }
}

/// A process-spawned server speaking over its standard streams.
pub struct StdioServer {
    pub command: String,
    pub args: Option<Vec<String>>,
    pub kind: Option<String>,
    pub env: Option<Vec<(String, String)>>,
}

/// The abstract value of a [`StdioServer`].
pub struct StdioServerV {
    pub command: Seq<char>,
    pub args: Option<Seq<Seq<char>>>,
    pub kind: Option<Seq<char>>,
    pub env: Option<Seq<(Seq<char>, Seq<char>)>>,
}

impl View for StdioServer {
    type V = StdioServerV;

    open spec fn view(&self) -> StdioServerV {
        StdioServerV {
            command: self.command@,
            args: self.args.deep_view(),
            kind: self.kind.deep_view(),
            env: self.env.deep_view(),
        }
    }
}

/// A server declared in a configuration file: one of the two transport
/// kinds.
pub enum Server {
    SSE(SSEServer),
    Stdio(StdioServer),
}

/// The abstract value of a [`Server`].
pub enum ServerV {
    SSE(SSEServerV),
    Stdio(StdioServerV),
}

impl View for Server {
    type V = ServerV;

    open spec fn view(&self) -> ServerV {
        match self {
            Server::SSE(s) => ServerV::SSE(s@),
            Server::Stdio(s) => ServerV::Stdio(s@),
        }
    }
}

impl DeepView for Server {
    type V = ServerV;

    open spec fn deep_view(&self) -> ServerV {
        self.view()
    }
}

/// Copies a vector of string pairs.
pub fn duplicate_string_pairs(v: &Vec<(String, String)>) -> (r: Vec<(String, String)>)
    ensures
        r.deep_view() == v.deep_view(),
{
    let mut out: Vec<(String, String)> = Vec::new();
    let len = v.len();
    let mut i: usize = 0;
    while i < len
        invariant
            len == v@.len(),
            i <= len,
            out.deep_view() =~= v.deep_view().take(i as int),
        decreases len - i,
    {
        let pair = (v[i].0.clone(), v[i].1.clone());
        let ghost pre = out.deep_view();
        out.push(pair);
        proof {
            assert(pair == v@[i as int]);
            assert(out.deep_view() =~= pre.push(pair.deep_view()));
            assert(v.deep_view().take(i + 1) =~= v.deep_view().take(i as int).push(
                v@[i as int].deep_view(),
            ));
        }
        i = i + 1;
    }
    proof {
        assert(v.deep_view().take(len as int) =~= v.deep_view());
    }
    out
}

/// Copies a vector of strings.
pub fn duplicate_strings(v: &Vec<String>) -> (r: Vec<String>)
    ensures
        r.deep_view() == v.deep_view(),
{
    let mut out: Vec<String> = Vec::new();
    let len = v.len();
    let mut i: usize = 0;
    while i < len
        invariant
            len == v@.len(),
            i <= len,
            out.deep_view() =~= v.deep_view().take(i as int),
        decreases len - i,
    {
        let item = v[i].clone();
        let ghost pre = out.deep_view();
        out.push(item);
        proof {
            assert(item == v@[i as int]);
            assert(out.deep_view() =~= pre.push(item.deep_view()));
            assert(v.deep_view().take(i + 1) =~= v.deep_view().take(i as int).push(
                v@[i as int].deep_view(),
            ));
        }
        i = i + 1;
    }
    proof {
        assert(v.deep_view().take(len as int) =~= v.deep_view());
    }
    out
}

impl Server {
    /// A copy of the descriptor with the same abstract value.
    pub fn duplicate(&self) -> (r: Server)
        ensures
            r@ == self@,
    {
        match self {
            Server::SSE(s) => Server::SSE(
                SSEServer {
                    url: s.url.clone(),
                    kind: duplicate_opt_string(&s.kind),
                    headers: duplicate_string_pairs(&s.headers),
                },
            ),
            Server::Stdio(s) => Server::Stdio(
                StdioServer {
                    command: s.command.clone(),
                    args: match &s.args {
                        Some(a) => Some(duplicate_strings(a)),
                        None => None,
                    },
                    kind: duplicate_opt_string(&s.kind),
                    env: match &s.env {
                        Some(e) => Some(duplicate_string_pairs(e)),
                        None => None,
                    },
                },
            ),
        }
    }
}

} // verus!
