//! The configuration resolver: tries the known schema shapes against one
//! document, in a fixed order, and returns the first that parses. The
//! order is a contract — a document that satisfies more than one shape
//! resolves to the earliest — and each shape's field rules mirror the
//! strictness of the declared types: a required server map, string-valued
//! headers and environments, string arguments, and an `inputs` entry
//! that, when present, must be an array or null (its contents are not
//! read and are not kept).

use vstd::prelude::*;
use vstd::string::StringExecFns;
use crate::json::{decode_string_entries, obj_get, parse_json, spec_decode_string_entries,
    spec_obj_get, spec_parse_json, Json};
use crate::mcp_types::{SSEServer, SSEServerV, Server, ServerV, StdioServer, StdioServerV};
use crate::verify_api::{decode_args, spec_decode_args};

verus! {

/// An optional string field: absent or null means none; any value other
/// than a string is a shape violation.
pub open spec fn spec_opt_str_field(f: Option<Json>) -> Option<Option<Seq<char>>> {
    match f {
        None => Some(None),
        Some(Json::Null) => Some(None),
        Some(Json::Str(s)) => Some(Some(s@)),
        Some(_) => None,
    }
}

/// What a server object means under the URL-addressed shape: `url` and a
/// string-valued `headers` object are required, `type` is optional.
pub open spec fn spec_decode_sse(j: Json) -> Option<SSEServerV> {
    match j {
        Json::Obj(fields) => {
            let u = spec_obj_get(fields@, "url"@);
            let h = spec_obj_get(fields@, "headers"@);
            let t = spec_opt_str_field(spec_obj_get(fields@, "type"@));
            match (u, h, t) {
                (Some(Json::Str(us)), Some(Json::Obj(hs)), Some(ty)) => match
                    spec_decode_string_entries(hs@) {
                    Some(headers) => Some(SSEServerV { url: us@, kind: ty, headers }),
                    None => None,
                },
                _ => None,
            }
        },
        _ => None,
    }
}

/// Reads a server object under the URL-addressed shape.
pub fn decode_sse(j: &Json) -> (r: Option<SSEServer>)
    ensures
        match r {
            Some(s) => spec_decode_sse(*j) == Some(s@),
            None => spec_decode_sse(*j) is None,
        },
{
    let fields = match j {
        Json::Obj(fields) => fields,
        _ => {
            return None;
        },
    };
    let url = match obj_get(fields, "url") {
        Some(Json::Str(u)) => u.clone(),
        _ => {
            return None;
        },
    };
    let header_entries = match obj_get(fields, "headers") {
        Some(Json::Obj(hs)) => hs,
        _ => {
            return None;
        },
    };
    let headers = match decode_string_entries(header_entries) {
        Some(v) => v,
        None => {
            return None;
        },
    };
    let kind = match obj_get(fields, "type") {
        None => None,
        Some(Json::Null) => None,
        Some(Json::Str(s)) => Some(s.clone()),
        Some(_) => {
            return None;
        },
    };
    Some(SSEServer { url, kind, headers })
}

/// What a server object means under the process-spawned shape: `command`
/// is required; `args`, `type` and `env` are optional, with string
/// arguments and a string-valued environment.
pub open spec fn spec_decode_stdio(j: Json) -> Option<StdioServerV> {
    match j {
        Json::Obj(fields) => {
            let c = spec_obj_get(fields@, "command"@);
            let t = spec_opt_str_field(spec_obj_get(fields@, "type"@));
            let a = match spec_obj_get(fields@, "args"@) {
                None => Some(None),
                Some(Json::Null) => Some(None),
                Some(Json::Arr(items)) => match spec_decode_args(items@) {
                    Some(v) => Some(Some(v)),
                    None => None,
                },
                Some(_) => None,
            };
            let e = match spec_obj_get(fields@, "env"@) {
                None => Some(None),
                Some(Json::Null) => Some(None),
                Some(Json::Obj(es)) => match spec_decode_string_entries(es@) {
                    Some(v) => Some(Some(v)),
                    None => None,
                },
                Some(_) => None,
            };
            match (c, t, a, e) {
                (Some(Json::Str(cs)), Some(ty), Some(args), Some(env)) => Some(
                    StdioServerV { command: cs@, args, kind: ty, env },
                ),
                _ => None,
            }
        },
        _ => None,
    }
}

/// Reads a server object under the process-spawned shape.
pub fn decode_stdio(j: &Json) -> (r: Option<StdioServer>)
    ensures
        match r {
            Some(s) => spec_decode_stdio(*j) == Some(s@),
            None => spec_decode_stdio(*j) is None,
        },
{
    let fields = match j {
        Json::Obj(fields) => fields,
        _ => {
            return None;
        },
    };
    let command = match obj_get(fields, "command") {
        Some(Json::Str(c)) => c.clone(),
        _ => {
            return None;
        },
    };
    let args = match obj_get(fields, "args") {
        None => None,
        Some(Json::Null) => None,
        Some(Json::Arr(items)) => match decode_args(items) {
            Some(v) => Some(v),
            None => {
                return None;
            },
        },
        Some(_) => {
            return None;
        },
    };
    let env = match obj_get(fields, "env") {
        None => None,
        Some(Json::Null) => None,
        Some(Json::Obj(es)) => match decode_string_entries(es) {
            Some(v) => Some(v),
            None => {
                return None;
            },
        },
        Some(_) => {
            return None;
        },
    };
    let kind = match obj_get(fields, "type") {
        None => None,
        Some(Json::Null) => None,
        Some(Json::Str(s)) => Some(s.clone()),
        Some(_) => {
            return None;
        },
    };
    Some(StdioServer { command, args, kind, env })
}

/// What a server object means: the URL-addressed shape is tried first,
/// the process-spawned shape second; the order is part of the contract.
pub open spec fn spec_decode_server(j: Json) -> Option<ServerV> {
    match spec_decode_sse(j) {
        Some(s) => Some(ServerV::SSE(s)),
        None => match spec_decode_stdio(j) {
            Some(s) => Some(ServerV::Stdio(s)),
            None => None,
        },
    }
}

/// Reads one server object.
pub fn decode_server(j: &Json) -> (r: Option<Server>)
    ensures
        match r {
            Some(s) => spec_decode_server(*j) == Some(s@),
            None => spec_decode_server(*j) is None,
        },
{
    match decode_sse(j) {
        Some(s) => Some(Server::SSE(s)),
        None => match decode_stdio(j) {
            Some(s) => Some(Server::Stdio(s)),
            None => None,
        },
    }
}

/// What a server-map object's entries decode to: every value must be a
/// server object.
pub open spec fn spec_decode_server_map(entries: Seq<(String, Json)>) -> Option<
    Seq<(Seq<char>, ServerV)>,
>
    decreases entries.len(),
{
    if entries.len() == 0 {
        Some(Seq::empty())
    } else {
        match spec_decode_server(entries[0].1) {
            Some(s) => match spec_decode_server_map(entries.drop_first()) {
                Some(rest) => Some(seq![(entries[0].0@, s)] + rest),
                None => None,
            },
            None => None,
        }
    }
}

/// Reads a server-map object's entries.
pub fn decode_server_map(entries: &Vec<(String, Json)>) -> (r: Option<Vec<(String, Server)>>)
    ensures
        match r {
            Some(v) => spec_decode_server_map(entries@) == Some(v.deep_view()),
            None => spec_decode_server_map(entries@) is None,
        },
{
    let len = entries.len();
    let mut out: Vec<(String, Server)> = Vec::new();
    let mut i: usize = 0;
    proof {
        assert(entries@.skip(0) =~= entries@);
        if spec_decode_server_map(entries@) is Some {
            assert(out.deep_view() + spec_decode_server_map(entries@)->Some_0
                =~= spec_decode_server_map(entries@)->Some_0);
        }
    }
    while i < len
        invariant
            len == entries@.len(),
            i <= len,
            spec_decode_server_map(entries@) == (match spec_decode_server_map(
                entries@.skip(i as int),
            ) {
                Some(rest) => Some(out.deep_view() + rest),
                None => None::<Seq<(Seq<char>, ServerV)>>,
            }),
        decreases len - i,
    {
        proof {
            assert(entries@.skip(i as int)[0] == entries@[i as int]);
            assert(entries@.skip(i as int).drop_first() =~= entries@.skip(i + 1));
        }
        let s = match decode_server(&entries[i].1) {
            Some(s) => s,
            None => {
                proof {
                    assert(spec_decode_server_map(entries@.skip(i as int)) is None);
                }
                return None;
            },
        };
        let pair = (entries[i].0.clone(), s);
        let ghost pre = out.deep_view();
        let ghost sv = pair.1@;
        out.push(pair);
        proof {
            assert(out.deep_view() =~= pre.push((entries@[i as int].0@, sv)));
            if spec_decode_server_map(entries@.skip(i + 1)) is Some {
                let rest2 = spec_decode_server_map(entries@.skip(i + 1))->Some_0;
                assert(spec_decode_server_map(entries@.skip(i as int)) == Some(
                    seq![(entries@[i as int].0@, sv)] + rest2,
                ));
                assert(pre + (seq![(entries@[i as int].0@, sv)] + rest2) =~= out.deep_view()
                    + rest2);
            }
        }
        i = i + 1;
    }
    proof {
        assert(entries@.skip(len as int) =~= Seq::<(String, Json)>::empty());
        assert(out.deep_view() + Seq::<(Seq<char>, ServerV)>::empty() =~= out.deep_view());
    }
    Some(out)
}

/// An `inputs` entry is acceptable when absent, null, or an array; its
/// elements are not read.
pub open spec fn spec_inputs_ok(f: Option<Json>) -> bool {
    match f {
        None => true,
        Some(Json::Null) => true,
        Some(Json::Arr(_)) => true,
        _ => false,
    }
}

/// Checks an `inputs` entry.
pub fn inputs_ok(f: Option<&Json>) -> (r: bool)
    ensures
        r == spec_inputs_ok(match f {
            Some(j) => Some(*j),
            None => None,
        }),
{
    match f {
        None => true,
        Some(Json::Null) => true,
        Some(Json::Arr(_)) => true,
        _ => false,
    }
}

/// Copies a server map.
pub fn duplicate_server_pairs(v: &Vec<(String, Server)>) -> (r: Vec<(String, Server)>)
    ensures
        r.deep_view() == v.deep_view(),
{
    let mut out: Vec<(String, Server)> = Vec::new();
    let len = v.len();
    let mut i: usize = 0;
    while i < len
        invariant
            len == v@.len(),
            i <= len,
            out.deep_view() =~= v.deep_view().take(i as int),
        decreases len - i,
    {
        let pair = (v[i].0.clone(), v[i].1.duplicate());
        let ghost pre = out.deep_view();
        out.push(pair);
        proof {
            assert(pair.deep_view() == v@[i as int].deep_view());
            assert(out.deep_view() =~= pre.push(pair.deep_view()));
            assert(v.deep_view().take(i + 1) =~= v.deep_view().take(i as int).push(
                v@[i as int].deep_view(),
            ));
        }
        i = i + 1;
    }
    proof {
        assert(v.deep_view().take(len as int) =~= v.deep_view());
    }
    out
}

/// A parsed configuration's uniform face: the map of server name to
/// server descriptor it declares.
pub trait MCPConfig {
    /// The declared server map, by abstract value.
    spec fn spec_servers(&self) -> Seq<(Seq<char>, ServerV)>;

    /// A copy of the declared server map.
    fn get_servers(&self) -> (r: Vec<(String, Server)>)
        ensures
            r.deep_view() == self.spec_servers(),
    ;

    /// Replaces the declared server map.
    fn set_servers(&mut self, servers: Vec<(String, Server)>)
        ensures
            final(self).spec_servers() == servers.deep_view(),
    ;
}

/// The shape with the server map under the conventional `mcp_servers`
/// key at top level.
pub struct ClaudeConfigFile {
    pub mcp_servers: Vec<(String, Server)>,
}

impl MCPConfig for ClaudeConfigFile {
    open spec fn spec_servers(&self) -> Seq<(Seq<char>, ServerV)> {
        self.mcp_servers.deep_view()
    }

    fn get_servers(&self) -> (r: Vec<(String, Server)>) {
        duplicate_server_pairs(&self.mcp_servers)
    }

    fn set_servers(&mut self, servers: Vec<(String, Server)>) {
        self.mcp_servers = servers;
    }
}

/// The camel-cased shape with the server map under `mcpServers`; its
/// optional `inputs` entry is checked but not kept, since nothing reads
/// it.
pub struct CursorMCPConfig {
    pub mcp_servers: Vec<(String, Server)>,
}

impl MCPConfig for CursorMCPConfig {
    open spec fn spec_servers(&self) -> Seq<(Seq<char>, ServerV)> {
        self.mcp_servers.deep_view()
    }

    fn get_servers(&self) -> (r: Vec<(String, Server)>) {
        duplicate_server_pairs(&self.mcp_servers)
    }

    fn set_servers(&mut self, servers: Vec<(String, Server)>) {
        self.mcp_servers = servers;
    }
}

/// The shape with the server map under `servers` at top level; its
/// optional `inputs` entry is checked but not kept.
pub struct VSCodeMCPConfig {
    pub servers: Vec<(String, Server)>,
}

impl MCPConfig for VSCodeMCPConfig {
    open spec fn spec_servers(&self) -> Seq<(Seq<char>, ServerV)> {
        self.servers.deep_view()
    }

    fn get_servers(&self) -> (r: Vec<(String, Server)>) {
        duplicate_server_pairs(&self.servers)
    }

    fn set_servers(&mut self, servers: Vec<(String, Server)>) {
        self.servers = servers;
    }
}

/// The shape that nests the previous one under a top-level `mcp` key.
pub struct VSCodeConfigFile {
    pub mcp: VSCodeMCPConfig,
}

impl MCPConfig for VSCodeConfigFile {
    open spec fn spec_servers(&self) -> Seq<(Seq<char>, ServerV)> {
        self.mcp.servers.deep_view()
    }

    fn get_servers(&self) -> (r: Vec<(String, Server)>) {
        duplicate_server_pairs(&self.mcp.servers)
    }

    fn set_servers(&mut self, servers: Vec<(String, Server)>) {
        self.mcp.servers = servers;
    }
}

/// What a document means under the first shape: a top-level object with
/// a server map under `mcp_servers`.
pub open spec fn spec_resolve_claude(j: Json) -> Option<Seq<(Seq<char>, ServerV)>> {
    match j {
        Json::Obj(fields) => match spec_obj_get(fields@, "mcp_servers"@) {
            Some(Json::Obj(e)) => spec_decode_server_map(e@),
            _ => None,
        },
        _ => None,
    }
}

/// What a document means under the `servers`-at-top-level shape.
pub open spec fn spec_resolve_vscode_mcp(j: Json) -> Option<Seq<(Seq<char>, ServerV)>> {
    match j {
        Json::Obj(fields) => if spec_inputs_ok(spec_obj_get(fields@, "inputs"@)) {
            match spec_obj_get(fields@, "servers"@) {
                Some(Json::Obj(e)) => spec_decode_server_map(e@),
                _ => None,
            }
        } else {
            None
        },
        _ => None,
    }
}

/// What a document means under the nested `mcp` shape.
pub open spec fn spec_resolve_vscode_file(j: Json) -> Option<Seq<(Seq<char>, ServerV)>> {
    match j {
        Json::Obj(fields) => match spec_obj_get(fields@, "mcp"@) {
            Some(m) => spec_resolve_vscode_mcp(m),
            None => None,
        },
        _ => None,
    }
}

/// What a document means under the camel-cased `mcpServers` shape.
pub open spec fn spec_resolve_cursor(j: Json) -> Option<Seq<(Seq<char>, ServerV)>> {
    match j {
        Json::Obj(fields) => if spec_inputs_ok(spec_obj_get(fields@, "inputs"@)) {
            match spec_obj_get(fields@, "mcpServers"@) {
                Some(Json::Obj(e)) => spec_decode_server_map(e@),
                _ => None,
            }
        } else {
            None
        },
        _ => None,
    }
}

/// Reads a document under the first shape.
pub fn decode_claude(j: &Json) -> (r: Option<ClaudeConfigFile>)
    ensures
        match r {
            Some(c) => spec_resolve_claude(*j) == Some(c.spec_servers()),
            None => spec_resolve_claude(*j) is None,
        },
{
    let fields = match j {
        Json::Obj(fields) => fields,
        _ => {
            return None;
        },
    };
    let entries = match obj_get(fields, "mcp_servers") {
        Some(Json::Obj(e)) => e,
        _ => {
            return None;
        },
    };
    match decode_server_map(entries) {
        Some(v) => Some(ClaudeConfigFile { mcp_servers: v }),
        None => None,
    }
}

/// Reads a document under the `servers`-at-top-level shape.
pub fn decode_vscode_mcp(j: &Json) -> (r: Option<VSCodeMCPConfig>)
    ensures
        match r {
            Some(c) => spec_resolve_vscode_mcp(*j) == Some(c.spec_servers()),
            None => spec_resolve_vscode_mcp(*j) is None,
        },
{
    let fields = match j {
        Json::Obj(fields) => fields,
        _ => {
            return None;
        },
    };
    if !inputs_ok(obj_get(fields, "inputs")) {
        return None;
    }
    let entries = match obj_get(fields, "servers") {
        Some(Json::Obj(e)) => e,
        _ => {
            return None;
        },
    };
    match decode_server_map(entries) {
        Some(v) => Some(VSCodeMCPConfig { servers: v }),
        None => None,
    }
}

/// Reads a document under the nested `mcp` shape.
pub fn decode_vscode_file(j: &Json) -> (r: Option<VSCodeConfigFile>)
    ensures
        match r {
            Some(c) => spec_resolve_vscode_file(*j) == Some(c.spec_servers()),
            None => spec_resolve_vscode_file(*j) is None,
        },
{
    let fields = match j {
        Json::Obj(fields) => fields,
        _ => {
            return None;
        },
    };
    let inner = match obj_get(fields, "mcp") {
        Some(m) => m,
        None => {
            return None;
        },
    };
    match decode_vscode_mcp(inner) {
        Some(c) => Some(VSCodeConfigFile { mcp: c }),
        None => None,
    }
}

/// Reads a document under the camel-cased `mcpServers` shape.
pub fn decode_cursor(j: &Json) -> (r: Option<CursorMCPConfig>)
    ensures
        match r {
            Some(c) => spec_resolve_cursor(*j) == Some(c.spec_servers()),
            None => spec_resolve_cursor(*j) is None,
        },
{
    let fields = match j {
        Json::Obj(fields) => fields,
        _ => {
            return None;
        },
    };
    if !inputs_ok(obj_get(fields, "inputs")) {
        return None;
    }
    let entries = match obj_get(fields, "mcpServers") {
        Some(Json::Obj(e)) => e,
        _ => {
            return None;
        },
    };
    match decode_server_map(entries) {
        Some(v) => Some(CursorMCPConfig { mcp_servers: v }),
        None => None,
    }
}

/// The shapes, in the order they are tried.
pub enum ConfigShape {
    Claude,
    VSCodeFile,
    VSCodeMCP,
    Cursor,
}

/// A configuration resolved under the first shape that accepted it.
pub enum ResolvedConfig {
    Claude(ClaudeConfigFile),
    VSCodeFile(VSCodeConfigFile),
    VSCodeMCP(VSCodeMCPConfig),
    Cursor(CursorMCPConfig),
}

impl ResolvedConfig {
    /// Which shape accepted the document.
    pub open spec fn spec_shape(&self) -> ConfigShape {
        match self {
            ResolvedConfig::Claude(_) => ConfigShape::Claude,
            ResolvedConfig::VSCodeFile(_) => ConfigShape::VSCodeFile,
            ResolvedConfig::VSCodeMCP(_) => ConfigShape::VSCodeMCP,
            ResolvedConfig::Cursor(_) => ConfigShape::Cursor,
        }
    }
}

impl MCPConfig for ResolvedConfig {
    open spec fn spec_servers(&self) -> Seq<(Seq<char>, ServerV)> {
        match self {
            ResolvedConfig::Claude(c) => c.spec_servers(),
            ResolvedConfig::VSCodeFile(c) => c.spec_servers(),
            ResolvedConfig::VSCodeMCP(c) => c.spec_servers(),
            ResolvedConfig::Cursor(c) => c.spec_servers(),
        }
    }

    fn get_servers(&self) -> (r: Vec<(String, Server)>) {
        match self {
            ResolvedConfig::Claude(c) => c.get_servers(),
            ResolvedConfig::VSCodeFile(c) => c.get_servers(),
            ResolvedConfig::VSCodeMCP(c) => c.get_servers(),
            ResolvedConfig::Cursor(c) => c.get_servers(),
        }
    }

    fn set_servers(&mut self, servers: Vec<(String, Server)>) {
        match self {
            ResolvedConfig::Claude(c) => c.set_servers(servers),
            ResolvedConfig::VSCodeFile(c) => c.set_servers(servers),
            ResolvedConfig::VSCodeMCP(c) => c.set_servers(servers),
            ResolvedConfig::Cursor(c) => c.set_servers(servers),
        }
    }
}

/// What a parsed document resolves to: the first shape that accepts it,
/// with the server map read under that shape.
pub open spec fn spec_resolve_document(j: Json) -> Option<
    (ConfigShape, Seq<(Seq<char>, ServerV)>),
> {
    if spec_resolve_claude(j) is Some {
        Some((ConfigShape::Claude, spec_resolve_claude(j)->Some_0))
    } else if spec_resolve_vscode_file(j) is Some {
        Some((ConfigShape::VSCodeFile, spec_resolve_vscode_file(j)->Some_0))
    } else if spec_resolve_vscode_mcp(j) is Some {
        Some((ConfigShape::VSCodeMCP, spec_resolve_vscode_mcp(j)->Some_0))
    } else if spec_resolve_cursor(j) is Some {
        Some((ConfigShape::Cursor, spec_resolve_cursor(j)->Some_0))
    } else {
        None
    }
}

/// Resolves one configuration document: parses the text and tries each
/// known shape in order, returning the first that accepts it; text that
/// is not JSON, or that no shape accepts, is rejected with the error
/// naming the shapes that were attempted.
pub fn parse_and_validate(config: &str) -> (r: Result<ResolvedConfig, String>)
    ensures
        match r {
            Ok(c) => {
                &&& spec_parse_json(config@) is Some
                &&& spec_resolve_document(spec_parse_json(config@)->Some_0) == Some(
                    (c.spec_shape(), c.spec_servers()),
                )
            },
            Err(e) => {
                &&& (spec_parse_json(config@) is None || spec_resolve_document(
                    spec_parse_json(config@)->Some_0,
                ) is None)
                &&& e@
                    == "Could not parse config file with models: [\"ClaudeConfigFile\", \"VSCodeConfigFile\", \"VSCodeMCPConfig\", \"CursorMCPConfig\"]"@
            },
        },
{
    let unresolved =
        "Could not parse config file with models: [\"ClaudeConfigFile\", \"VSCodeConfigFile\", \"VSCodeMCPConfig\", \"CursorMCPConfig\"]";
    let j = match parse_json(config) {
        Some(j) => j,
        None => {
            return Err(unresolved.to_owned());
        },
    };
    match decode_claude(&j) {
        Some(c) => {
            return Ok(ResolvedConfig::Claude(c));
        },
        None => {},
    }
    match decode_vscode_file(&j) {
        Some(c) => {
            return Ok(ResolvedConfig::VSCodeFile(c));
        },
        None => {},
    }
    match decode_vscode_mcp(&j) {
        Some(c) => {
            return Ok(ResolvedConfig::VSCodeMCP(c));
        },
        None => {},
    }
    match decode_cursor(&j) {
        Some(c) => {
            return Ok(ResolvedConfig::Cursor(c));
        },
        None => {},
    }
    Err(unresolved.to_owned())
}

} // verus!
