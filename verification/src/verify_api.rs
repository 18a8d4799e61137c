//! The verification client: builds the batched request for one server's
//! entities and correlates the returned failures back to entities by
//! position. The HTTP exchange itself happens outside the library; this
//! module fixes what is sent and what every possible answer means.

use vstd::prelude::*;
use vstd::pervasive::VecAdditionalExecFns;
use vstd::string::StrSliceExecFns;
use vstd::string::StringExecFns;
use crate::json::{obj_get, parse_json, render_json, spec_obj_get, spec_parse_json, spec_render_json, Json};
use crate::mcp_types::{Entity, VerifyResult, VerifyResultV};
use crate::text::{find_char, parse_usize, spec_find, spec_parse_usize};

verus! {

/// The std `Debug` rendering of an optional string (`None`, or
/// `Some("...")` with escapes); a pure function of the characters.
pub uninterp spec fn spec_debug_opt(d: Option<Seq<char>>) -> Seq<char>;

/// Relies on `format!("{:?}", ..)` over `Option<String>`: the rendering
/// depends on the characters alone.
#[verifier::external_body]
fn debug_opt_string(d: &Option<String>) -> (r: String)
    ensures
        r@ == spec_debug_opt(d.deep_view()),
{
    format!("{:?}", d)
}

/// The message submitted for one entity: its kind's label, name, and
/// debug-rendered description.
pub open spec fn spec_message_for(e: Entity) -> Seq<char> {
    match e {
        Entity::Prompt(i) => "Prompt Name:"@ + i.name@ + "\nPrompt Description:"@ + spec_debug_opt(
            i.description.deep_view(),
        ),
        Entity::Resource(i) => "Resource Name:"@ + i.name@ + "\nResource Description:"@
            + spec_debug_opt(i.description.deep_view()),
        Entity::Tool(i) => "Tool Name:"@ + i.name@ + "\nTool Description:"@ + spec_debug_opt(
            i.description.deep_view(),
        ),
    }
}

/// Builds the message submitted for one entity.
pub fn message_for(e: &Entity) -> (r: String)
    ensures
        r@ == spec_message_for(*e),
{
    let mut m = String::new();
    match e {
        Entity::Prompt(i) => {
            m.append("Prompt Name:");
            m.append(i.name.as_str());
            m.append("\nPrompt Description:");
            let d = debug_opt_string(&i.description);
            m.append(d.as_str());
        },
        Entity::Resource(i) => {
            m.append("Resource Name:");
            m.append(i.name.as_str());
            m.append("\nResource Description:");
            let d = debug_opt_string(&i.description);
            m.append(d.as_str());
        },
        Entity::Tool(i) => {
            m.append("Tool Name:");
            m.append(i.name.as_str());
            m.append("\nTool Description:");
            let d = debug_opt_string(&i.description);
            m.append(d.as_str());
        },
    }
    m
}

/// How many of the entities are tools.
pub open spec fn spec_count_tools(s: Seq<Entity>) -> nat
    decreases s.len(),
{
    if s.len() == 0 {
        0
    } else {
        spec_count_tools(s.drop_last()) + if s.last() is Tool {
            1nat
        } else {
            0nat
        }
    }
}

/// How many of the entities are prompts.
pub open spec fn spec_count_prompts(s: Seq<Entity>) -> nat
    decreases s.len(),
{
    if s.len() == 0 {
        0
    } else {
        spec_count_prompts(s.drop_last()) + if s.last() is Prompt {
            1nat
        } else {
            0nat
        }
    }
}

/// How many of the entities are resources.
pub open spec fn spec_count_resources(s: Seq<Entity>) -> nat
    decreases s.len(),
{
    if s.len() == 0 {
        0
    } else {
        spec_count_resources(s.drop_last()) + if s.last() is Resource {
            1nat
        } else {
            0nat
        }
    }
}

/// Every entity is of one of the three kinds, so the three counts cover
/// the list.
pub proof fn lemma_counts_partition(s: Seq<Entity>)
    ensures
        spec_count_tools(s) + spec_count_prompts(s) + spec_count_resources(s) == s.len(),
    decreases s.len(),
{
    if s.len() > 0 {
        lemma_counts_partition(s.drop_last());
    }
}

/// What the request body parses back to: the `messages` array's entries,
/// each an object whose `role` is `"system"`, in submission order; their
/// `content` strings.
pub open spec fn spec_decode_request(j: Json) -> Option<Seq<Seq<char>>> {
    match j {
        Json::Obj(fields) => match spec_obj_get(fields@, "messages"@) {
            Some(Json::Arr(items)) => spec_decode_messages(items@),
            _ => None,
        },
        _ => None,
    }
}

/// The contents of a sequence of message objects, if each is an object
/// with `role` `"system"` and a string `content`.
pub open spec fn spec_decode_messages(items: Seq<Json>) -> Option<Seq<Seq<char>>>
    decreases items.len(),
{
    if items.len() == 0 {
        Some(Seq::empty())
    } else {
        match spec_decode_message(items[0]) {
            Some(c) => match spec_decode_messages(items.drop_first()) {
                Some(rest) => Some(seq![c] + rest),
                None => None,
            },
            None => None,
        }
    }
}

/// The content of one message object.
pub open spec fn spec_decode_message(j: Json) -> Option<Seq<char>> {
    match j {
        Json::Obj(fields) => match (
            spec_obj_get(fields@, "role"@),
            spec_obj_get(fields@, "content"@),
        ) {
            (Some(Json::Str(role)), Some(Json::Str(content))) => if role@ == "system"@ {
                Some(content@)
            } else {
                None
            },
            _ => None,
        },
        _ => None,
    }
}

/// One batched verification request: the JSON body to POST to
/// `{base_url}/api/v1/public/mcp`, and the kind counts captured before
/// submission, needed to segment the results afterwards.
pub struct VerificationRequest {
    pub body: String,
    pub num_tools: usize,
    pub num_prompts: usize,
    pub num_resources: usize,
}

/// Builds one message object.
fn message_json(e: &Entity) -> (j: Json)
    ensures
        spec_decode_message(j) == Some(spec_message_for(*e)),
{
    let mut fields: Vec<(String, Json)> = Vec::new();
    fields.push(("role".to_owned(), Json::Str("system".to_owned())));
    fields.push(("content".to_owned(), Json::Str(message_for(e))));
    proof {
        reveal_strlit("role");
        reveal_strlit("content");
        assert("role"@.len() == 4 && "content"@.len() == 7);
        assert(fields@.drop_first()[0] == fields@[1]);
        assert(spec_obj_get(fields@, "role"@) == Some(fields@[0].1));
        assert(spec_obj_get(fields@.drop_first(), "content"@) == Some(fields@[1].1));
        assert(spec_obj_get(fields@, "content"@) == Some(fields@[1].1));
    }
    Json::Obj(fields)
}

/// Appending a message object appends its content.
proof fn lemma_decode_messages_push(items: Seq<Json>, p: Json)
    ensures
        spec_decode_messages(items.push(p)) == (match (
            spec_decode_messages(items),
            spec_decode_message(p),
        ) {
            (Some(cs), Some(c)) => Some(cs.push(c)),
            _ => None::<Seq<Seq<char>>>,
        }),
    decreases items.len(),
{
    if items.len() == 0 {
        assert(items.push(p)[0] == p);
        assert(items.push(p).drop_first() =~= Seq::<Json>::empty());
        assert(spec_decode_messages(Seq::<Json>::empty()) == Some(Seq::<Seq<char>>::empty()));
        assert(spec_decode_messages(items) == Some(Seq::<Seq<char>>::empty()));
        if spec_decode_message(p) is Some {
            let c = spec_decode_message(p)->Some_0;
            assert(spec_decode_messages(items.push(p)) == Some(
                seq![c] + Seq::<Seq<char>>::empty(),
            ));
            assert(seq![c] + Seq::<Seq<char>>::empty() =~= Seq::<Seq<char>>::empty().push(c));
        } else {
            assert(spec_decode_messages(items.push(p)) is None);
        }
    } else {
        assert(items.push(p)[0] == items[0]);
        assert(items.push(p).drop_first() =~= items.drop_first().push(p));
        lemma_decode_messages_push(items.drop_first(), p);
        if spec_decode_message(items[0]) is None {
            assert(spec_decode_messages(items.push(p)) is None);
            assert(spec_decode_messages(items) is None);
        } else {
            let c0 = spec_decode_message(items[0])->Some_0;
            if spec_decode_messages(items.drop_first()) is None {
                assert(spec_decode_messages(items.drop_first().push(p)) is None);
                assert(spec_decode_messages(items.push(p)) is None);
                assert(spec_decode_messages(items) is None);
            } else if spec_decode_message(p) is None {
                assert(spec_decode_messages(items.drop_first().push(p)) is None);
                assert(spec_decode_messages(items.push(p)) is None);
            } else {
                let rest = spec_decode_messages(items.drop_first())->Some_0;
                let c = spec_decode_message(p)->Some_0;
                assert(spec_decode_messages(items.drop_first().push(p)) == Some(rest.push(c)));
                assert(spec_decode_messages(items.push(p)) == Some(seq![c0] + rest.push(c)));
                assert(spec_decode_messages(items) == Some(seq![c0] + rest));
                assert(seq![c0] + rest.push(c) =~= (seq![c0] + rest).push(c));
            }
        }
    }
}

/// Prepares the batched verification request for one server's entities,
/// or nothing when there are none — an empty batch short-circuits and no
/// request is to be made. The body renders a JSON document whose
/// `messages` array carries one system-role message per entity, in the
/// order given; the kind counts are captured from the same list.
pub fn prepare_verification(entities: &Vec<Entity>) -> (r: Option<VerificationRequest>)
    ensures
        r is Some <==> entities@.len() > 0,
        match r {
            Some(req) => {
                &&& req.num_tools == spec_count_tools(entities@)
                &&& req.num_prompts == spec_count_prompts(entities@)
                &&& req.num_resources == spec_count_resources(entities@)
                &&& exists|j: Json|
                    {
                        &&& req.body@ == #[trigger] spec_render_json(j)
                        &&& spec_decode_request(j) == Some(
                            entities@.map_values(|e: Entity| spec_message_for(e)),
                        )
                    }
            },
            None => true,
        },
{
    if entities.len() == 0 {
        return None;
    }
    let len = entities.len();
    let mut items: Vec<Json> = Vec::new();
    let mut num_tools: usize = 0;
    let mut num_prompts: usize = 0;
    let mut num_resources: usize = 0;
    let mut i: usize = 0;
    proof {
        assert(spec_decode_messages(items@) == Some(Seq::<Seq<char>>::empty()));
        assert(entities@.take(0) =~= Seq::<Entity>::empty());
        assert(Seq::<Seq<char>>::empty() =~= entities@.take(0).map_values(
            |e: Entity| spec_message_for(e),
        ));
    }
    while i < len
        invariant
            len == entities@.len(),
            i <= len,
            num_tools == spec_count_tools(entities@.take(i as int)),
            num_prompts == spec_count_prompts(entities@.take(i as int)),
            num_resources == spec_count_resources(entities@.take(i as int)),
            num_tools + num_prompts + num_resources == i,
            spec_decode_messages(items@) == Some(
                entities@.take(i as int).map_values(|e: Entity| spec_message_for(e)),
            ),
        decreases len - i,
    {
        proof {
            lemma_counts_partition(entities@.take(i as int));
            assert(entities@.take(i + 1).drop_last() =~= entities@.take(i as int));
            assert(entities@.take(i + 1).last() == entities@[i as int]);
        }
        let m = message_json(&entities[i]);
        let ghost pre = items@;
        items.push(m);
        match &entities[i] {
            Entity::Tool(_) => {
                num_tools = num_tools + 1;
            },
            Entity::Prompt(_) => {
                num_prompts = num_prompts + 1;
            },
            Entity::Resource(_) => {
                num_resources = num_resources + 1;
            },
        }
        proof {
            lemma_decode_messages_push(pre, m);
            assert(items@ == pre.push(m));
            assert(entities@.take(i + 1).map_values(|e: Entity| spec_message_for(e))
                =~= entities@.take(i as int).map_values(|e: Entity| spec_message_for(e)).push(
                spec_message_for(entities@[i as int]),
            ));
        }
        i = i + 1;
    }
    let mut fields: Vec<(String, Json)> = Vec::new();
    fields.push(("messages".to_owned(), Json::Arr(items)));
    let doc = Json::Obj(fields);
    let ghost docg = doc;
    let body = render_json(&doc);
    proof {
        reveal_strlit("messages");
        assert(entities@.take(len as int) =~= entities@);
        assert(spec_obj_get(docg->Obj_0@, "messages"@) == Some(docg->Obj_0@[0].1));
        assert(spec_decode_request(docg) == Some(
            entities@.map_values(|e: Entity| spec_message_for(e)),
        ));
    }
    Some(VerificationRequest { body, num_tools, num_prompts, num_resources })
}

/// The second comma-separated field of `s`, if `s` has at least one
/// comma: the error protocol encodes the positional index there.
pub open spec fn spec_second_field(s: Seq<char>) -> Option<Seq<char>> {
    match spec_find(s, ',') {
        Some(i) => {
            let rest = s.skip(i + 1);
            match spec_find(rest, ',') {
                Some(j) => Some(rest.take(j)),
                None => Some(rest),
            }
        },
        None => None,
    }
}

/// Extracts the second comma-separated field.
pub fn second_field(s: &str) -> (r: Option<String>)
    ensures
        match r {
            Some(f) => spec_second_field(s@) == Some(f@),
            None => spec_second_field(s@) is None,
        },
{
    let len = s.unicode_len();
    let i = match find_char(s, ',') {
        Some(i) => i,
        None => {
            return None;
        },
    };
    let rest = s.substring_char(i + 1, len);
    proof {
        assert(rest@ =~= s@.skip(i + 1));
    }
    let field = match find_char(rest, ',') {
        Some(j) => rest.substring_char(0, j),
        None => rest,
    };
    proof {
        if spec_find(rest@, ',') is Some {
            let j = spec_find(rest@, ',')->Some_0;
            assert(field@ =~= rest@.take(j));
        }
    }
    Some(field.to_owned())
}

/// The arguments joined with single spaces.
pub open spec fn spec_join_space(parts: Seq<Seq<char>>) -> Seq<char>
    decreases parts.len(),
{
    if parts.len() == 0 {
        Seq::empty()
    } else if parts.len() == 1 {
        parts[0]
    } else {
        spec_join_space(parts.drop_last()) + " "@ + parts.last()
    }
}

/// Joins strings with single spaces.
pub fn join_space(parts: &Vec<String>) -> (r: String)
    ensures
        r@ == spec_join_space(parts.deep_view()),
{
    let mut out = String::new();
    let len = parts.len();
    let mut i: usize = 0;
    proof {
        assert(parts.deep_view().take(0) =~= Seq::<Seq<char>>::empty());
    }
    while i < len
        invariant
            len == parts@.len(),
            i <= len,
            out@ == spec_join_space(parts.deep_view().take(i as int)),
        decreases len - i,
    {
        if i > 0 {
            out.append(" ");
        }
        out.append(parts[i].as_str());
        proof {
            assert(parts.deep_view().take(i + 1).drop_last() =~= parts.deep_view().take(i as int));
            assert(parts.deep_view().take(i + 1).last() == parts@[i as int]@);
        }
        i = i + 1;
    }
    proof {
        assert(parts.deep_view().take(len as int) =~= parts.deep_view());
    }
    out
}

/// What an error's `args` array decodes to: every element must be a
/// string.
pub open spec fn spec_decode_args(items: Seq<Json>) -> Option<Seq<Seq<char>>>
    decreases items.len(),
{
    if items.len() == 0 {
        Some(Seq::empty())
    } else {
        match items[0] {
            Json::Str(s) => match spec_decode_args(items.drop_first()) {
                Some(rest) => Some(seq![s@] + rest),
                None => None,
            },
            _ => None,
        }
    }
}

/// Decodes an error's `args` array.
pub fn decode_args(items: &Vec<Json>) -> (r: Option<Vec<String>>)
    ensures
        match r {
            Some(v) => spec_decode_args(items@) == Some(v.deep_view()),
            None => spec_decode_args(items@) is None,
        },
{
    let len = items.len();
    let mut out: Vec<String> = Vec::new();
    let mut i: usize = 0;
    proof {
        assert(items@.skip(0) =~= items@);
        if spec_decode_args(items@) is Some {
            assert(out.deep_view() + spec_decode_args(items@)->Some_0 =~= spec_decode_args(
                items@,
            )->Some_0);
        }
    }
    while i < len
        invariant
            len == items@.len(),
            i <= len,
            spec_decode_args(items@) == (match spec_decode_args(items@.skip(i as int)) {
                Some(rest) => Some(out.deep_view() + rest),
                None => None::<Seq<Seq<char>>>,
            }),
        decreases len - i,
    {
        proof {
            assert(items@.skip(i as int)[0] == items@[i as int]);
            assert(items@.skip(i as int).drop_first() =~= items@.skip(i + 1));
        }
        let s = match &items[i] {
            Json::Str(s) => s.clone(),
            _ => {
                proof {
                    assert(spec_decode_args(items@.skip(i as int)) is None);
                }
                return None;
            },
        };
        let ghost pre = out.deep_view();
        let ghost sv = s@;
        out.push(s);
        proof {
            assert(out.deep_view() =~= pre.push(sv));
            if spec_decode_args(items@.skip(i + 1)) is Some {
                let rest2 = spec_decode_args(items@.skip(i + 1))->Some_0;
                assert(spec_decode_args(items@.skip(i as int)) == Some(seq![sv] + rest2));
                assert(pre + (seq![sv] + rest2) =~= out.deep_view() + rest2);
            }
        }
        i = i + 1;
    }
    proof {
        assert(items@.skip(len as int) =~= Seq::<Json>::empty());
        assert(out.deep_view() + Seq::<Seq<char>>::empty() =~= out.deep_view());
    }
    Some(out)
}

/// What one `errors` entry means, if it is well-formed: an object whose
/// `key` is a string with a positional index in its second
/// comma-separated field, and whose `args` is an array of strings; the
/// override message joins the arguments after `"failed - "`. A malformed
/// entry means nothing and is ignored, rather than faulting the whole
/// response.
pub open spec fn spec_error_override(j: Json) -> Option<(usize, Seq<char>)> {
    match j {
        Json::Obj(fields) => match spec_obj_get(fields@, "key"@) {
            Some(Json::Str(k)) => match spec_second_field(k@) {
                Some(f) => match spec_parse_usize(f) {
                    Some(idx) => match spec_obj_get(fields@, "args"@) {
                        Some(Json::Arr(items)) => match spec_decode_args(items@) {
                            Some(args) => Some((idx, "failed - "@ + spec_join_space(args))),
                            None => None,
                        },
                        _ => None,
                    },
                    None => None,
                },
                None => None,
            },
            _ => None,
        },
        _ => None,
    }
}

/// Reads one `errors` entry.
pub fn error_override(j: &Json) -> (r: Option<(usize, String)>)
    ensures
        match r {
            Some(p) => spec_error_override(*j) == Some((p.0, p.1@)),
            None => spec_error_override(*j) is None,
        },
{
    let fields = match j {
        Json::Obj(fields) => fields,
        _ => {
            return None;
        },
    };
    let k = match obj_get(fields, "key") {
        Some(Json::Str(s)) => s,
        _ => {
            return None;
        },
    };
    let f = match second_field(k.as_str()) {
        Some(f) => f,
        None => {
            return None;
        },
    };
    let idx = match parse_usize(f.as_str()) {
        Some(idx) => idx,
        None => {
            return None;
        },
    };
    let items = match obj_get(fields, "args") {
        Some(Json::Arr(items)) => items,
        _ => {
            return None;
        },
    };
    let args = match decode_args(items) {
        Some(args) => args,
        None => {
            return None;
        },
    };
    let joined = join_space(&args);
    let mut msg = String::new();
    msg.append("failed - ");
    msg.append(joined.as_str());
    Some((idx, msg))
}

/// The flat result list before any override: one "verified" success per
/// submitted message.
pub open spec fn spec_default_results(n: nat) -> Seq<VerifyResultV> {
    Seq::new(n, |i: int| VerifyResultV { value: Some(true), message: Some("verified"@) })
}

/// The flat result list after the `errors` entries are applied in order:
/// each well-formed entry overwrites the result at its index with an
/// explicit failure; entries that are malformed or whose index is out of
/// range change nothing.
pub open spec fn spec_apply_errors(results: Seq<VerifyResultV>, errors: Seq<Json>) -> Seq<
    VerifyResultV,
>
    decreases errors.len(),
{
    if errors.len() == 0 {
        results
    } else {
        let rest = spec_apply_errors(results, errors.drop_last());
        match spec_error_override(errors.last()) {
            Some(p) => if p.0 < rest.len() {
                rest.update(p.0 as int, VerifyResultV { value: Some(false), message: Some(p.1) })
            } else {
                rest
            },
            None => rest,
        }
    }
}

/// Applying errors never changes the list's length.
pub proof fn lemma_apply_errors_len(results: Seq<VerifyResultV>, errors: Seq<Json>)
    ensures
        spec_apply_errors(results, errors).len() == results.len(),
    decreases errors.len(),
{
    if errors.len() > 0 {
        lemma_apply_errors_len(results, errors.drop_last());
    }
}

/// The `errors` array of the response document, or nothing where the
/// document carries none.
pub open spec fn spec_response_errors(j: Json) -> Seq<Json> {
    match j {
        Json::Obj(fields) => match spec_obj_get(fields@, "errors"@) {
            Some(Json::Arr(items)) => items@,
            _ => Seq::empty(),
        },
        _ => Seq::empty(),
    }
}

/// What a verification exchange means, for every possible outcome. `body`
/// is the response text of a successful request, or nothing where no
/// request was made, the request failed, or the status was not a success:
/// then — and when the body is not JSON — all three segments are empty,
/// which callers must read as "verification unavailable", never as an
/// explicit failure. Otherwise every submitted message defaults to a
/// verified result and the response's `errors` overwrite by position;
/// the flat list is cut into the tools, prompts and resources segments by
/// the counts captured at submission.
pub open spec fn spec_interpret_response(
    n_tools: nat,
    n_prompts: nat,
    n_resources: nat,
    body: Option<Seq<char>>,
) -> (Seq<VerifyResultV>, Seq<VerifyResultV>, Seq<VerifyResultV>) {
    let n = n_tools + n_prompts + n_resources;
    match body {
        None => (Seq::empty(), Seq::empty(), Seq::empty()),
        Some(text) => match spec_parse_json(text) {
            None => (Seq::empty(), Seq::empty(), Seq::empty()),
            Some(j) => {
                let flat = spec_apply_errors(spec_default_results(n), spec_response_errors(j));
                (
                    flat.take(n_tools as int),
                    flat.subrange(n_tools as int, (n_tools + n_prompts) as int),
                    flat.skip((n_tools + n_prompts) as int),
                )
            },
        },
    }
}

/// Interprets what came back from the verification endpoint, segmenting
/// the flat result list by the counts captured at submission.
pub fn interpret_verification_response(
    num_tools: usize,
    num_prompts: usize,
    num_resources: usize,
    body: Option<&str>,
) -> (r: (Vec<VerifyResult>, Vec<VerifyResult>, Vec<VerifyResult>))
    requires
        num_tools + num_prompts + num_resources <= usize::MAX,
    ensures
        ({
            let s = spec_interpret_response(
                num_tools as nat,
                num_prompts as nat,
                num_resources as nat,
                match body {
                    Some(t) => Some(t@),
                    None => None,
                },
            );
            &&& r.0.deep_view() == s.0
            &&& r.1.deep_view() == s.1
            &&& r.2.deep_view() == s.2
        }),
{
    let n = num_tools + num_prompts + num_resources;
    let text = match body {
        Some(t) => t,
        None => {
            return (Vec::new(), Vec::new(), Vec::new());
        },
    };
    let parsed = match parse_json(text) {
        Some(j) => j,
        None => {
            return (Vec::new(), Vec::new(), Vec::new());
        },
    };
    let mut flat: Vec<VerifyResult> = Vec::new();
    let mut i: usize = 0;
    while i < n
        invariant
            i <= n,
            flat@.len() == i,
            forall|k: int|
                0 <= k < i ==> flat.deep_view()[k] == (VerifyResultV {
                    value: Some(true),
                    message: Some("verified"@),
                }),
        decreases n - i,
    {
        let ghost pre = flat.deep_view();
        let item = VerifyResult { value: Some(true), message: Some("verified".to_owned()) };
        proof {
            assert(item.deep_view() == (VerifyResultV {
                value: Some(true),
                message: Some("verified"@),
            }));
        }
        flat.push(item);
        proof {
            assert(flat.deep_view() =~= pre.push(VerifyResultV {
                value: Some(true),
                message: Some("verified"@),
            }));
        }
        i = i + 1;
    }
    proof {
        assert(flat.deep_view() =~= spec_default_results(n as nat));
    }
    let errs_opt: Option<&Vec<Json>> = match &parsed {
        Json::Obj(fields) => match obj_get(fields, "errors") {
            Some(Json::Arr(items)) => Some(items),
            _ => None,
        },
        _ => None,
    };
    let ghost errsg = spec_response_errors(parsed);
    match errs_opt {
        Some(errs) => {
            let elen = errs.len();
            let mut e: usize = 0;
            proof {
                assert(errs@.take(0) =~= Seq::<Json>::empty());
            }
            while e < elen
                invariant
                    elen == errs@.len(),
                    e <= elen,
                    errs@ == errsg,
                    flat@.len() == n,
                    n == num_tools + num_prompts + num_resources,
                    flat.deep_view() == spec_apply_errors(
                        spec_default_results(n as nat),
                        errs@.take(e as int),
                    ),
                decreases elen - e,
            {
                proof {
                    assert(errs@.take(e + 1).drop_last() =~= errs@.take(e as int));
                    assert(errs@.take(e + 1).last() == errs@[e as int]);
                }
                match error_override(&errs[e]) {
                    Some(over) => {
                        if over.0 < n {
                            let ghost pre = flat.deep_view();
                            let ghost msgv = over.1@;
                            let idx = over.0;
                            flat.set(
                                idx,
                                VerifyResult { value: Some(false), message: Some(over.1) },
                            );
                            proof {
                                assert(flat.deep_view() =~= pre.update(
                                    idx as int,
                                    VerifyResultV { value: Some(false), message: Some(msgv) },
                                ));
                            }
                        }
                    },
                    None => {},
                }
                e = e + 1;
            }
            proof {
                assert(errs@.take(elen as int) =~= errs@);
            }
        },
        None => {
            proof {
                assert(errsg =~= Seq::<Json>::empty());
                assert(spec_apply_errors(spec_default_results(n as nat), errsg)
                    == spec_default_results(n as nat));
            }
        },
    }
    let ghost flatg = flat.deep_view();
    let resources = flat.split_off(num_tools + num_prompts);
    let prompts = flat.split_off(num_tools);
    let tools = flat;
    proof {
        assert(tools.deep_view() =~= flatg.take(num_tools as int));
        assert(prompts.deep_view() =~= flatg.subrange(
            num_tools as int,
            (num_tools + num_prompts) as int,
        ));
        assert(resources.deep_view() =~= flatg.skip((num_tools + num_prompts) as int));
    }
    (tools, prompts, resources)
}

/// One well-formed error flips exactly the result at its index to an
/// explicit failure; every other index keeps its default verified
/// result.
pub proof fn lemma_single_error_flips_one(n: nat, e: Json, idx: usize, msg: Seq<char>)
    requires
        spec_error_override(e) == Some((idx, msg)),
        idx < n,
    ensures
        ({
            let applied = spec_apply_errors(spec_default_results(n), seq![e]);
            &&& applied.len() == n
            &&& applied[idx as int] == (VerifyResultV { value: Some(false), message: Some(msg) })
            &&& forall|k: int|
                0 <= k < n && k != idx ==> applied[k] == (VerifyResultV {
                    value: Some(true),
                    message: Some("verified"@),
                })
        }),
{
    assert(seq![e].drop_last() =~= Seq::<Json>::empty());
    assert(spec_apply_errors(spec_default_results(n), Seq::<Json>::empty())
        == spec_default_results(n));
}

/// When the response parses, each of the three segments has exactly the
/// length of the corresponding submitted kind, so results align with
/// entities by position within each kind.
pub proof fn lemma_result_segment_lengths(
    n_tools: nat,
    n_prompts: nat,
    n_resources: nat,
    text: Seq<char>,
)
    requires
        spec_parse_json(text) is Some,
    ensures
        ({
            let s = spec_interpret_response(n_tools, n_prompts, n_resources, Some(text));
            &&& s.0.len() == n_tools
            &&& s.1.len() == n_prompts
            &&& s.2.len() == n_resources
        }),
{
    let j = spec_parse_json(text)->Some_0;
    let n = n_tools + n_prompts + n_resources;
    lemma_apply_errors_len(spec_default_results(n), spec_response_errors(j));
}

} // verus!
