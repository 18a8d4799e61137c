//! The storage engine: the in-memory record of last-seen fingerprints and
//! the whitelist of trusted fingerprints, with drift detection on rescan.
//!
//! The engine is pure: it is constructed from parsed documents and renders
//! documents back; reading and writing the storage directory, and the
//! best-effort upload of whitelist entries, happen outside the library.

use vstd::prelude::*;
use vstd::string::StringExecFns;
use crate::assoc::{assoc_set, keys_unique, spec_assoc_get, spec_unique_keys};
use crate::json::{obj_get, parse_json, render_json_pretty, spec_obj_get, spec_parse_json,
    spec_render_json_pretty, Json};
use crate::hash::{fingerprint, spec_fingerprint};
use crate::mcp_types::{Entity, EntityV, ScannedEntity, ScannedEntityV, VerifyResult};
use crate::text::{composite_key, spec_composite_key, spec_whitelist_key, str_eq, whitelist_key};
use crate::time::{display_time, now_rfc3339, spec_display_time};

verus! {

/// The fingerprint of an entity: the fingerprint of its description, or
/// nothing when it has no description (hashing is skipped, not applied to
/// an empty string, so two description-less entities are indistinguishable
/// for drift purposes).
pub open spec fn spec_entity_fingerprint(e: EntityV) -> Option<Seq<char>> {
    match e.description {
        Some(d) => Some(spec_fingerprint(d)),
        None => None,
    }
}

/// The hash stored for an entity: its fingerprint, or the empty string
/// when it has none.
pub open spec fn spec_stored_hash(e: EntityV) -> Seq<char> {
    match spec_entity_fingerprint(e) {
        Some(h) => h,
        None => Seq::empty(),
    }
}

/// The record a scan at instant `ts` writes for an entity.
pub open spec fn spec_new_record(e: EntityV, verified: bool, ts: Seq<char>) -> ScannedEntityV {
    ScannedEntityV {
        hash: spec_stored_hash(e),
        kind: e.kind,
        verified,
        timestamp: ts,
        description: e.description,
    }
}

/// Whether a rescan of `e` against the prior record drifted: false when
/// no record exists yet, else true exactly when the stored hash differs.
pub open spec fn spec_changed(prior: Option<ScannedEntityV>, e: EntityV) -> bool {
    match prior {
        Some(p) => p.hash != spec_stored_hash(e),
        None => false,
    }
}

/// The drift message rendered when a rescan finds a changed description.
pub open spec fn spec_changed_message(kind: Seq<char>, prior_ts: Seq<char>) -> Seq<char> {
    kind + " description changed since previous scan at "@ + spec_display_time(prior_ts)
}

/// The record stored under `key`, by abstract value.
pub open spec fn spec_lookup_record(
    entries: Seq<(String, ScannedEntity)>,
    key: Seq<char>,
) -> Option<ScannedEntityV> {
    match spec_assoc_get(entries, key) {
        Some(r) => Some(r@),
        None => None,
    }
}

/// Whether `h` equals some value of the whitelist — membership is by
/// value, never by key.
pub open spec fn spec_hash_whitelisted(wl: Seq<(String, String)>, h: Seq<char>) -> bool {
    exists|i: int| 0 <= i < wl.len() && wl[i].1@ == h
}

/// Whether an entity is whitelisted: its fingerprint equals some value in
/// the whitelist. An entity without a description is never whitelisted.
pub open spec fn spec_is_whitelisted(wl: Seq<(String, String)>, e: EntityV) -> bool {
    match spec_entity_fingerprint(e) {
        Some(h) => spec_hash_whitelisted(wl, h),
        None => false,
    }
}

/// The persistent state: the record of scanned entities, keyed by
/// `"{server}.{kind}.{name}"`, and the whitelist of trusted fingerprints,
/// keyed by `"{kind}.{name}"`.
pub struct StorageFile {
    pub scanned_entities: Vec<(String, ScannedEntity)>,
    pub whitelist: Vec<(String, String)>,
}

impl StorageFile {
    /// Both mappings bind each key at most once.
    pub open spec fn wf(&self) -> bool {
        spec_unique_keys(self.scanned_entities@) && spec_unique_keys(self.whitelist@)
    }

    /// Whether the well-formedness invariant holds, decided at run time
    /// so that callers outside the library can test it before calling
    /// the operations that require it.
    pub fn check_wf(&self) -> (r: bool)
        ensures
            r == self.wf(),
    {
        keys_unique(&self.scanned_entities) && keys_unique(&self.whitelist)
    }

    /// An empty store.
    pub fn empty() -> (r: StorageFile)
        ensures
            r.wf(),
            r.scanned_entities@ == Seq::<(String, ScannedEntity)>::empty(),
            r.whitelist@ == Seq::<(String, String)>::empty(),
    {
        StorageFile { scanned_entities: Vec::new(), whitelist: Vec::new() }
    }

    /// The fingerprint of an entity, if it has a description.
    pub fn compute_hash(&self, entity: Option<&Entity>) -> (r: Option<String>)
        ensures
            match (r, entity) {
                (Some(h), Some(e)) => spec_entity_fingerprint(e@) == Some(h@),
                (None, Some(e)) => spec_entity_fingerprint(e@) is None,
                (None, None) => true,
                (Some(_), None) => false,
            },
    {
        match entity {
            Some(e) => match e.description() {
                Some(d) => Some(fingerprint(d.as_str())),
                None => None,
            },
            None => None,
        }
    }

    /// Records a scan of `entity` made at instant `timestamp`: captures
    /// the prior record for the entity's composite key, reports whether
    /// the description drifted since that record, and overwrites the
    /// record unconditionally. No other key, and no whitelist entry, is
    /// touched.
    pub fn check_and_update_at(
        &mut self,
        server_name: &str,
        entity: &Entity,
        verified: bool,
        timestamp: String,
    ) -> (r: (VerifyResult, Option<ScannedEntity>))
        requires
            old(self).wf(),
        ensures
            final(self).wf(),
            final(self).whitelist@ == old(self).whitelist@,
            ({
                let key = spec_composite_key(server_name@, entity@.kind, entity@.name);
                let prior = spec_lookup_record(old(self).scanned_entities@, key);
                let changed = spec_changed(prior, entity@);
                &&& spec_lookup_record(final(self).scanned_entities@, key) == Some(
                    spec_new_record(entity@, verified, timestamp@),
                )
                &&& forall|k: Seq<char>|
                    k != key ==> spec_assoc_get(final(self).scanned_entities@, k)
                        == spec_assoc_get(old(self).scanned_entities@, k)
                &&& r.0.value == Some(changed)
                &&& r.0@.message == (if changed {
                    Some(spec_changed_message(entity@.kind, prior->Some_0.timestamp))
                } else {
                    Option::<Seq<char>>::None
                })
                &&& match (r.1, spec_assoc_get(old(self).scanned_entities@, key)) {
                    (Some(a), Some(b)) => a == b,
                    (None, None) => true,
                    _ => false,
                }
            }),
    {
        let kind = crate::mcp_types::entity_type_to_str(entity);
        let name = entity.name();
        let key = composite_key(server_name, kind, name.as_str());
        let stored_hash = match self.compute_hash(Some(entity)) {
            Some(h) => h,
            None => String::new(),
        };
        let new_record = ScannedEntity {
            hash: stored_hash.clone(),
            kind: kind.to_owned(),
            verified,
            timestamp,
            description: entity.description(),
        };
        proof {
            assert(new_record@ == spec_new_record(entity@, verified, timestamp@));
        }
        let prev = assoc_set(&mut self.scanned_entities, key, new_record);
        let changed = match &prev {
            Some(p) => !str_eq(p.hash.as_str(), stored_hash.as_str()),
            None => false,
        };
        let message = if changed {
            match &prev {
                Some(p) => {
                    let shown = display_time(p.timestamp.as_str());
                    let mut m = String::new();
                    m.append(kind);
                    m.append(" description changed since previous scan at ");
                    m.append(shown.as_str());
                    Some(m)
                },
                None => None,
            }
        } else {
            None
        };
        (VerifyResult { value: Some(changed), message }, prev)
    }

    /// [`Self::check_and_update_at`] at the current instant: the stored
    /// timestamp is whatever the clock read, everything else is as there.
    pub fn check_and_update(&mut self, server_name: &str, entity: &Entity, verified: bool) -> (r: (
        VerifyResult,
        Option<ScannedEntity>,
    ))
        requires
            old(self).wf(),
        ensures
            final(self).wf(),
            final(self).whitelist@ == old(self).whitelist@,
            ({
                let key = spec_composite_key(server_name@, entity@.kind, entity@.name);
                let prior = spec_lookup_record(old(self).scanned_entities@, key);
                let changed = spec_changed(prior, entity@);
                &&& exists|ts: Seq<char>|
                    spec_lookup_record(final(self).scanned_entities@, key) == Some(
                        #[trigger] spec_new_record(entity@, verified, ts),
                    )
                &&& forall|k: Seq<char>|
                    k != key ==> spec_assoc_get(final(self).scanned_entities@, k)
                        == spec_assoc_get(old(self).scanned_entities@, k)
                &&& r.0.value == Some(changed)
                &&& r.0@.message == (if changed {
                    Some(spec_changed_message(entity@.kind, prior->Some_0.timestamp))
                } else {
                    Option::<Seq<char>>::None
                })
                &&& match (r.1, spec_assoc_get(old(self).scanned_entities@, key)) {
                    (Some(a), Some(b)) => a == b,
                    (None, None) => true,
                    _ => false,
                }
            }),
    {
        let ts = now_rfc3339();
        let ghost tsv = ts@;
        let r = self.check_and_update_at(server_name, entity, verified, ts);
        proof {
            let key = spec_composite_key(server_name@, entity@.kind, entity@.name);
            assert(spec_lookup_record(self.scanned_entities@, key) == Some(
                spec_new_record(entity@, verified, tsv),
            ));
        }
        r
    }

    /// Whether the entity's fingerprint equals some whitelist value.
    pub fn is_whitelisted(&self, entity: &Entity) -> (r: bool)
        ensures
            r == spec_is_whitelisted(self.whitelist@, entity@),
    {
        let hash = match self.compute_hash(Some(entity)) {
            Some(h) => h,
            None => {
                return false;
            },
        };
        let len = self.whitelist.len();
        let mut i: usize = 0;
        while i < len
            invariant
                len == self.whitelist@.len(),
                i <= len,
                spec_entity_fingerprint(entity@) == Some(hash@),
                forall|j: int| 0 <= j < i ==> self.whitelist@[j].1@ != hash@,
            decreases len - i,
        {
            if str_eq(self.whitelist[i].1.as_str(), hash.as_str()) {
                return true;
            }
            i = i + 1;
        }
        false
    }

    /// Binds the whitelist key `"{kind}.{name}"` to `hash`, replacing any
    /// prior binding. The scanned-entity history is not touched. (The
    /// optional sharing of the entry with a remote endpoint is the
    /// caller's affair and best-effort.)
    pub fn add_to_whitelist(&mut self, entity_type: &str, name: &str, hash: &str)
        requires
            old(self).wf(),
        ensures
            final(self).wf(),
            final(self).scanned_entities@ == old(self).scanned_entities@,
            ({
                let key = spec_whitelist_key(entity_type@, name@);
                &&& spec_assoc_get(final(self).whitelist@, key) is Some
                &&& spec_assoc_get(final(self).whitelist@, key)->Some_0@ == hash@
                &&& forall|k: Seq<char>|
                    k != key ==> spec_assoc_get(final(self).whitelist@, k) == spec_assoc_get(
                        old(self).whitelist@,
                        k,
                    )
            }),
    {
        let key = whitelist_key(entity_type, name);
        let _ = assoc_set(&mut self.whitelist, key, hash.to_owned());
    }

    /// Empties the whitelist; the scanned-entity history is never touched.
    pub fn reset_whitelist(&mut self)
        ensures
            spec_unique_keys(old(self).scanned_entities@) ==> final(self).wf(),
            final(self).scanned_entities@ == old(self).scanned_entities@,
            final(self).whitelist@ == Seq::<(String, String)>::empty(),
    {
        self.whitelist.clear();
    }
}

/// A rescan that finds an unchanged description never reports drift: once
/// a scan has stored the record for an entity, any later scan of an
/// entity with the same description compares equal hashes, however often
/// it is repeated.
pub proof fn lemma_rescan_unchanged_not_drifted(
    e: EntityV,
    e2: EntityV,
    verified: bool,
    ts: Seq<char>,
)
    requires
        e2.description == e.description,
    ensures
        !spec_changed(Some(spec_new_record(e, verified, ts)), e2),
{
}

/// A rescan that finds a differing description always reports drift: a
/// stored hash that is not the entity's current stored hash.
pub proof fn lemma_differing_description_drifts(p: ScannedEntityV, e: EntityV)
    requires
        p.hash != spec_stored_hash(e),
    ensures
        spec_changed(Some(p), e),
{
}

/// Whitelisting is by fingerprint value: a hash present anywhere among
/// the whitelist's values — under whatever name it was added — covers
/// every entity whose description fingerprints to it.
pub proof fn lemma_whitelist_covers_equal_hash(wl: Seq<(String, String)>, idx: int, e: EntityV)
    requires
        0 <= idx < wl.len(),
        spec_entity_fingerprint(e) == Some(wl[idx].1@),
    ensures
        spec_is_whitelisted(wl, e),
{
}

/// Two entities with the same description are whitelisted together: the
/// fingerprint depends on the description alone.
pub proof fn lemma_whitelist_same_description(wl: Seq<(String, String)>, a: EntityV, b: EntityV)
    requires
        a.description == b.description,
    ensures
        spec_is_whitelisted(wl, a) == spec_is_whitelisted(wl, b),
{
}

/// What a record of the stored document decodes to, if it is
/// well-formed: an object whose `hash`, `type` and `timestamp` fields are
/// strings, whose `verified` field is a boolean, and whose `description`
/// field, when present, is a string or null. Other fields are ignored.
pub open spec fn spec_decode_record(j: Json) -> Option<ScannedEntityV> {
    match j {
        Json::Obj(fields) => {
            let h = spec_obj_get(fields@, "hash"@);
            let k = spec_obj_get(fields@, "type"@);
            let v = spec_obj_get(fields@, "verified"@);
            let t = spec_obj_get(fields@, "timestamp"@);
            let d = spec_obj_get(fields@, "description"@);
            match (h, k, v, t) {
                (Some(Json::Str(hs)), Some(Json::Str(ks)), Some(Json::Bool(vb)), Some(
                    Json::Str(tss),
                )) => match d {
                    Some(Json::Str(ds)) => Some(
                        ScannedEntityV {
                            hash: hs@,
                            kind: ks@,
                            verified: vb,
                            timestamp: tss@,
                            description: Some(ds@),
                        },
                    ),
                    Some(Json::Null) => Some(
                        ScannedEntityV {
                            hash: hs@,
                            kind: ks@,
                            verified: vb,
                            timestamp: tss@,
                            description: None,
                        },
                    ),
                    None => Some(
                        ScannedEntityV {
                            hash: hs@,
                            kind: ks@,
                            verified: vb,
                            timestamp: tss@,
                            description: None,
                        },
                    ),
                    _ => None,
                },
                _ => None,
            }
        },
        _ => None,
    }
}

/// Decodes one stored record.
pub fn decode_record(j: &Json) -> (r: Option<ScannedEntity>)
    ensures
        match r {
            Some(rec) => spec_decode_record(*j) == Some(rec@),
            None => spec_decode_record(*j) is None,
        },
{
    let fields = match j {
        Json::Obj(fields) => fields,
        _ => {
            return None;
        },
    };
    let hs = match obj_get(fields, "hash") {
        Some(Json::Str(s)) => s,
        _ => {
            return None;
        },
    };
    let ks = match obj_get(fields, "type") {
        Some(Json::Str(s)) => s,
        _ => {
            return None;
        },
    };
    let vb = match obj_get(fields, "verified") {
        Some(Json::Bool(b)) => *b,
        _ => {
            return None;
        },
    };
    let tss = match obj_get(fields, "timestamp") {
        Some(Json::Str(s)) => s,
        _ => {
            return None;
        },
    };
    let ds = match obj_get(fields, "description") {
        Some(Json::Str(s)) => Some(s.clone()),
        Some(Json::Null) => None,
        None => None,
        _ => {
            return None;
        },
    };
    Some(
        ScannedEntity {
            hash: hs.clone(),
            kind: ks.clone(),
            verified: vb,
            timestamp: tss.clone(),
            description: ds,
        },
    )
}

/// Encodes one record as the stored document holds it; the decoder reads
/// it back to the same value.
pub fn record_to_json(rec: &ScannedEntity) -> (j: Json)
    ensures
        spec_decode_record(j) == Some(rec@),
{
    let mut fields: Vec<(String, Json)> = Vec::new();
    fields.push(("hash".to_owned(), Json::Str(rec.hash.clone())));
    fields.push(("type".to_owned(), Json::Str(rec.kind.clone())));
    fields.push(("verified".to_owned(), Json::Bool(rec.verified)));
    fields.push(("timestamp".to_owned(), Json::Str(rec.timestamp.clone())));
    fields.push((
        "description".to_owned(),
        match &rec.description {
            Some(d) => Json::Str(d.clone()),
            None => Json::Null,
        },
    ));
    proof {
        reveal_strlit("hash");
        reveal_strlit("type");
        reveal_strlit("verified");
        reveal_strlit("timestamp");
        reveal_strlit("description");
        assert("hash"@.len() == 4 && "type"@.len() == 4 && "verified"@.len() == 8
            && "timestamp"@.len() == 9 && "description"@.len() == 11);
        assert("hash"@[0] == 'h' && "type"@[0] == 't');
        lemma_five_field_lookups(fields@);
    }
    Json::Obj(fields)
}

/// One whitelist entry as displayed: the kind and name split out of the
/// composite key at its first dot — a key without a dot is shown as a
/// tool — and the trusted hash.
pub open spec fn spec_whitelist_row(key: Seq<char>, hash: Seq<char>) -> (Seq<char>, Seq<char>, Seq<
    char,
>) {
    match crate::text::spec_find(key, '.') {
        Some(p) => (key.take(p), key.skip(p + 1), hash),
        None => ("tool"@, key, hash),
    }
}

impl StorageFile {
    /// The whitelist as rows of kind, name and hash, entry for entry.
    /// Callers order them for display as they see fit.
    pub fn whitelist_rows(&self) -> (r: Vec<(String, String, String)>)
        ensures
            r@.len() == self.whitelist@.len(),
            forall|i: int|
                0 <= i < r@.len() ==> (r@[i].0@, r@[i].1@, r@[i].2@) == spec_whitelist_row(
                    self.whitelist@[i].0@,
                    self.whitelist@[i].1@,
                ),
    {
        let len = self.whitelist.len();
        let mut rows: Vec<(String, String, String)> = Vec::new();
        let mut i: usize = 0;
        while i < len
            invariant
                len == self.whitelist@.len(),
                i <= len,
                rows@.len() == i,
                forall|k: int|
                    0 <= k < i ==> (rows@[k].0@, rows@[k].1@, rows@[k].2@) == spec_whitelist_row(
                        self.whitelist@[k].0@,
                        self.whitelist@[k].1@,
                    ),
            decreases len - i,
        {
            let key = &self.whitelist[i].0;
            let klen = key.as_str().unicode_len();
            let row = match crate::text::find_char(key.as_str(), '.') {
                Some(p) => {
                    let kind = key.as_str().substring_char(0, p);
                    let name = key.as_str().substring_char(p + 1, klen);
                    proof {
                        assert(kind@ =~= key@.take(p as int));
                        assert(name@ =~= key@.skip(p + 1));
                    }
                    (kind.to_owned(), name.to_owned(), self.whitelist[i].1.clone())
                },
                None => ("tool".to_owned(), key.clone(), self.whitelist[i].1.clone()),
            };
            rows.push(row);
            i = i + 1;
        }
        rows
    }
}

/// What a sequence of document entries decodes to: every value must be a
/// well-formed record.
pub open spec fn spec_decode_records(entries: Seq<(String, Json)>) -> Option<
    Seq<(Seq<char>, ScannedEntityV)>,
>
    decreases entries.len(),
{
    if entries.len() == 0 {
        Some(Seq::empty())
    } else {
        match spec_decode_record(entries[0].1) {
            Some(rec) => match spec_decode_records(entries.drop_first()) {
                Some(rest) => Some(seq![(entries[0].0@, rec)] + rest),
                None => None,
            },
            None => None,
        }
    }
}

/// What the scanned-entities document decodes to: an object with unique
/// keys whose every value is a well-formed record.
pub open spec fn spec_decode_scanned(j: Json) -> Option<Seq<(Seq<char>, ScannedEntityV)>> {
    match j {
        Json::Obj(entries) => if spec_unique_keys(entries@) {
            spec_decode_records(entries@)
        } else {
            None
        },
        _ => None,
    }
}

/// Decodes the scanned-entities document.
pub fn decode_scanned(j: &Json) -> (r: Option<Vec<(String, ScannedEntity)>>)
    ensures
        match r {
            Some(v) => spec_decode_scanned(*j) == Some(v.deep_view()) && spec_unique_keys(v@),
            None => spec_decode_scanned(*j) is None,
        },
{
    let entries = match j {
        Json::Obj(entries) => entries,
        _ => {
            return None;
        },
    };
    if !keys_unique(entries) {
        return None;
    }
    let len = entries.len();
    let mut out: Vec<(String, ScannedEntity)> = Vec::new();
    let mut i: usize = 0;
    proof {
        assert(entries@.skip(0) =~= entries@);
        if spec_decode_records(entries@) is Some {
            assert(out.deep_view() + spec_decode_records(entries@)->Some_0 =~= spec_decode_records(
                entries@,
            )->Some_0);
        }
    }
    while i < len
        invariant
            len == entries@.len(),
            i <= len,
            *j is Obj,
            j->Obj_0 == *entries,
            spec_unique_keys(entries@),
            out@.len() == i,
            forall|j2: int| 0 <= j2 < i ==> out@[j2].0@ == entries@[j2].0@,
            spec_decode_records(entries@) == (match spec_decode_records(entries@.skip(i as int)) {
                Some(rest) => Some(out.deep_view() + rest),
                None => None::<Seq<(Seq<char>, ScannedEntityV)>>,
            }),
        decreases len - i,
    {
        proof {
            assert(entries@.skip(i as int)[0] == entries@[i as int]);
            assert(entries@.skip(i as int).drop_first() =~= entries@.skip(i + 1));
        }
        let rec = match decode_record(&entries[i].1) {
            Some(rec) => rec,
            None => {
                proof {
                    assert(spec_decode_records(entries@.skip(i as int)) is None);
                    assert(spec_decode_records(entries@) is None);
                }
                return None;
            },
        };
        let pair = (entries[i].0.clone(), rec);
        let ghost pre = out.deep_view();
        let ghost recv = pair.1@;
        out.push(pair);
        proof {
            assert(out.deep_view() =~= pre.push((entries@[i as int].0@, recv)));
            if spec_decode_records(entries@.skip(i + 1)) is Some {
                let rest2 = spec_decode_records(entries@.skip(i + 1))->Some_0;
                assert(spec_decode_records(entries@.skip(i as int)) == Some(
                    seq![(entries@[i as int].0@, recv)] + rest2,
                ));
                assert(pre + (seq![(entries@[i as int].0@, recv)] + rest2) =~= out.deep_view()
                    + rest2);
            }
        }
        i = i + 1;
    }
    proof {
        assert(entries@.skip(len as int) =~= Seq::<(String, Json)>::empty());
        assert(out.deep_view() + Seq::<(Seq<char>, ScannedEntityV)>::empty() =~= out.deep_view());
        assert forall|a: int, b: int| 0 <= a < b < out@.len() implies out@[a].0@ != out@[b].0@ by {
            assert(entries@[a].0@ != entries@[b].0@);
        }
    }
    Some(out)
}

/// Appending a document entry appends its decoded record.
proof fn lemma_decode_records_push(entries: Seq<(String, Json)>, p: (String, Json))
    ensures
        spec_decode_records(entries.push(p)) == (match (
            spec_decode_records(entries),
            spec_decode_record(p.1),
        ) {
            (Some(rs), Some(r)) => Some(rs.push((p.0@, r))),
            _ => None::<Seq<(Seq<char>, ScannedEntityV)>>,
        }),
    decreases entries.len(),
{
    if entries.len() == 0 {
        assert(entries.push(p)[0] == p);
        assert(entries.push(p).drop_first() =~= Seq::<(String, Json)>::empty());
        assert(spec_decode_records(Seq::<(String, Json)>::empty()) == Some(Seq::<
            (Seq<char>, ScannedEntityV),
        >::empty()));
        assert(spec_decode_records(entries) == Some(Seq::<(Seq<char>, ScannedEntityV)>::empty()));
        if spec_decode_record(p.1) is Some {
            let r = spec_decode_record(p.1)->Some_0;
            assert(spec_decode_records(entries.push(p)) == Some(
                seq![(p.0@, r)] + Seq::<(Seq<char>, ScannedEntityV)>::empty(),
            ));
            assert(seq![(p.0@, r)] + Seq::<(Seq<char>, ScannedEntityV)>::empty() =~= Seq::<
                (Seq<char>, ScannedEntityV),
            >::empty().push((p.0@, r)));
        } else {
            assert(spec_decode_records(entries.push(p)) is None);
        }
    } else {
        assert(entries.push(p)[0] == entries[0]);
        assert(entries.push(p).drop_first() =~= entries.drop_first().push(p));
        lemma_decode_records_push(entries.drop_first(), p);
        if spec_decode_record(entries[0].1) is None {
            assert(spec_decode_records(entries.push(p)) is None);
            assert(spec_decode_records(entries) is None);
        } else {
            let rec0 = spec_decode_record(entries[0].1)->Some_0;
            if spec_decode_records(entries.drop_first()) is None {
                assert(spec_decode_records(entries.drop_first().push(p)) is None);
                assert(spec_decode_records(entries.push(p)) is None);
                assert(spec_decode_records(entries) is None);
            } else if spec_decode_record(p.1) is None {
                assert(spec_decode_records(entries.drop_first().push(p)) is None);
                assert(spec_decode_records(entries.push(p)) is None);
            } else {
                let rest = spec_decode_records(entries.drop_first())->Some_0;
                let r = spec_decode_record(p.1)->Some_0;
                assert(spec_decode_records(entries.drop_first().push(p)) == Some(
                    rest.push((p.0@, r)),
                ));
                assert(spec_decode_records(entries.push(p)) == Some(
                    seq![(entries[0].0@, rec0)] + rest.push((p.0@, r)),
                ));
                assert(spec_decode_records(entries) == Some(seq![(entries[0].0@, rec0)] + rest));
                assert(seq![(entries[0].0@, rec0)] + rest.push((p.0@, r)) =~= (seq![
                    (entries[0].0@, rec0),
                ] + rest).push((p.0@, r)));
            }
        }
    }
}

/// What a sequence of whitelist entries decodes to: every value must be a
/// string.
pub open spec fn spec_decode_hashes(entries: Seq<(String, Json)>) -> Option<
    Seq<(Seq<char>, Seq<char>)>,
>
    decreases entries.len(),
{
    if entries.len() == 0 {
        Some(Seq::empty())
    } else {
        match entries[0].1 {
            Json::Str(h) => match spec_decode_hashes(entries.drop_first()) {
                Some(rest) => Some(seq![(entries[0].0@, h@)] + rest),
                None => None,
            },
            _ => None,
        }
    }
}

/// What the whitelist document decodes to: an object with unique keys
/// whose every value is a hash string.
pub open spec fn spec_decode_whitelist(j: Json) -> Option<Seq<(Seq<char>, Seq<char>)>> {
    match j {
        Json::Obj(entries) => if spec_unique_keys(entries@) {
            spec_decode_hashes(entries@)
        } else {
            None
        },
        _ => None,
    }
}

/// Decodes the whitelist document.
pub fn decode_whitelist(j: &Json) -> (r: Option<Vec<(String, String)>>)
    ensures
        match r {
            Some(v) => spec_decode_whitelist(*j) == Some(v.deep_view()) && spec_unique_keys(v@),
            None => spec_decode_whitelist(*j) is None,
        },
{
    let entries = match j {
        Json::Obj(entries) => entries,
        _ => {
            return None;
        },
    };
    if !keys_unique(entries) {
        return None;
    }
    let len = entries.len();
    let mut out: Vec<(String, String)> = Vec::new();
    let mut i: usize = 0;
    proof {
        assert(entries@.skip(0) =~= entries@);
        if spec_decode_hashes(entries@) is Some {
            assert(out.deep_view() + spec_decode_hashes(entries@)->Some_0 =~= spec_decode_hashes(
                entries@,
            )->Some_0);
        }
    }
    while i < len
        invariant
            len == entries@.len(),
            i <= len,
            *j is Obj,
            j->Obj_0 == *entries,
            spec_unique_keys(entries@),
            out@.len() == i,
            forall|j2: int| 0 <= j2 < i ==> out@[j2].0@ == entries@[j2].0@,
            spec_decode_hashes(entries@) == (match spec_decode_hashes(entries@.skip(i as int)) {
                Some(rest) => Some(out.deep_view() + rest),
                None => None::<Seq<(Seq<char>, Seq<char>)>>,
            }),
        decreases len - i,
    {
        proof {
            assert(entries@.skip(i as int)[0] == entries@[i as int]);
            assert(entries@.skip(i as int).drop_first() =~= entries@.skip(i + 1));
        }
        let h = match &entries[i].1 {
            Json::Str(h) => h.clone(),
            _ => {
                proof {
                    assert(spec_decode_hashes(entries@.skip(i as int)) is None);
                    assert(spec_decode_hashes(entries@) is None);
                }
                return None;
            },
        };
        let pair = (entries[i].0.clone(), h);
        let ghost pre = out.deep_view();
        let ghost hv = pair.1@;
        out.push(pair);
        proof {
            assert(out.deep_view() =~= pre.push((entries@[i as int].0@, hv)));
            if spec_decode_hashes(entries@.skip(i + 1)) is Some {
                let rest2 = spec_decode_hashes(entries@.skip(i + 1))->Some_0;
                assert(spec_decode_hashes(entries@.skip(i as int)) == Some(
                    seq![(entries@[i as int].0@, hv)] + rest2,
                ));
                assert(pre + (seq![(entries@[i as int].0@, hv)] + rest2) =~= out.deep_view()
                    + rest2);
            }
        }
        i = i + 1;
    }
    proof {
        assert(entries@.skip(len as int) =~= Seq::<(String, Json)>::empty());
        assert(out.deep_view() + Seq::<(Seq<char>, Seq<char>)>::empty() =~= out.deep_view());
        assert forall|a: int, b: int| 0 <= a < b < out@.len() implies out@[a].0@ != out@[b].0@ by {
            assert(entries@[a].0@ != entries@[b].0@);
        }
    }
    Some(out)
}

/// Appending a whitelist entry appends its decoded pair.
proof fn lemma_decode_hashes_push(entries: Seq<(String, Json)>, p: (String, Json))
    ensures
        spec_decode_hashes(entries.push(p)) == (match (
            spec_decode_hashes(entries),
            p.1,
        ) {
            (Some(rs), Json::Str(h)) => Some(rs.push((p.0@, h@))),
            _ => None::<Seq<(Seq<char>, Seq<char>)>>,
        }),
    decreases entries.len(),
{
    if entries.len() == 0 {
        assert(entries.push(p)[0] == p);
        assert(entries.push(p).drop_first() =~= Seq::<(String, Json)>::empty());
        assert(spec_decode_hashes(Seq::<(String, Json)>::empty()) == Some(Seq::<
            (Seq<char>, Seq<char>),
        >::empty()));
        assert(spec_decode_hashes(entries) == Some(Seq::<(Seq<char>, Seq<char>)>::empty()));
        if p.1 is Str {
            let h = p.1->Str_0;
            assert(spec_decode_hashes(entries.push(p)) == Some(
                seq![(p.0@, h@)] + Seq::<(Seq<char>, Seq<char>)>::empty(),
            ));
            assert(seq![(p.0@, h@)] + Seq::<(Seq<char>, Seq<char>)>::empty() =~= Seq::<
                (Seq<char>, Seq<char>),
            >::empty().push((p.0@, h@)));
        } else {
            assert(spec_decode_hashes(entries.push(p)) is None);
        }
    } else {
        assert(entries.push(p)[0] == entries[0]);
        assert(entries.push(p).drop_first() =~= entries.drop_first().push(p));
        lemma_decode_hashes_push(entries.drop_first(), p);
        if !(entries[0].1 is Str) {
            assert(spec_decode_hashes(entries.push(p)) is None);
            assert(spec_decode_hashes(entries) is None);
        } else {
            let h0 = entries[0].1->Str_0;
            if spec_decode_hashes(entries.drop_first()) is None {
                assert(spec_decode_hashes(entries.drop_first().push(p)) is None);
                assert(spec_decode_hashes(entries.push(p)) is None);
                assert(spec_decode_hashes(entries) is None);
            } else if !(p.1 is Str) {
                assert(spec_decode_hashes(entries.drop_first().push(p)) is None);
                assert(spec_decode_hashes(entries.push(p)) is None);
            } else {
                let rest = spec_decode_hashes(entries.drop_first())->Some_0;
                let h = p.1->Str_0;
                assert(spec_decode_hashes(entries.drop_first().push(p)) == Some(
                    rest.push((p.0@, h@)),
                ));
                assert(spec_decode_hashes(entries.push(p)) == Some(
                    seq![(entries[0].0@, h0@)] + rest.push((p.0@, h@)),
                ));
                assert(spec_decode_hashes(entries) == Some(seq![(entries[0].0@, h0@)] + rest));
                assert(seq![(entries[0].0@, h0@)] + rest.push((p.0@, h@)) =~= (seq![
                    (entries[0].0@, h0@),
                ] + rest).push((p.0@, h@)));
            }
        }
    }
}

impl StorageFile {
    /// Builds the store from the two persisted documents' text. A
    /// document that is absent, is not JSON, or does not decode
    /// contributes an empty mapping, so a damaged store degrades to a
    /// fresh one rather than failing.
    pub fn new(scanned_text: Option<&str>, whitelist_text: Option<&str>) -> (r: StorageFile)
        ensures
            r.wf(),
            (match scanned_text {
                Some(t) => match spec_parse_json(t@) {
                    Some(j) => match spec_decode_scanned(j) {
                        Some(m) => r.scanned_entities.deep_view() == m,
                        None => r.scanned_entities@ == Seq::<(String, ScannedEntity)>::empty(),
                    },
                    None => r.scanned_entities@ == Seq::<(String, ScannedEntity)>::empty(),
                },
                None => r.scanned_entities@ == Seq::<(String, ScannedEntity)>::empty(),
            }),
            (match whitelist_text {
                Some(t) => match spec_parse_json(t@) {
                    Some(j) => match spec_decode_whitelist(j) {
                        Some(m) => r.whitelist.deep_view() == m,
                        None => r.whitelist@ == Seq::<(String, String)>::empty(),
                    },
                    None => r.whitelist@ == Seq::<(String, String)>::empty(),
                },
                None => r.whitelist@ == Seq::<(String, String)>::empty(),
            }),
    {
        let scanned_entities = match scanned_text {
            Some(t) => match parse_json(t) {
                Some(j) => match decode_scanned(&j) {
                    Some(v) => v,
                    None => Vec::new(),
                },
                None => Vec::new(),
            },
            None => Vec::new(),
        };
        let whitelist = match whitelist_text {
            Some(t) => match parse_json(t) {
                Some(j) => match decode_whitelist(&j) {
                    Some(v) => v,
                    None => Vec::new(),
                },
                None => Vec::new(),
            },
            None => Vec::new(),
        };
        StorageFile { scanned_entities, whitelist }
    }

    /// Renders the scanned-entities document; decoding it yields exactly
    /// the store's record mapping.
    pub fn scanned_document(&self) -> (j: Json)
        requires
            self.wf(),
        ensures
            spec_decode_scanned(j) == Some(self.scanned_entities.deep_view()),
    {
        let len = self.scanned_entities.len();
        let mut fields: Vec<(String, Json)> = Vec::new();
        let mut i: usize = 0;
        proof {
            assert(self.scanned_entities.deep_view().take(0) =~= Seq::<
                (Seq<char>, ScannedEntityV),
            >::empty());
        }
        while i < len
            invariant
                len == self.scanned_entities@.len(),
                i <= len,
                spec_unique_keys(self.scanned_entities@),
                fields@.len() == i,
                forall|j2: int| 0 <= j2 < i ==> fields@[j2].0@ == self.scanned_entities@[j2].0@,
                spec_decode_records(fields@) == Some(
                    self.scanned_entities.deep_view().take(i as int),
                ),
            decreases len - i,
        {
            let key = self.scanned_entities[i].0.clone();
            let value = record_to_json(&self.scanned_entities[i].1);
            let ghost pre = fields@;
            let pair = (key, value);
            let ghost recv = self.scanned_entities@[i as int].1@;
            fields.push(pair);
            proof {
                lemma_decode_records_push(pre, pair);
                assert(fields@ == pre.push(pair));
                assert(self.scanned_entities.deep_view().take(i + 1)
                    =~= self.scanned_entities.deep_view().take(i as int).push(
                    (self.scanned_entities@[i as int].0@, recv),
                ));
            }
            i = i + 1;
        }
        proof {
            assert(self.scanned_entities.deep_view().take(len as int)
                =~= self.scanned_entities.deep_view());
            assert forall|a: int, b: int|
                0 <= a < b < fields@.len() implies fields@[a].0@ != fields@[b].0@ by {
                assert(self.scanned_entities@[a].0@ != self.scanned_entities@[b].0@);
            }
        }
        Json::Obj(fields)
    }

    /// Renders the whitelist document; decoding it yields exactly the
    /// store's whitelist mapping.
    pub fn whitelist_document(&self) -> (j: Json)
        requires
            self.wf(),
        ensures
            spec_decode_whitelist(j) == Some(self.whitelist.deep_view()),
    {
        let len = self.whitelist.len();
        let mut fields: Vec<(String, Json)> = Vec::new();
        let mut i: usize = 0;
        proof {
            assert(self.whitelist.deep_view().take(0) =~= Seq::<(Seq<char>, Seq<char>)>::empty());
        }
        while i < len
            invariant
                len == self.whitelist@.len(),
                i <= len,
                spec_unique_keys(self.whitelist@),
                fields@.len() == i,
                forall|j2: int| 0 <= j2 < i ==> fields@[j2].0@ == self.whitelist@[j2].0@,
                spec_decode_hashes(fields@) == Some(self.whitelist.deep_view().take(i as int)),
            decreases len - i,
        {
            let key = self.whitelist[i].0.clone();
            let value = Json::Str(self.whitelist[i].1.clone());
            let ghost pre = fields@;
            let pair = (key, value);
            let ghost hv = self.whitelist@[i as int].1@;
            fields.push(pair);
            proof {
                lemma_decode_hashes_push(pre, pair);
                assert(fields@ == pre.push(pair));
                assert(self.whitelist.deep_view().take(i + 1) =~= self.whitelist.deep_view().take(
                    i as int,
                ).push((self.whitelist@[i as int].0@, hv)));
            }
            i = i + 1;
        }
        proof {
            assert(self.whitelist.deep_view().take(len as int) =~= self.whitelist.deep_view());
            assert forall|a: int, b: int|
                0 <= a < b < fields@.len() implies fields@[a].0@ != fields@[b].0@ by {
                assert(self.whitelist@[a].0@ != self.whitelist@[b].0@);
            }
        }
        Json::Obj(fields)
    }

    /// Renders both documents as pretty JSON text, scanned entities
    /// first; the caller persists them. Decoding what was rendered yields
    /// the store's two mappings.
    pub fn save(&self) -> (r: (String, String))
        requires
            self.wf(),
        ensures
            exists|d1: Json, d2: Json|
                {
                    &&& spec_decode_scanned(d1) == Some(self.scanned_entities.deep_view())
                    &&& spec_decode_whitelist(d2) == Some(self.whitelist.deep_view())
                    &&& r.0@ == #[trigger] spec_render_json_pretty(d1)
                    &&& r.1@ == #[trigger] spec_render_json_pretty(d2)
                },
    {
        let d1 = self.scanned_document();
        let d2 = self.whitelist_document();
        let r1 = render_json_pretty(&d1);
        let r2 = render_json_pretty(&d2);
        (r1, r2)
    }
}

/// What a sequence of legacy entries decodes to, the reserved whitelist
/// entry excluded.
pub open spec fn spec_decode_records_except(
    entries: Seq<(String, Json)>,
    skip_key: Seq<char>,
) -> Option<Seq<(Seq<char>, ScannedEntityV)>>
    decreases entries.len(),
{
    if entries.len() == 0 {
        Some(Seq::empty())
    } else if entries[0].0@ == skip_key {
        spec_decode_records_except(entries.drop_first(), skip_key)
    } else {
        match spec_decode_record(entries[0].1) {
            Some(rec) => match spec_decode_records_except(entries.drop_first(), skip_key) {
                Some(rest) => Some(seq![(entries[0].0@, rec)] + rest),
                None => None,
            },
            None => None,
        }
    }
}

/// What a legacy single-file store splits into: the scanned-entity
/// records under every ordinary key, and the whitelist found under the
/// reserved `__whitelist` key (empty when absent).
pub open spec fn spec_split_legacy(j: Json) -> Option<
    (Seq<(Seq<char>, ScannedEntityV)>, Seq<(Seq<char>, Seq<char>)>),
> {
    match j {
        Json::Obj(entries) => if spec_unique_keys(entries@) {
            let wl = match spec_obj_get(entries@, "__whitelist"@) {
                Some(w) => spec_decode_whitelist(w),
                None => Some(Seq::empty()),
            };
            let recs = spec_decode_records_except(entries@, "__whitelist"@);
            match (recs, wl) {
                (Some(r), Some(w)) => Some((r, w)),
                _ => None,
            }
        } else {
            None
        },
        _ => None,
    }
}

/// Splits a legacy single-file store's text into the two current
/// mappings. The migration itself — writing the two documents and
/// deleting the legacy file, exactly once — is the caller's affair.
pub fn split_legacy(text: &str) -> (r: Option<(Vec<(String, ScannedEntity)>, Vec<(String, String)>)>)
    ensures
        match r {
            Some(p) => {
                &&& spec_parse_json(text@) is Some
                &&& spec_split_legacy(spec_parse_json(text@)->Some_0) == Some(
                    (p.0.deep_view(), p.1.deep_view()),
                )
                &&& spec_unique_keys(p.0@)
                &&& spec_unique_keys(p.1@)
            },
            None => spec_parse_json(text@) is None || spec_split_legacy(
                spec_parse_json(text@)->Some_0,
            ) is None,
        },
{
    let doc = match parse_json(text) {
        Some(d) => d,
        None => {
            return None;
        },
    };
    let entries = match &doc {
        Json::Obj(entries) => entries,
        _ => {
            return None;
        },
    };
    if !keys_unique(entries) {
        return None;
    }
    let whitelist = match obj_get(entries, "__whitelist") {
        Some(w) => match decode_whitelist(w) {
            Some(v) => v,
            None => {
                return None;
            },
        },
        None => Vec::new(),
    };
    let len = entries.len();
    let mut out: Vec<(String, ScannedEntity)> = Vec::new();
    let mut i: usize = 0;
    proof {
        assert(entries@.skip(0) =~= entries@);
        if spec_decode_records_except(entries@, "__whitelist"@) is Some {
            assert(out.deep_view() + spec_decode_records_except(entries@, "__whitelist"@)->Some_0
                =~= spec_decode_records_except(entries@, "__whitelist"@)->Some_0);
        }
    }
    while i < len
        invariant
            len == entries@.len(),
            i <= len,
            spec_parse_json(text@) == Some(doc),
            doc is Obj,
            doc->Obj_0 == *entries,
            spec_unique_keys(entries@),
            spec_unique_keys(out@),
            whitelist.deep_view() == (match spec_obj_get(entries@, "__whitelist"@) {
                Some(w) => spec_decode_whitelist(w)->Some_0,
                None => Seq::<(Seq<char>, Seq<char>)>::empty(),
            }),
            spec_unique_keys(whitelist@),
            (match spec_obj_get(entries@, "__whitelist"@) {
                Some(w) => spec_decode_whitelist(w) is Some,
                None => true,
            }),
            forall|j2: int, m: int|
                0 <= j2 < out@.len() && i <= m < len ==> out@[j2].0@ != entries@[m].0@,
            spec_decode_records_except(entries@, "__whitelist"@) == (match
                spec_decode_records_except(entries@.skip(i as int), "__whitelist"@) {
                Some(rest) => Some(out.deep_view() + rest),
                None => None::<Seq<(Seq<char>, ScannedEntityV)>>,
            }),
        decreases len - i,
    {
        proof {
            assert(entries@.skip(i as int)[0] == entries@[i as int]);
            assert(entries@.skip(i as int).drop_first() =~= entries@.skip(i + 1));
        }
        if str_eq(entries[i].0.as_str(), "__whitelist") {
            i = i + 1;
            continue ;
        }
        let rec = match decode_record(&entries[i].1) {
            Some(rec) => rec,
            None => {
                proof {
                    assert(spec_decode_records_except(entries@.skip(i as int), "__whitelist"@)
                        is None);
                    assert(spec_decode_records_except(entries@, "__whitelist"@) is None);
                }
                return None;
            },
        };
        let pair = (entries[i].0.clone(), rec);
        let ghost pre = out.deep_view();
        let ghost prekeys = out@;
        let ghost recv = pair.1@;
        out.push(pair);
        proof {
            assert(out.deep_view() =~= pre.push((entries@[i as int].0@, recv)));
            assert(forall|j2: int| 0 <= j2 < prekeys.len() ==> out@[j2] == prekeys[j2]);
            if spec_decode_records_except(entries@.skip(i + 1), "__whitelist"@) is Some {
                let rest2 = spec_decode_records_except(entries@.skip(i + 1), "__whitelist"@)->Some_0;
                assert(spec_decode_records_except(entries@.skip(i as int), "__whitelist"@) == Some(
                    seq![(entries@[i as int].0@, recv)] + rest2,
                ));
                assert(pre + (seq![(entries@[i as int].0@, recv)] + rest2) =~= out.deep_view()
                    + rest2);
            }
        }
        i = i + 1;
    }
    proof {
        assert(entries@.skip(len as int) =~= Seq::<(String, Json)>::empty());
        assert(out.deep_view() + Seq::<(Seq<char>, ScannedEntityV)>::empty() =~= out.deep_view());
    }
    Some((out, whitelist))
}

/// Lookups in the five-entry record object, entry by entry.
proof fn lemma_five_field_lookups(fields: Seq<(String, Json)>)
    requires
        fields.len() == 5,
        fields[0].0@ == "hash"@,
        fields[1].0@ == "type"@,
        fields[2].0@ == "verified"@,
        fields[3].0@ == "timestamp"@,
        fields[4].0@ == "description"@,
        "hash"@ != "type"@,
        "hash"@ != "verified"@,
        "hash"@ != "timestamp"@,
        "hash"@ != "description"@,
        "type"@ != "verified"@,
        "type"@ != "timestamp"@,
        "type"@ != "description"@,
        "verified"@ != "timestamp"@,
        "verified"@ != "description"@,
        "timestamp"@ != "description"@,
    ensures
        spec_obj_get(fields, "hash"@) == Some(fields[0].1),
        spec_obj_get(fields, "type"@) == Some(fields[1].1),
        spec_obj_get(fields, "verified"@) == Some(fields[2].1),
        spec_obj_get(fields, "timestamp"@) == Some(fields[3].1),
        spec_obj_get(fields, "description"@) == Some(fields[4].1),
{
    reveal_with_fuel(spec_obj_get, 6);
    let t1 = fields.drop_first();
    let t2 = t1.drop_first();
    let t3 = t2.drop_first();
    let t4 = t3.drop_first();
    assert(t1[0] == fields[1]);
    assert(t2[0] == fields[2]);
    assert(t3[0] == fields[3]);
    assert(t4[0] == fields[4]);
    assert(t1[1] == fields[2]);
    assert(t1[2] == fields[3]);
    assert(t1[3] == fields[4]);
    assert(t2[1] == fields[3]);
    assert(t2[2] == fields[4]);
    assert(t3[1] == fields[4]);
}

} // verus!
