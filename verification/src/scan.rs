//! The scan orchestrator's decisions: assembling one server's entities in
//! the fixed kind order, judging each entity against the storage engine
//! and the whitelist, and accumulating the per-server outcomes of one
//! configuration file. Connecting to servers, listing capabilities and
//! the verification exchange are performed by the caller, which feeds
//! their outcomes in as plain values; a failed server is recorded and the
//! scan goes on.

use vstd::prelude::*;
use vstd::string::StringExecFns;
use crate::mcp_types::{Entity, ScannedEntity, VerifyResult};
use crate::assoc::spec_assoc_get;
use crate::storage_file::{spec_changed, spec_is_whitelisted, spec_lookup_record, spec_new_record,
    spec_stored_hash, StorageFile};
use crate::text::spec_composite_key;
use crate::time::spec_display_time;

verus! {

/// One scanner, configured once per invocation: the verification base
/// URL, the per-server connection budget, whether server output is
/// suppressed, and the storage engine the scan mutates.
pub struct MCPScanner {
    pub base_url: String,
    pub checks_per_server: usize,
    pub storage_file: StorageFile,
    pub server_timeout: i64,
    pub suppress_mcpserver_io: bool,
}

/// One server's entities in the order later zipped against verification
/// results: tools, then prompts, then resources. A kind the server did
/// not advertise contributes nothing — its listing call was never made.
pub open spec fn spec_collected(
    tools: Option<Vec<Entity>>,
    prompts: Option<Vec<Entity>>,
    resources: Option<Vec<Entity>>,
) -> Seq<Entity> {
    spec_opt_entities(tools) + spec_opt_entities(prompts) + spec_opt_entities(resources)
}

/// The entities of one kind's listing, or none where the capability was
/// not advertised.
pub open spec fn spec_opt_entities(o: Option<Vec<Entity>>) -> Seq<Entity> {
    match o {
        Some(v) => v@,
        None => Seq::empty(),
    }
}

/// Flattens one server's listings into the reporting order: tools first,
/// prompts second, resources third. This order must agree with how the
/// verification client segments its results.
pub fn collect_entities(
    tools: Option<Vec<Entity>>,
    prompts: Option<Vec<Entity>>,
    resources: Option<Vec<Entity>>,
) -> (r: Vec<Entity>)
    ensures
        r@ == spec_collected(tools, prompts, resources),
{
    let ghost gt = tools;
    let ghost gp = prompts;
    let ghost gr = resources;
    let mut out: Vec<Entity> = match tools {
        Some(v) => v,
        None => Vec::new(),
    };
    let mut prompts_vec: Vec<Entity> = match prompts {
        Some(v) => v,
        None => Vec::new(),
    };
    let mut resources_vec: Vec<Entity> = match resources {
        Some(v) => v,
        None => Vec::new(),
    };
    out.append(&mut prompts_vec);
    out.append(&mut resources_vec);
    proof {
        assert(out@ =~= spec_collected(gt, gp, gr));
    }
    out
}

/// What one scanned entity came to: the verdict after the whitelist was
/// consulted, the prior record if the description drifted, and the
/// operator-facing notes.
pub struct EntityReport {
    /// The verdict reported for the entity: the remote verdict, except
    /// that a whitelisted entity is verified outright.
    pub result: VerifyResult,
    /// Whether the description drifted since the previous scan.
    pub changed: bool,
    /// Whether the entity's fingerprint was whitelisted.
    pub whitelisted: bool,
    /// The record the previous scan left, surrendered intact.
    pub previous: Option<ScannedEntity>,
    /// The note shown under the entity: the previous description where
    /// one drifted, and the whitelist hint where the verdict calls for
    /// one.
    pub additional: Option<String>,
}

/// The note rendered for a drifted entity: the previous description and
/// when it was seen.
pub open spec fn spec_prev_text(ts: Seq<char>, description: Option<Seq<char>>) -> Seq<char> {
    "Previous description("@ + spec_display_time(ts) + "):\n"@ + (match description {
        Some(d) => d,
        None => Seq::<char>::empty(),
    })
}

/// The hint telling the operator how to whitelist the entity.
pub open spec fn spec_whitelist_hint(kind: Seq<char>, name: Seq<char>, hash: Seq<char>) -> Seq<
    char,
> {
    "You can whitelist this "@ + kind + " by running `mcp-scan whitelist "@ + kind + " '"@ + name
        + "' "@ + hash + "`"@
}

/// The verdict message of a whitelisted entity, wrapping whatever the
/// remote verdict said.
pub open spec fn spec_whitelisted_message(incoming: Option<Seq<char>>) -> Seq<char> {
    "whitelisted "@ + (match incoming {
        Some(m) => m,
        None => Seq::<char>::empty(),
    })
}

impl MCPScanner {
    /// A scanner over an already-loaded store.
    pub fn new(
        storage_file: StorageFile,
        base_url: &str,
        server_timeout: i64,
        suppress_mcpserver_io: bool,
        checks_per_server: usize,
    ) -> (r: MCPScanner)
        ensures
            r.base_url@ == base_url@,
            r.checks_per_server == checks_per_server,
            r.storage_file == storage_file,
            r.server_timeout == server_timeout,
            r.suppress_mcpserver_io == suppress_mcpserver_io,
    {
        MCPScanner {
            base_url: base_url.to_owned(),
            checks_per_server,
            storage_file,
            server_timeout,
            suppress_mcpserver_io,
        }
    }

    /// Judges one entity after its remote verdict arrived: records the
    /// scan (capturing the prior record and whether the description
    /// drifted), consults the whitelist, and renders the verdict and the
    /// operator notes exactly as stated below.
    pub fn process_entity(
        &mut self,
        server_name: &str,
        entity: &Entity,
        incoming: &VerifyResult,
    ) -> (r: EntityReport)
        requires
            old(self).storage_file.wf(),
            incoming.value is Some,
        ensures
            final(self).storage_file.wf(),
            final(self).storage_file.whitelist@ == old(self).storage_file.whitelist@,
            final(self).base_url == old(self).base_url,
            ({
                let key = spec_composite_key(server_name@, entity@.kind, entity@.name);
                let prior = spec_lookup_record(old(self).storage_file.scanned_entities@, key);
                let changed = spec_changed(prior, entity@);
                let wl = spec_is_whitelisted(old(self).storage_file.whitelist@, entity@);
                let incoming_ok = incoming.value->Some_0;
                let prev_text = if changed {
                    Some(
                        spec_prev_text(prior->Some_0.timestamp, prior->Some_0.description),
                    )
                } else {
                    Option::<Seq<char>>::None
                };
                let hint = spec_whitelist_hint(
                    entity@.kind,
                    entity@.name,
                    spec_stored_hash(entity@),
                );
                &&& exists|ts: Seq<char>|
                    spec_lookup_record(final(self).storage_file.scanned_entities@, key) == Some(
                        #[trigger] spec_new_record(entity@, incoming_ok, ts),
                    )
                &&& forall|k: Seq<char>|
                    k != key ==> spec_assoc_get(final(self).storage_file.scanned_entities@, k)
                        == spec_assoc_get(old(self).storage_file.scanned_entities@, k)
                &&& r.changed == changed
                &&& r.whitelisted == wl
                &&& match (r.previous, prior) {
                    (Some(a), Some(b)) => a@ == b,
                    (None, None) => true,
                    _ => false,
                }
                &&& r.result@.value == (if wl {
                    Some(true)
                } else {
                    incoming.value
                })
                &&& r.result@.message == (if wl {
                    Some(spec_whitelisted_message(incoming@.message))
                } else {
                    incoming@.message
                })
                &&& r.additional.deep_view() == (if !wl && (!incoming_ok || changed) {
                    match prev_text {
                        Some(t) => Some(t + "\n\n"@ + hint),
                        None => Some(hint),
                    }
                } else {
                    prev_text
                })
            }),
    {
        let incoming_ok = match incoming.value {
            Some(b) => b,
            None => false,
        };
        let (check, previous) = self.storage_file.check_and_update(
            server_name,
            entity,
            incoming_ok,
        );
        let changed = match check.value {
            Some(b) => b,
            None => false,
        };
        let prev_text: Option<String> = if changed {
            match &previous {
                Some(p) => {
                    let shown = crate::time::display_time(p.timestamp.as_str());
                    let mut t = String::new();
                    t.append("Previous description(");
                    t.append(shown.as_str());
                    t.append("):\n");
                    match &p.description {
                        Some(d) => t.append(d.as_str()),
                        None => (),
                    }
                    Some(t)
                },
                None => None,
            }
        } else {
            None
        };
        let whitelisted = self.storage_file.is_whitelisted(entity);
        let result = if whitelisted {
            let mut m = String::new();
            m.append("whitelisted ");
            match &incoming.message {
                Some(t) => m.append(t.as_str()),
                None => (),
            }
            VerifyResult { value: Some(true), message: Some(m) }
        } else {
            VerifyResult {
                value: incoming.value,
                message: crate::mcp_types::duplicate_opt_string(&incoming.message),
            }
        };
        let additional: Option<String> = if !whitelisted && (!incoming_ok || changed) {
            let kind = crate::mcp_types::entity_type_to_str(entity);
            let name = entity.name();
            let hash = match self.storage_file.compute_hash(Some(entity)) {
                Some(h) => h,
                None => String::new(),
            };
            let mut hint = String::new();
            hint.append("You can whitelist this ");
            hint.append(kind);
            hint.append(" by running `mcp-scan whitelist ");
            hint.append(kind);
            hint.append(" '");
            hint.append(name.as_str());
            hint.append("' ");
            hint.append(hash.as_str());
            hint.append("`");
            match prev_text {
                Some(t) => {
                    let mut both = t;
                    both.append("\n\n");
                    both.append(hint.as_str());
                    Some(both)
                },
                None => Some(hint),
            }
        } else {
            prev_text
        };
        EntityReport { result, changed, whitelisted, previous, additional }
    }

    /// Judges one server's entities against the verification results, in
    /// order. Empty results mean the verification was unavailable: then
    /// nothing is judged and — decisively — nothing is recorded, so an
    /// unreachable verification service never disturbs the stored
    /// history. Otherwise entities and results are paired off in the
    /// shared kind order until either runs out.
    pub fn verify_and_report_entities(
        &mut self,
        server_name: &str,
        entities: &Vec<Entity>,
        tool_results: Vec<VerifyResult>,
        prompt_results: Vec<VerifyResult>,
        resource_results: Vec<VerifyResult>,
    ) -> (r: Vec<EntityReport>)
        requires
            old(self).storage_file.wf(),
            forall|k: int|
                0 <= k < tool_results@.len() ==> (#[trigger] tool_results@[k]).value is Some,
            forall|k: int|
                0 <= k < prompt_results@.len() ==> (#[trigger] prompt_results@[k]).value is Some,
            forall|k: int|
                0 <= k < resource_results@.len() ==> (#[trigger] resource_results@[k]).value
                    is Some,
        ensures
            final(self).storage_file.wf(),
            final(self).storage_file.whitelist@ == old(self).storage_file.whitelist@,
            tool_results@.len() + prompt_results@.len() + resource_results@.len() == 0 ==> {
                &&& r@.len() == 0
                &&& final(self).storage_file == old(self).storage_file
            },
            tool_results@.len() + prompt_results@.len() + resource_results@.len() > 0 ==> r@.len()
                == vstd::math::min(
                entities@.len() as int,
                (tool_results@.len() + prompt_results@.len() + resource_results@.len()) as int,
            ),
            forall|k: Seq<char>|
                #![trigger spec_assoc_get(final(self).storage_file.scanned_entities@, k)]
                (forall|m: int|
                    0 <= m < r@.len() ==> k != spec_composite_key(
                        server_name@,
                        entities@[m]@.kind,
                        entities@[m]@.name,
                    )) ==> spec_assoc_get(final(self).storage_file.scanned_entities@, k)
                    == spec_assoc_get(old(self).storage_file.scanned_entities@, k),
            forall|m: int|
                #![trigger r@[m]]
                0 <= m < r@.len() ==> {
                    let wl = spec_is_whitelisted(
                        old(self).storage_file.whitelist@,
                        entities@[m]@,
                    );
                    let inc = (tool_results@ + prompt_results@ + resource_results@)[m];
                    &&& r@[m].whitelisted == wl
                    &&& r@[m].result@.value == (if wl {
                        Some(true)
                    } else {
                        inc.value
                    })
                    &&& r@[m].result@.message == (if wl {
                        Some(spec_whitelisted_message(inc@.message))
                    } else {
                        inc@.message
                    })
                },
    {
        let ghost flat = tool_results@ + prompt_results@ + resource_results@;
        let mut results: Vec<VerifyResult> = tool_results;
        let mut prompt_results = prompt_results;
        let mut resource_results = resource_results;
        results.append(&mut prompt_results);
        results.append(&mut resource_results);
        proof {
            assert(results@ =~= flat);
        }
        if results.len() == 0 {
            return Vec::new();
        }
        let count = if entities.len() < results.len() {
            entities.len()
        } else {
            results.len()
        };
        let mut reports: Vec<EntityReport> = Vec::new();
        let mut i: usize = 0;
        while i < count
            invariant
                count <= entities@.len(),
                count <= results@.len(),
                i <= count,
                reports@.len() == i,
                self.storage_file.wf(),
                self.storage_file.whitelist@ == old(self).storage_file.whitelist@,
                forall|k: int|
                    0 <= k < results@.len() ==> (#[trigger] results@[k]).value is Some,
                forall|k: Seq<char>|
                    #![trigger spec_assoc_get(self.storage_file.scanned_entities@, k)]
                    (forall|m: int|
                        0 <= m < i ==> k != spec_composite_key(
                            server_name@,
                            entities@[m]@.kind,
                            entities@[m]@.name,
                        )) ==> spec_assoc_get(self.storage_file.scanned_entities@, k)
                        == spec_assoc_get(old(self).storage_file.scanned_entities@, k),
                results@ == flat,
                forall|m: int|
                    #![trigger reports@[m]]
                    0 <= m < i ==> {
                        let wl = spec_is_whitelisted(
                            old(self).storage_file.whitelist@,
                            entities@[m]@,
                        );
                        &&& reports@[m].whitelisted == wl
                        &&& reports@[m].result@.value == (if wl {
                            Some(true)
                        } else {
                            flat[m].value
                        })
                        &&& reports@[m].result@.message == (if wl {
                            Some(spec_whitelisted_message(flat[m]@.message))
                        } else {
                            flat[m]@.message
                        })
                    },
            decreases count - i,
        {
            let ghost mid = self.storage_file.scanned_entities@;
            let report = self.process_entity(server_name, &entities[i], &results[i]);
            reports.push(report);
            proof {
                let keyi = spec_composite_key(
                    server_name@,
                    entities@[i as int]@.kind,
                    entities@[i as int]@.name,
                );
                assert forall|k: Seq<char>|
                    #![trigger spec_assoc_get(self.storage_file.scanned_entities@, k)]
                    (forall|m: int|
                        0 <= m < i + 1 ==> k != spec_composite_key(
                            server_name@,
                            entities@[m]@.kind,
                            entities@[m]@.name,
                        )) implies spec_assoc_get(self.storage_file.scanned_entities@, k)
                    == spec_assoc_get(old(self).storage_file.scanned_entities@, k) by {
                    assert(k != keyi);
                    assert(spec_assoc_get(self.storage_file.scanned_entities@, k)
                        == spec_assoc_get(mid, k));
                    assert(spec_assoc_get(mid, k) == spec_assoc_get(
                        old(self).storage_file.scanned_entities@,
                        k,
                    ));
                }
            }
            i = i + 1;
        }
        reports
    }
}

/// What became of one server during a scan.
pub enum ServerOutcome {
    /// The server could not be reached or listed; the reason, and the
    /// scan went on.
    Failed(String),
    /// How many entities the server advertised, and their judgements —
    /// empty when the verification was unavailable, which is not the
    /// same as no entities.
    Scanned { found: usize, reports: Vec<EntityReport> },
}

/// One server's line in the scan report.
pub struct ServerReport {
    pub server: String,
    pub outcome: ServerOutcome,
}

/// The accumulated outcome of scanning one configuration file. Failures
/// are recorded beside successes: one bad server never aborts the file's
/// scan.
pub struct ScanReport {
    pub path: String,
    pub servers: Vec<ServerReport>,
}

/// How many servers failed.
pub open spec fn spec_count_failed(s: Seq<ServerReport>) -> nat
    decreases s.len(),
{
    if s.len() == 0 {
        0
    } else {
        spec_count_failed(s.drop_last()) + if s.last().outcome is Failed {
            1nat
        } else {
            0nat
        }
    }
}

impl ScanReport {
    /// An empty report for one configuration file.
    pub fn new(path: &str) -> (r: ScanReport)
        ensures
            r.path@ == path@,
            r.servers@ == Seq::<ServerReport>::empty(),
    {
        ScanReport { path: path.to_owned(), servers: Vec::new() }
    }

    /// Records a server that could not be reached or listed; the scan
    /// continues with the next server.
    pub fn record_failure(&mut self, server: String, error: String)
        ensures
            final(self).path == old(self).path,
            final(self).servers@ == old(self).servers@.push(
                ServerReport { server, outcome: ServerOutcome::Failed(error) },
            ),
    {
        self.servers.push(ServerReport { server, outcome: ServerOutcome::Failed(error) });
    }

    /// Records a server whose entities were collected, and their
    /// judgements where the verification was available.
    pub fn record_scanned(&mut self, server: String, found: usize, reports: Vec<EntityReport>)
        ensures
            final(self).path == old(self).path,
            final(self).servers@ == old(self).servers@.push(
                ServerReport { server, outcome: ServerOutcome::Scanned { found, reports } },
            ),
    {
        self.servers.push(
            ServerReport { server, outcome: ServerOutcome::Scanned { found, reports } },
        );
    }

    /// How many servers failed.
    pub fn failed_count(&self) -> (r: usize)
        ensures
            r == spec_count_failed(self.servers@),
    {
        let len = self.servers.len();
        let mut n: usize = 0;
        let mut i: usize = 0;
        while i < len
            invariant
                len == self.servers@.len(),
                i <= len,
                n <= i,
                n == spec_count_failed(self.servers@.take(i as int)),
            decreases len - i,
        {
            proof {
                assert(self.servers@.take(i + 1).drop_last() =~= self.servers@.take(i as int));
                assert(self.servers@.take(i + 1).last() == self.servers@[i as int]);
            }
            match &self.servers[i].outcome {
                ServerOutcome::Failed(_) => {
                    n = n + 1;
                },
                ServerOutcome::Scanned { .. } => {},
            }
            i = i + 1;
        }
        proof {
            assert(self.servers@.take(len as int) =~= self.servers@);
        }
        n
    }

    /// Whether the file's scan counts as a success: some server was
    /// scanned, or there was nothing to fail — a file with failures
    /// beside successes is a partial success, not a total failure.
    pub fn partial_success(&self) -> (r: bool)
        ensures
            r == (spec_count_failed(self.servers@) < self.servers@.len()
                || self.servers@.len() == 0),
    {
        proof {
            lemma_count_failed_bound(self.servers@);
        }
        let failed = self.failed_count();
        failed < self.servers.len() || self.servers.len() == 0
    }
}

/// No more servers fail than there are.
proof fn lemma_count_failed_bound(s: Seq<ServerReport>)
    ensures
        spec_count_failed(s) <= s.len(),
    decreases s.len(),
{
    if s.len() > 0 {
        lemma_count_failed_bound(s.drop_last());
    }
}

/// How many of one server's entity reports carry an explicit verified
/// verdict.
pub open spec fn spec_count_verified_in(rs: Seq<EntityReport>) -> nat
    decreases rs.len(),
{
    if rs.len() == 0 {
        0
    } else {
        spec_count_verified_in(rs.drop_last()) + if rs.last().result.value == Some(true) {
            1nat
        } else {
            0nat
        }
    }
}

/// How many entities the scan found, over all scanned servers.
pub open spec fn spec_count_found(s: Seq<ServerReport>) -> nat
    decreases s.len(),
{
    if s.len() == 0 {
        0
    } else {
        spec_count_found(s.drop_last()) + match s.last().outcome {
            ServerOutcome::Scanned { found, .. } => found as nat,
            ServerOutcome::Failed(_) => 0,
        }
    }
}

/// How many entities the scan judged verified, over all scanned servers.
pub open spec fn spec_count_verified(s: Seq<ServerReport>) -> nat
    decreases s.len(),
{
    if s.len() == 0 {
        0
    } else {
        spec_count_verified(s.drop_last()) + match s.last().outcome {
            ServerOutcome::Scanned { reports, .. } => spec_count_verified_in(reports@),
            ServerOutcome::Failed(_) => 0,
        }
    }
}

/// No more reports are verified than there are.
proof fn lemma_count_verified_in_bound(rs: Seq<EntityReport>)
    ensures
        spec_count_verified_in(rs) <= rs.len(),
    decreases rs.len(),
{
    if rs.len() > 0 {
        lemma_count_verified_in_bound(rs.drop_last());
    }
}

/// Each server judges no more entities than it found.
pub open spec fn spec_judged_within_found(s: Seq<ServerReport>) -> bool {
    forall|i: int|
        0 <= i < s.len() ==> match #[trigger] s[i].outcome {
            ServerOutcome::Scanned { found, reports } => reports@.len() <= found,
            ServerOutcome::Failed(_) => true,
        }
}

/// No more entities are verified than were found, wherever each server
/// judged no more than it found.
proof fn lemma_count_verified_bound(s: Seq<ServerReport>)
    requires
        spec_judged_within_found(s),
    ensures
        spec_count_verified(s) <= spec_count_found(s),
    decreases s.len(),
{
    if s.len() > 0 {
        assert(spec_judged_within_found(s.drop_last()));
        lemma_count_verified_bound(s.drop_last());
        match s.last().outcome {
            ServerOutcome::Scanned { found, reports } => {
                lemma_count_verified_in_bound(reports@);
                assert(s[s.len() - 1] == s.last());
            },
            ServerOutcome::Failed(_) => (),
        }
    }
}

impl ScanReport {
    /// The end-of-scan summary: how many entities were found and how
    /// many of them were judged verified.
    pub fn summary(&self) -> (r: (usize, usize))
        requires
            spec_count_found(self.servers@) <= usize::MAX,
            spec_judged_within_found(self.servers@),
        ensures
            r.0 == spec_count_found(self.servers@),
            r.1 == spec_count_verified(self.servers@),
            r.1 <= r.0,
    {
        proof {
            lemma_count_verified_bound(self.servers@);
        }
        let len = self.servers.len();
        let mut found: usize = 0;
        let mut verified: usize = 0;
        let mut i: usize = 0;
        while i < len
            invariant
                len == self.servers@.len(),
                i <= len,
                spec_count_found(self.servers@) <= usize::MAX,
                spec_judged_within_found(self.servers@),
                spec_count_verified(self.servers@) <= spec_count_found(self.servers@),
                found == spec_count_found(self.servers@.take(i as int)),
                verified == spec_count_verified(self.servers@.take(i as int)),
                verified <= found,
            decreases len - i,
        {
            proof {
                assert(self.servers@.take(i + 1).drop_last() =~= self.servers@.take(i as int));
                assert(self.servers@.take(i + 1).last() == self.servers@[i as int]);
                lemma_count_found_prefix_bound(self.servers@, i + 1);
            }
            match &self.servers[i].outcome {
                ServerOutcome::Scanned { found: sfound, reports } => {
                    let rlen = reports.len();
                    let mut k: usize = 0;
                    let mut sub: usize = 0;
                    proof {
                        lemma_count_verified_in_bound(reports@);
                    }
                    while k < rlen
                        invariant
                            rlen == reports@.len(),
                            k <= rlen,
                            sub == spec_count_verified_in(reports@.take(k as int)),
                            sub <= k,
                        decreases rlen - k,
                    {
                        proof {
                            assert(reports@.take(k + 1).drop_last() =~= reports@.take(k as int));
                            assert(reports@.take(k + 1).last() == reports@[k as int]);
                        }
                        match reports[k].result.value {
                            Some(true) => {
                                sub = sub + 1;
                            },
                            _ => {},
                        }
                        k = k + 1;
                    }
                    proof {
                        assert(reports@.take(rlen as int) =~= reports@);
                        lemma_count_verified_in_bound(reports@);
                    }
                    found = found + *sfound;
                    verified = verified + sub;
                },
                ServerOutcome::Failed(_) => {},
            }
            i = i + 1;
        }
        proof {
            assert(self.servers@.take(len as int) =~= self.servers@);
        }
        (found, verified)
    }
}

/// What a prefix found is no more than what the whole scan found.
proof fn lemma_count_found_prefix_bound(s: Seq<ServerReport>, i: int)
    requires
        0 <= i <= s.len(),
    ensures
        spec_count_found(s.take(i)) <= spec_count_found(s),
    decreases s.len() - i,
{
    if i < s.len() {
        lemma_count_found_prefix_bound(s, i + 1);
        assert(s.take(i + 1).drop_last() =~= s.take(i));
        assert(s.take(i + 1).last() == s[i]);
    } else {
        assert(s.take(i) =~= s);
    }
}

} // verus!
