//! The evidence graph: evidence records and the typed edges between graph nodes.
//!
//! Edge directions are expressed with typed IDs, so nodes of different kinds
//! are never joined implicitly through strings.

use vstd::prelude::*;
use crate::intent::{
    AssumptionId, ChangeId, ClaimId, ContractId, EvidenceId, IntentId, ReviewId, StableIdView,
};
use crate::text::{chars_eq, chars_of, lex_less, lex_lt, lemma_lex_irreflexive, lemma_lex_total,
    lemma_lex_transitive, owned};

verus! {

/// How a piece of evidence was produced.
#[derive(Debug, Clone, Copy, PartialEq, Eq, Structural)]
pub enum EvidenceMethod {
    Example,
    Case,
    Assert,
    Property,
    Production,
    Reference,
    Proof,
    Review,
}

/// What a piece of evidence shows about its subject.
#[derive(Debug, Clone, Copy, PartialEq, Eq, Structural)]
pub enum EvidenceOutcome {
    Pass,
    Fail,
    Contradicted,
    Unknown,
    Stale,
}

/// How independent a piece of evidence is.
#[derive(Debug, Clone, Copy, PartialEq, Eq, Structural)]
pub enum Independence {
    SameAuthor,
    IndependentReview,
    ExternalObservation,
}

/// The graph node or contract a piece of evidence is about.
#[derive(Debug, Clone, PartialEq, Eq)]
pub enum EvidenceSubject {
    Intent(IntentId),
    Claim(ClaimId),
    Contract(ContractId),
}

/// Runner, target, source and artifact identity of an execution.
#[derive(Debug, Clone, PartialEq, Eq)]
pub struct ExecutionIdentity {
    runner: String,
    target: String,
    source_commit: String,
    artifact_digest: String,
}

impl ExecutionIdentity {
    pub closed spec fn spec_runner(&self) -> Seq<char> {
        self.runner@
    }

    pub closed spec fn spec_target(&self) -> Seq<char> {
        self.target@
    }

    pub closed spec fn spec_source_commit(&self) -> Seq<char> {
        self.source_commit@
    }

    pub closed spec fn spec_artifact_digest(&self) -> Seq<char> {
        self.artifact_digest@
    }

    /// The identity of an execution.
    pub fn new(runner: &str, target: &str, source_commit: &str, artifact_digest: &str) -> (r: Self)
        ensures
            r.spec_runner() == runner@,
            r.spec_target() == target@,
            r.spec_source_commit() == source_commit@,
            r.spec_artifact_digest() == artifact_digest@,
    {
        ExecutionIdentity {
            runner: owned(runner),
            target: owned(target),
            source_commit: owned(source_commit),
            artifact_digest: owned(artifact_digest),
        }
    }

    pub fn runner(&self) -> (r: &str)
        ensures
            r@ == self.spec_runner(),
    {
        self.runner.as_str()
    }

    pub fn target(&self) -> (r: &str)
        ensures
            r@ == self.spec_target(),
    {
        self.target.as_str()
    }

    pub fn source_commit(&self) -> (r: &str)
        ensures
            r@ == self.spec_source_commit(),
    {
        self.source_commit.as_str()
    }

    pub fn artifact_digest(&self) -> (r: &str)
        ensures
            r@ == self.spec_artifact_digest(),
    {
        self.artifact_digest.as_str()
    }
}

/// The coverage counts an input list describes: later entries for a bucket
/// replace earlier ones.
pub open spec fn coverage_map(input: Seq<(String, usize)>) -> Map<Seq<char>, usize>
    decreases input.len(),
{
    if input.len() == 0 {
        Map::empty()
    } else {
        coverage_map(input.drop_last()).insert(input.last().0@, input.last().1)
    }
}

/// Entries sorted strictly by bucket name.
pub open spec fn sorted_buckets(entries: Seq<(String, usize)>) -> bool {
    forall|i: int, j: int|
        0 <= i < j < entries.len() ==> lex_lt(#[trigger] entries[i].0@, #[trigger] entries[j].0@)
}

/// The entries hold exactly the map `m`.
pub open spec fn entries_hold(entries: Seq<(String, usize)>, m: Map<Seq<char>, usize>) -> bool {
    &&& forall|i: int| 0 <= i < entries.len() ==> m.contains_key(#[trigger] entries[i].0@) && m[entries[i].0@] == entries[i].1
    &&& forall|k: Seq<char>| #[trigger] m.contains_key(k) ==> exists|i: int| 0 <= i < entries.len() && entries[i].0@ == k
}

/// The number of executed cases and the deterministic sampling/replay metadata.
#[derive(Debug, Clone, PartialEq, Eq)]
pub struct SamplingPlan {
    cases: usize,
    seed: u64,
    generator: String,
    shrinks: Vec<u64>,
    coverage: Vec<(String, usize)>,
}

fn insert_bucket(entries: &mut Vec<(String, usize)>, bucket: &String, count: usize)
    requires
        sorted_buckets(old(entries)@),
    ensures
        sorted_buckets(final(entries)@),
        forall|m: Map<Seq<char>, usize>| entries_hold(old(entries)@, m) ==> entries_hold(
            final(entries)@,
            m.insert(bucket@, count),
        ),
{
    let key = chars_of(bucket.as_str());
    let mut i: usize = 0;
    while i < entries.len()
        invariant
            i <= entries@.len(),
            key@ == bucket@,
            forall|j: int| 0 <= j < i ==> lex_lt(#[trigger] entries@[j].0@, bucket@),
        ensures
            i <= entries@.len(),
            forall|j: int| 0 <= j < i ==> lex_lt(#[trigger] entries@[j].0@, bucket@),
            i < entries@.len() ==> !lex_lt(entries@[i as int].0@, bucket@),
        decreases entries.len() - i,
    {
        let existing = chars_of(entries[i].0.as_str());
        if !lex_less(&existing, &key) {
            break;
        }
        i = i + 1;
    }
    let ghost before = entries@;
    if i < entries.len() && chars_eq(&chars_of(entries[i].0.as_str()), &key) {
        let mut entry = (owned(bucket.as_str()), count);
        std::mem::swap(&mut entries[i], &mut entry);
        assert forall|a: int, b: int| 0 <= a < b < entries@.len() implies lex_lt(
            #[trigger] entries@[a].0@,
            #[trigger] entries@[b].0@,
        ) by {
            assert(lex_lt(before[a].0@, before[b].0@));
        }
        assert forall|m: Map<Seq<char>, usize>| entries_hold(before, m) implies entries_hold(
            entries@,
            m.insert(bucket@, count),
        ) by {
            assert forall|k: Seq<char>| #[trigger] m.insert(bucket@, count).contains_key(k) implies exists|x: int|
                0 <= x < entries@.len() && entries@[x].0@ == k by {
                if k != bucket@ {
                    let x = choose|x: int| 0 <= x < before.len() && before[x].0@ == k;
                    assert(entries@[x].0@ == k);
                } else {
                    assert(entries@[i as int].0@ == k);
                }
            }
            assert forall|x: int| 0 <= x < entries@.len() implies m.insert(bucket@, count).contains_key(
                #[trigger] entries@[x].0@,
            ) && m.insert(bucket@, count)[entries@[x].0@] == entries@[x].1 by {
                if x != i {
                    assert(entries@[x] == before[x]);
                    if before[x].0@ == bucket@ {
                        if x < i {
                            assert(lex_lt(before[x].0@, bucket@));
                            lemma_lex_irreflexive(bucket@);
                        } else {
                            assert(lex_lt(before[i as int].0@, before[x].0@));
                            lemma_lex_irreflexive(bucket@);
                        }
                    }
                }
            }
        }
    } else {
        proof {
            if i < entries@.len() {
                lemma_lex_total(before[i as int].0@, bucket@);
                assert(lex_lt(bucket@, before[i as int].0@));
            }
        }
        entries.insert(i, (owned(bucket.as_str()), count));
        assert forall|a: int, b: int| 0 <= a < b < entries@.len() implies lex_lt(
            #[trigger] entries@[a].0@,
            #[trigger] entries@[b].0@,
        ) by {
            if b < i {
                assert(lex_lt(before[a].0@, before[b].0@));
            } else if b == i {
                assert(lex_lt(before[a].0@, bucket@));
            } else if a == i {
                if b - 1 > i {
                    assert(lex_lt(before[i as int].0@, before[b - 1].0@));
                    lemma_lex_transitive(bucket@, before[i as int].0@, before[b - 1].0@);
                }
            } else if a < i {
                assert(lex_lt(before[a].0@, bucket@));
                if b - 1 >= i {
                    assert(lex_lt(bucket@, before[b - 1].0@)) by {
                        if b - 1 > i {
                            assert(lex_lt(before[i as int].0@, before[b - 1].0@));
                            lemma_lex_transitive(bucket@, before[i as int].0@, before[b - 1].0@);
                        }
                    }
                    lemma_lex_transitive(before[a].0@, bucket@, before[b - 1].0@);
                }
            } else {
                assert(lex_lt(before[a - 1].0@, before[b - 1].0@));
            }
        }
        assert forall|m: Map<Seq<char>, usize>| entries_hold(before, m) implies entries_hold(
            entries@,
            m.insert(bucket@, count),
        ) by {
            assert forall|k: Seq<char>| #[trigger] m.insert(bucket@, count).contains_key(k) implies exists|x: int|
                0 <= x < entries@.len() && entries@[x].0@ == k by {
                if k != bucket@ {
                    let x = choose|x: int| 0 <= x < before.len() && before[x].0@ == k;
                    if x < i {
                        assert(entries@[x].0@ == k);
                    } else {
                        assert(entries@[x + 1].0@ == k);
                    }
                } else {
                    assert(entries@[i as int].0@ == k);
                }
            }
            assert forall|x: int| 0 <= x < entries@.len() implies m.insert(bucket@, count).contains_key(
                #[trigger] entries@[x].0@,
            ) && m.insert(bucket@, count)[entries@[x].0@] == entries@[x].1 by {
                if x < i {
                    assert(entries@[x] == before[x]);
                    assert(lex_lt(before[x].0@, bucket@));
                    lemma_lex_irreflexive(bucket@);
                } else if x > i {
                    assert(entries@[x] == before[x - 1]);
                    assert(lex_lt(bucket@, before[i as int].0@));
                    if x - 1 > i {
                        assert(lex_lt(before[i as int].0@, before[x - 1].0@));
                        lemma_lex_transitive(bucket@, before[i as int].0@, before[x - 1].0@);
                    }
                    lemma_lex_irreflexive(bucket@);
                }
            }
        }
    }
}

impl SamplingPlan {
    pub closed spec fn spec_cases(&self) -> usize {
        self.cases
    }

    pub closed spec fn spec_seed(&self) -> u64 {
        self.seed
    }

    pub closed spec fn spec_generator(&self) -> Seq<char> {
        self.generator@
    }

    pub closed spec fn spec_shrinks(&self) -> Seq<u64> {
        self.shrinks@
    }

    pub closed spec fn spec_coverage(&self) -> Seq<(String, usize)> {
        self.coverage@
    }

    /// A sampling plan. `coverage` lists bucket counts; a bucket listed
    /// twice keeps its last count, and the buckets are kept in name order.
    pub fn new(cases: usize, seed: u64, generator: &str, shrinks: Vec<u64>, coverage: Vec<(String, usize)>) -> (r: Self)
        ensures
            r.spec_cases() == cases,
            r.spec_seed() == seed,
            r.spec_generator() == generator@,
            r.spec_shrinks() == shrinks@,
            sorted_buckets(r.spec_coverage()),
            entries_hold(r.spec_coverage(), coverage_map(coverage@)),
    {
        let mut entries: Vec<(String, usize)> = Vec::new();
        let mut i: usize = 0;
        while i < coverage.len()
            invariant
                i <= coverage@.len(),
                sorted_buckets(entries@),
                entries_hold(entries@, coverage_map(coverage@.subrange(0, i as int))),
            decreases coverage.len() - i,
        {
            assert(coverage@.subrange(0, i + 1).drop_last() =~= coverage@.subrange(0, i as int));
            insert_bucket(&mut entries, &coverage[i].0, coverage[i].1);
            i = i + 1;
        }
        assert(coverage@.subrange(0, coverage@.len() as int) =~= coverage@);
        SamplingPlan { cases, seed, generator: owned(generator), shrinks, coverage: entries }
    }

    pub fn cases(&self) -> (r: usize)
        ensures
            r == self.spec_cases(),
    {
        self.cases
    }

    pub fn seed(&self) -> (r: u64)
        ensures
            r == self.spec_seed(),
    {
        self.seed
    }

    pub fn generator(&self) -> (r: &str)
        ensures
            r@ == self.spec_generator(),
    {
        self.generator.as_str()
    }

    pub fn shrinks(&self) -> (r: &[u64])
        ensures
            r@ == self.spec_shrinks(),
    {
        self.shrinks.as_slice()
    }

    /// The coverage buckets with their counts, in bucket-name order.
    pub fn coverage(&self) -> (r: &[(String, usize)])
        ensures
            r@ == self.spec_coverage(),
    {
        self.coverage.as_slice()
    }
}

/// An execution boundary together with its sampling plan.
#[derive(Debug, Clone, PartialEq, Eq)]
pub struct ExecutionContext {
    identity: ExecutionIdentity,
    sampling: SamplingPlan,
}

impl ExecutionContext {
    pub closed spec fn spec_identity(&self) -> ExecutionIdentity {
        self.identity
    }

    pub closed spec fn spec_sampling(&self) -> SamplingPlan {
        self.sampling
    }

    pub fn new(identity: ExecutionIdentity, sampling: SamplingPlan) -> (r: Self)
        ensures
            r.spec_identity() == identity,
            r.spec_sampling() == sampling,
    {
        ExecutionContext { identity, sampling }
    }

    pub fn runner(&self) -> (r: &str)
        ensures
            r@ == self.spec_identity().spec_runner(),
    {
        self.identity.runner()
    }

    pub fn target(&self) -> (r: &str)
        ensures
            r@ == self.spec_identity().spec_target(),
    {
        self.identity.target()
    }

    pub fn source_commit(&self) -> (r: &str)
        ensures
            r@ == self.spec_identity().spec_source_commit(),
    {
        self.identity.source_commit()
    }

    pub fn artifact_digest(&self) -> (r: &str)
        ensures
            r@ == self.spec_identity().spec_artifact_digest(),
    {
        self.identity.artifact_digest()
    }

    pub fn cases(&self) -> (r: usize)
        ensures
            r == self.spec_sampling().spec_cases(),
    {
        self.sampling.cases()
    }

    pub fn seed(&self) -> (r: u64)
        ensures
            r == self.spec_sampling().spec_seed(),
    {
        self.sampling.seed()
    }

    pub fn generator(&self) -> (r: &str)
        ensures
            r@ == self.spec_sampling().spec_generator(),
    {
        self.sampling.generator()
    }

    pub fn shrinks(&self) -> (r: &[u64])
        ensures
            r@ == self.spec_sampling().spec_shrinks(),
    {
        self.sampling.shrinks()
    }

    pub fn coverage(&self) -> (r: &[(String, usize)])
        ensures
            r@ == self.spec_sampling().spec_coverage(),
    {
        self.sampling.coverage()
    }
}

/// Producer, tool version and timestamp of a piece of evidence.
#[derive(Debug, Clone, PartialEq, Eq)]
pub struct Provenance {
    producer: String,
    tool_version: String,
    timestamp: String,
}

impl Provenance {
    pub closed spec fn spec_producer(&self) -> Seq<char> {
        self.producer@
    }

    pub closed spec fn spec_tool_version(&self) -> Seq<char> {
        self.tool_version@
    }

    pub closed spec fn spec_timestamp(&self) -> Seq<char> {
        self.timestamp@
    }

    pub fn new(producer: &str, tool_version: &str, timestamp: &str) -> (r: Self)
        ensures
            r.spec_producer() == producer@,
            r.spec_tool_version() == tool_version@,
            r.spec_timestamp() == timestamp@,
    {
        Provenance {
            producer: owned(producer),
            tool_version: owned(tool_version),
            timestamp: owned(timestamp),
        }
    }

    pub fn producer(&self) -> (r: &str)
        ensures
            r@ == self.spec_producer(),
    {
        self.producer.as_str()
    }

    pub fn tool_version(&self) -> (r: &str)
        ensures
            r@ == self.spec_tool_version(),
    {
        self.tool_version.as_str()
    }

    pub fn timestamp(&self) -> (r: &str)
        ensures
            r@ == self.spec_timestamp(),
    {
        self.timestamp.as_str()
    }
}

/// One evidence record.
#[derive(Debug, Clone, PartialEq, Eq)]
pub struct Evidence {
    id: EvidenceId,
    method: EvidenceMethod,
    subject: EvidenceSubject,
    outcome: EvidenceOutcome,
    execution: ExecutionContext,
    provenance: Provenance,
    independence: Independence,
}

impl Evidence {
    /// The record's ID.
    pub closed spec fn spec_id(&self) -> StableIdView {
        self.id@
    }

    pub closed spec fn spec_method(&self) -> EvidenceMethod {
        self.method
    }

    pub closed spec fn spec_subject(&self) -> EvidenceSubject {
        self.subject
    }

    pub closed spec fn spec_outcome(&self) -> EvidenceOutcome {
        self.outcome
    }

    pub closed spec fn spec_execution(&self) -> ExecutionContext {
        self.execution
    }

    pub closed spec fn spec_provenance(&self) -> Provenance {
        self.provenance
    }

    pub closed spec fn spec_independence(&self) -> Independence {
        self.independence
    }

    pub fn new(
        id: EvidenceId,
        method: EvidenceMethod,
        subject: EvidenceSubject,
        outcome: EvidenceOutcome,
        execution: ExecutionContext,
        provenance: Provenance,
        independence: Independence,
    ) -> (r: Self)
        ensures
            r.spec_id() == id@,
            r.spec_method() == method,
            r.spec_subject() == subject,
            r.spec_outcome() == outcome,
            r.spec_execution() == execution,
            r.spec_provenance() == provenance,
            r.spec_independence() == independence,
    {
        Evidence { id, method, subject, outcome, execution, provenance, independence }
    }

    pub fn id(&self) -> (r: &EvidenceId)
        ensures
            r@ == self.spec_id(),
    {
        &self.id
    }

    pub fn method(&self) -> (r: EvidenceMethod)
        ensures
            r == self.spec_method(),
    {
        self.method
    }

    pub fn subject(&self) -> (r: &EvidenceSubject)
        ensures
            *r == self.spec_subject(),
    {
        &self.subject
    }

    pub fn outcome(&self) -> (r: EvidenceOutcome)
        ensures
            r == self.spec_outcome(),
    {
        self.outcome
    }

    pub fn execution(&self) -> (r: &ExecutionContext)
        ensures
            *r == self.spec_execution(),
    {
        &self.execution
    }

    pub fn provenance(&self) -> (r: &Provenance)
        ensures
            *r == self.spec_provenance(),
    {
        &self.provenance
    }

    pub fn independence(&self) -> (r: Independence)
        ensures
            r == self.spec_independence(),
    {
        self.independence
    }
}

/// What a review evaluates.
#[derive(Debug, Clone, PartialEq, Eq)]
pub enum ReviewSubject {
    Intent(IntentId),
    Claim(ClaimId),
    Evidence(EvidenceId),
}

/// What a change invalidates.
#[derive(Debug, Clone, PartialEq, Eq)]
pub enum InvalidationSubject {
    Review(ReviewId),
    Evidence(EvidenceId),
}

/// A typed edge of the graph.
#[derive(Debug, Clone, PartialEq, Eq)]
pub enum Edge {
    Motivates { intent: IntentId, claim: ClaimId },
    ConstrainedBy { claim: ClaimId, assumption: AssumptionId },
    TestedBy { claim: ClaimId, contract: ContractId },
    Supports { observation: EvidenceId, claim: ClaimId },
    Contradicts { observation: EvidenceId, claim: ClaimId },
    Evaluates { review: ReviewId, subject: ReviewSubject },
    Invalidates { change: ChangeId, subject: InvalidationSubject },
}

/// The name of an edge's relation.
pub open spec fn relation_name(e: Edge) -> Seq<char> {
    match e {
        Edge::Motivates { .. } => "motivates"@,
        Edge::ConstrainedBy { .. } => "constrained-by"@,
        Edge::TestedBy { .. } => "tested-by"@,
        Edge::Supports { .. } => "supports"@,
        Edge::Contradicts { .. } => "contradicts"@,
        Edge::Evaluates { .. } => "evaluates"@,
        Edge::Invalidates { .. } => "invalidates"@,
    }
}

/// The evidence an edge refers to, if any.
pub open spec fn edge_evidence(e: Edge) -> Option<StableIdView> {
    match e {
        Edge::Supports { observation, .. } => Some(observation@),
        Edge::Contradicts { observation, .. } => Some(observation@),
        Edge::Evaluates { subject: ReviewSubject::Evidence(id), .. } => Some(id@),
        Edge::Invalidates { subject: InvalidationSubject::Evidence(id), .. } => Some(id@),
        _ => None,
    }
}

impl Edge {
    /// The name of the edge's relation.
    pub fn relation(&self) -> (r: &'static str)
        ensures
            r@ == relation_name(*self),
    {
        match self {
            Edge::Motivates { .. } => "motivates",
            Edge::ConstrainedBy { .. } => "constrained-by",
            Edge::TestedBy { .. } => "tested-by",
            Edge::Supports { .. } => "supports",
            Edge::Contradicts { .. } => "contradicts",
            Edge::Evaluates { .. } => "evaluates",
            Edge::Invalidates { .. } => "invalidates",
        }
    }
}

/// A graph update that was refused.
#[derive(Debug, Clone, PartialEq, Eq)]
pub enum GraphError {
    /// The evidence ID is already in the graph.
    DuplicateEvidence { id: EvidenceId },
    /// An edge refers to evidence that is not in the graph.
    MissingEvidence { id: EvidenceId },
}

/// The IDs of a list of evidence records.
pub open spec fn evidence_ids(s: Seq<Evidence>) -> Seq<StableIdView> {
    s.map_values(|e: Evidence| e.spec_id())
}

/// Evidence IDs are unique and edges refer only to evidence among `evidence`.
pub open spec fn graph_parts_wf(evidence: Seq<Evidence>, edges: Seq<Edge>) -> bool {
    &&& evidence_ids(evidence).no_duplicates()
    &&& forall|i: int|
        0 <= i < edges.len() ==> (#[trigger] edge_evidence(edges[i]) matches Some(id)
            ==> evidence_ids(evidence).contains(id))
}

/// A request to the graph: add an evidence record, or add an edge.
pub enum GraphRequest {
    AddEvidence(Evidence),
    AddEdge(Edge),
}

/// The outcome of one request on a graph with `evidence` and `edges`: the
/// records and edges afterwards, and whether the request was accepted.
/// Evidence whose ID is already present is refused, and so is an edge that
/// refers to evidence not present.
pub open spec fn graph_step(evidence: Seq<Evidence>, edges: Seq<Edge>, request: GraphRequest) -> (
    Seq<Evidence>,
    Seq<Edge>,
    bool,
) {
    match request {
        GraphRequest::AddEvidence(e) => if evidence_ids(evidence).contains(e.spec_id()) {
            (evidence, edges, false)
        } else {
            (evidence.push(e), edges, true)
        },
        GraphRequest::AddEdge(x) => if edge_evidence(x) matches Some(id) && !evidence_ids(
            evidence,
        ).contains(id) {
            (evidence, edges, false)
        } else {
            (evidence, edges.push(x), true)
        },
    }
}

/// The graph that a sequence of requests builds from the empty graph.
pub open spec fn replay(requests: Seq<GraphRequest>) -> (Seq<Evidence>, Seq<Edge>)
    decreases requests.len(),
{
    if requests.len() == 0 {
        (Seq::empty(), Seq::empty())
    } else {
        let (ev, ed) = replay(requests.drop_last());
        let (ev2, ed2, _) = graph_step(ev, ed, requests.last());
        (ev2, ed2)
    }
}

/// One accepted or refused request keeps the graph well-formed.
pub proof fn lemma_graph_step_keeps_wf(evidence: Seq<Evidence>, edges: Seq<Edge>, request: GraphRequest)
    requires
        graph_parts_wf(evidence, edges),
    ensures
        graph_parts_wf(graph_step(evidence, edges, request).0, graph_step(evidence, edges, request).1),
{
    match request {
        GraphRequest::AddEvidence(e) => {
            if !evidence_ids(evidence).contains(e.spec_id()) {
                let after = evidence.push(e);
                assert(evidence_ids(after) =~= evidence_ids(evidence).push(e.spec_id()));
                assert forall|a: int, b: int| 0 <= a < b < evidence_ids(after).len() implies
                    evidence_ids(after)[a] != evidence_ids(after)[b] by {
                    if b == evidence.len() {
                        assert(evidence_ids(evidence)[a] == evidence_ids(after)[a]);
                    }
                }
                assert forall|i: int| 0 <= i < edges.len() implies (#[trigger] edge_evidence(edges[i])
                    matches Some(id) ==> evidence_ids(after).contains(id)) by {
                    if let Some(id) = edge_evidence(edges[i]) {
                        let k = choose|k: int| 0 <= k < evidence_ids(evidence).len() && #[trigger] evidence_ids(evidence)[k] == id;
                        assert(evidence_ids(after)[k] == id);
                    }
                }
            }
        },
        GraphRequest::AddEdge(x) => {
            if !(edge_evidence(x) matches Some(id) && !evidence_ids(evidence).contains(id)) {
                let after = edges.push(x);
                assert forall|i: int| 0 <= i < after.len() implies (#[trigger] edge_evidence(after[i])
                    matches Some(id) ==> evidence_ids(evidence).contains(id)) by {
                    if i < edges.len() {
                        assert(after[i] == edges[i]);
                    } else {
                        assert(after[i] == x);
                    }
                }
            }
        },
    }
}

/// Every graph that any sequence of requests builds from the empty graph is
/// well-formed: its evidence IDs are pairwise distinct, and every edge that
/// refers to evidence refers to a record in it.
pub proof fn law_built_graphs_are_well_formed(requests: Seq<GraphRequest>)
    ensures
        graph_parts_wf(replay(requests).0, replay(requests).1),
    decreases requests.len(),
{
    if requests.len() == 0 {
        assert(evidence_ids(Seq::<Evidence>::empty()) =~= Seq::<StableIdView>::empty());
    } else {
        law_built_graphs_are_well_formed(requests.drop_last());
        let (ev, ed) = replay(requests.drop_last());
        lemma_graph_step_keeps_wf(ev, ed, requests.last());
    }
}

/// Evidence records and ordered edges.
///
/// Evidence IDs are unique, and every edge that refers to evidence refers to
/// a record in the graph.
#[derive(Debug, Clone, PartialEq, Eq)]
pub struct EvidenceGraph {
    evidence: Vec<Evidence>,
    edges: Vec<Edge>,
}

impl EvidenceGraph {
    /// Evidence IDs are unique and edges refer only to evidence in the graph.
    pub open spec fn wf(self) -> bool {
        graph_parts_wf(self.spec_evidence(), self.spec_edges())
    }

    /// The evidence records, in insertion order.
    pub closed spec fn spec_evidence(&self) -> Seq<Evidence> {
        self.evidence@
    }

    /// The edges, in insertion order.
    pub closed spec fn spec_edges(&self) -> Seq<Edge> {
        self.edges@
    }

    /// An empty graph.
    pub fn new() -> (r: Self)
        ensures
            r.wf(),
            r.spec_evidence() == Seq::<Evidence>::empty(),
            r.spec_edges() == Seq::<Edge>::empty(),
    {
        let g = EvidenceGraph { evidence: Vec::new(), edges: Vec::new() };
        assert(evidence_ids(g.evidence@) =~= Seq::<StableIdView>::empty());
        g
    }

    fn find_evidence(&self, id: &EvidenceId) -> (r: bool)
        ensures
            r == evidence_ids(self.evidence@).contains(id@),
    {
        let mut i: usize = 0;
        while i < self.evidence.len()
            invariant
                i <= self.evidence@.len(),
                forall|k: int| 0 <= k < i ==> self.evidence@[k].spec_id() != id@,
            decreases self.evidence.len() - i,
        {
            if self.evidence[i].id().same_as(id) {
                assert(evidence_ids(self.evidence@)[i as int] == id@);
                return true;
            }
            i = i + 1;
        }
        proof {
            if evidence_ids(self.evidence@).contains(id@) {
                let k = choose|k: int| 0 <= k < evidence_ids(self.evidence@).len() && #[trigger] evidence_ids(self.evidence@)[k] == id@;
                assert(self.evidence@[k].spec_id() == id@);
            }
        }
        false
    }

    /// Adds an evidence record; refused when its ID is already present.
    pub fn add_evidence(&mut self, evidence: Evidence) -> (r: Result<(), GraphError>)
        requires
            old(self).wf(),
        ensures
            final(self).wf(),
            r is Err <==> evidence_ids(old(self).spec_evidence()).contains(evidence.spec_id()),
            r matches Err(e) ==> e matches GraphError::DuplicateEvidence { id } && id@ == evidence.spec_id(),
            r is Err ==> final(self).spec_evidence() == old(self).spec_evidence(),
            r is Ok ==> final(self).spec_evidence() == old(self).spec_evidence().push(evidence),
            final(self).spec_edges() == old(self).spec_edges(),
            graph_step(old(self).spec_evidence(), old(self).spec_edges(), GraphRequest::AddEvidence(evidence))
                == (final(self).spec_evidence(), final(self).spec_edges(), r is Ok),
    {
        if self.find_evidence(evidence.id()) {
            return Err(GraphError::DuplicateEvidence { id: evidence.id().clone() });
        }
        let ghost before = self.evidence@;
        let ghost new_id = evidence.spec_id();
        assert(evidence_ids(before.push(evidence)) =~= evidence_ids(before).push(new_id));
        assert(evidence_ids(before.push(evidence)).no_duplicates()) by {
            assert forall|a: int, b: int| 0 <= a < b < evidence_ids(before.push(evidence)).len() implies
                evidence_ids(before.push(evidence))[a] != evidence_ids(before.push(evidence))[b] by {
                if b == before.len() {
                    assert(evidence_ids(before)[a] == evidence_ids(before.push(evidence))[a]);
                }
            }
        }
        assert forall|i: int| 0 <= i < self.edges@.len() implies (#[trigger] edge_evidence(self.edges@[i]) matches Some(id)
            ==> evidence_ids(before.push(evidence)).contains(id)) by {
            if let Some(id) = edge_evidence(self.edges@[i]) {
                let k = choose|k: int| 0 <= k < evidence_ids(before).len() && #[trigger] evidence_ids(before)[k] == id;
                assert(evidence_ids(before.push(evidence))[k] == id);
            }
        }
        self.evidence.push(evidence);
        Ok(())
    }

    /// Adds an edge; refused when the edge refers to evidence not in the graph.
    pub fn add_edge(&mut self, edge: Edge) -> (r: Result<(), GraphError>)
        requires
            old(self).wf(),
        ensures
            final(self).wf(),
            r is Err <==> (edge_evidence(edge) matches Some(id) && !evidence_ids(
                old(self).spec_evidence(),
            ).contains(id)),
            r matches Err(e) ==> e matches GraphError::MissingEvidence { id } && edge_evidence(edge)
                == Some(id@),
            r is Err ==> final(self).spec_edges() == old(self).spec_edges(),
            r is Ok ==> final(self).spec_edges() == old(self).spec_edges().push(edge),
            final(self).spec_evidence() == old(self).spec_evidence(),
            graph_step(old(self).spec_evidence(), old(self).spec_edges(), GraphRequest::AddEdge(edge))
                == (final(self).spec_evidence(), final(self).spec_edges(), r is Ok),
    {
        let referenced: Option<&EvidenceId> = match &edge {
            Edge::Supports { observation, .. } => Some(observation),
            Edge::Contradicts { observation, .. } => Some(observation),
            Edge::Evaluates { subject: ReviewSubject::Evidence(evidence), .. } => Some(evidence),
            Edge::Invalidates { subject: InvalidationSubject::Evidence(evidence), .. } => Some(
                evidence,
            ),
            _ => None,
        };
        if let Some(id) = referenced {
            if !self.find_evidence(id) {
                return Err(GraphError::MissingEvidence { id: id.clone() });
            }
        }
        let ghost before = self.edges@;
        assert forall|i: int| 0 <= i < before.push(edge).len() implies (#[trigger] edge_evidence(before.push(edge)[i]) matches Some(id)
            ==> evidence_ids(self.evidence@).contains(id)) by {
            if i < before.len() {
                assert(before.push(edge)[i] == before[i]);
            }
        }
        self.edges.push(edge);
        Ok(())
    }

    /// The evidence records, in insertion order.
    pub fn evidence(&self) -> (r: &[Evidence])
        ensures
            r@ == self.spec_evidence(),
    {
        self.evidence.as_slice()
    }

    /// The edges, in insertion order.
    pub fn edges(&self) -> (r: &[Edge])
        ensures
            r@ == self.spec_edges(),
    {
        self.edges.as_slice()
    }
}

impl Default for EvidenceGraph {
    fn default() -> (r: Self)
        ensures
            r.wf(),
            r.spec_evidence() == Seq::<Evidence>::empty(),
            r.spec_edges() == Seq::<Edge>::empty(),
    {
        EvidenceGraph::new()
    }
}

} // verus!
