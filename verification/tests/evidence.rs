use lsharp::evidence::{
    Edge, Evidence, EvidenceGraph, EvidenceMethod, EvidenceOutcome, EvidenceSubject,
    ExecutionContext, ExecutionIdentity, GraphError, Independence, Provenance, SamplingPlan,
};
use lsharp::intent::{ClaimId, EvidenceId};

fn evidence(key: &str, claim: &ClaimId) -> Evidence {
    Evidence::new(
        EvidenceId::new("run", key).unwrap(),
        EvidenceMethod::Case,
        EvidenceSubject::Claim(claim.clone()),
        EvidenceOutcome::Pass,
        ExecutionContext::new(
            ExecutionIdentity::new("runner", "wasi", "abc123", "sha256:00"),
            SamplingPlan::new(1, 7, "fixed", Vec::new(), Vec::new()),
        ),
        Provenance::new("ci", "0.1.0", "2024-01-01T00:00:00Z"),
        Independence::SameAuthor,
    )
}

#[test]
fn a_graph_keeps_exactly_the_accepted_additions_in_order() {
    let claim = ClaimId::new("billing", "refund").unwrap();
    let mut g = EvidenceGraph::default();
    assert!(g.add_evidence(evidence("e1", &claim)).is_ok());
    assert!(g.add_evidence(evidence("e2", &claim)).is_ok());
    assert_eq!(
        g.add_evidence(evidence("e1", &claim)),
        Err(GraphError::DuplicateEvidence { id: EvidenceId::new("run", "e1").unwrap() })
    );
    let missing = EvidenceId::new("run", "e9").unwrap();
    assert_eq!(
        g.add_edge(Edge::Supports { observation: missing.clone(), claim: claim.clone() }),
        Err(GraphError::MissingEvidence { id: missing })
    );
    let e2 = EvidenceId::new("run", "e2").unwrap();
    assert!(g.add_edge(Edge::Contradicts { observation: e2.clone(), claim: claim.clone() }).is_ok());

    let ids: Vec<&str> = g.evidence().iter().map(|e| e.id().as_str()).collect();
    assert_eq!(ids, vec!["evidence:run/e1", "evidence:run/e2"]);
    assert_eq!(g.edges().len(), 1);
    assert_eq!(g.edges()[0], Edge::Contradicts { observation: e2, claim });
}
