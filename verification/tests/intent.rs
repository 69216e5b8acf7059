use lsharp::intent::{IntentNode, NodeKind, StableId};
use lsharp::syntax::Span;

#[test]
fn built_ids_read_back_as_themselves() {
    let id = StableId::new(NodeKind::Claim, "billing", "refund-window").unwrap();
    assert_eq!(id.as_str(), "claim:billing/refund-window");
    let parsed = StableId::parse(id.as_str()).unwrap();
    assert_eq!(parsed, id);
}

#[test]
fn parsed_ids_print_back_their_wire_value() {
    for wire in ["intent:app/login", "open-question:a.b/c_d", "evidence:x/y"] {
        let id = StableId::parse(wire).unwrap();
        assert_eq!(id.as_str(), wire);
    }
    assert!(StableId::parse("intent:app").is_err());
    assert!(StableId::parse("unknown:a/b").is_err());
}

#[test]
fn nodes_keep_the_wire_value_of_their_id() {
    let wire = "claim:billing/refund-window";
    let node = IntentNode::from_wire_parts(wire, "Refunds within 30 days", Span::new(3, 9)).unwrap();
    assert_eq!(node.stable_id().as_str(), wire);
    assert_eq!(*node.stable_id(), StableId::parse(wire).unwrap());
    assert_eq!(node.kind(), NodeKind::Claim);
    let moved = IntentNode::from_wire_parts(wire, "Refunds within 30 days", Span::new(40, 50)).unwrap();
    assert_eq!(moved.stable_id(), node.stable_id());
}
