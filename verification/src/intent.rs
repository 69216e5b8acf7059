//! Node identities and the minimal AST of the intent/evidence graph.
//!
//! A node's stable ID is built from a user-chosen namespace and key, never
//! from source spans or declaration order, so formatting, reordering
//! declarations or running on another target leaves it unchanged. Its wire
//! form is `kind:namespace/key`.

use vstd::prelude::*;
pub use crate::syntax::Span;
use crate::text::{
    char_is_white_space, chars_eq, chars_of, find_char, find_char_exec, is_white_space,
    lemma_find_char_after, lemma_find_char_found, owned, push_char, push_str, string_from_range,
};

verus! {

/// The kinds of node in the intent/evidence graph.
#[derive(Debug, Clone, Copy, PartialEq, Eq, Structural, Hash)]
pub enum NodeKind {
    Intent,
    Claim,
    Assumption,
    OpenQuestion,
    Contract,
    Evidence,
    Review,
    Change,
}

/// The wire prefix of each node kind.
pub open spec fn kind_wire(k: NodeKind) -> Seq<char> {
    match k {
        NodeKind::Intent => seq!['i', 'n', 't', 'e', 'n', 't'],
        NodeKind::Claim => seq!['c', 'l', 'a', 'i', 'm'],
        NodeKind::Assumption => seq!['a', 's', 's', 'u', 'm', 'p', 't', 'i', 'o', 'n'],
        NodeKind::OpenQuestion => seq![
            'o', 'p', 'e', 'n', '-', 'q', 'u', 'e', 's', 't', 'i', 'o', 'n',
        ],
        NodeKind::Contract => seq!['c', 'o', 'n', 't', 'r', 'a', 'c', 't'],
        NodeKind::Evidence => seq!['e', 'v', 'i', 'd', 'e', 'n', 'c', 'e'],
        NodeKind::Review => seq!['r', 'e', 'v', 'i', 'e', 'w'],
        NodeKind::Change => seq!['c', 'h', 'a', 'n', 'g', 'e'],
    }
}

/// The node kind a wire prefix names, if any.
pub open spec fn kind_from_wire(t: Seq<char>) -> Option<NodeKind> {
    if t == kind_wire(NodeKind::Intent) {
        Some(NodeKind::Intent)
    } else if t == kind_wire(NodeKind::Claim) {
        Some(NodeKind::Claim)
    } else if t == kind_wire(NodeKind::Assumption) {
        Some(NodeKind::Assumption)
    } else if t == kind_wire(NodeKind::OpenQuestion) {
        Some(NodeKind::OpenQuestion)
    } else if t == kind_wire(NodeKind::Contract) {
        Some(NodeKind::Contract)
    } else if t == kind_wire(NodeKind::Evidence) {
        Some(NodeKind::Evidence)
    } else if t == kind_wire(NodeKind::Review) {
        Some(NodeKind::Review)
    } else if t == kind_wire(NodeKind::Change) {
        Some(NodeKind::Change)
    } else {
        None
    }
}

impl NodeKind {
    /// The stable ID wire prefix of this kind.
    pub fn as_str(self) -> (s: &'static str)
        ensures
            s@ == kind_wire(self),
    {
        match self {
            NodeKind::Intent => {
                proof { reveal_strlit("intent"); }
                let s = "intent";
                assert(s@ =~= kind_wire(self));
                s
            },
            NodeKind::Claim => {
                proof { reveal_strlit("claim"); }
                let s = "claim";
                assert(s@ =~= kind_wire(self));
                s
            },
            NodeKind::Assumption => {
                proof { reveal_strlit("assumption"); }
                let s = "assumption";
                assert(s@ =~= kind_wire(self));
                s
            },
            NodeKind::OpenQuestion => {
                proof { reveal_strlit("open-question"); }
                let s = "open-question";
                assert(s@ =~= kind_wire(self));
                s
            },
            NodeKind::Contract => {
                proof { reveal_strlit("contract"); }
                let s = "contract";
                assert(s@ =~= kind_wire(self));
                s
            },
            NodeKind::Evidence => {
                proof { reveal_strlit("evidence"); }
                let s = "evidence";
                assert(s@ =~= kind_wire(self));
                s
            },
            NodeKind::Review => {
                proof { reveal_strlit("review"); }
                let s = "review";
                assert(s@ =~= kind_wire(self));
                s
            },
            NodeKind::Change => {
                proof { reveal_strlit("change"); }
                let s = "change";
                assert(s@ =~= kind_wire(self));
                s
            },
        }
    }
}

fn kind_from_text(t: &Vec<char>) -> (r: Option<NodeKind>)
    ensures
        r == kind_from_wire(t@),
{
    if chars_eq(t, &chars_of(NodeKind::Intent.as_str())) {
        Some(NodeKind::Intent)
    } else if chars_eq(t, &chars_of(NodeKind::Claim.as_str())) {
        Some(NodeKind::Claim)
    } else if chars_eq(t, &chars_of(NodeKind::Assumption.as_str())) {
        Some(NodeKind::Assumption)
    } else if chars_eq(t, &chars_of(NodeKind::OpenQuestion.as_str())) {
        Some(NodeKind::OpenQuestion)
    } else if chars_eq(t, &chars_of(NodeKind::Contract.as_str())) {
        Some(NodeKind::Contract)
    } else if chars_eq(t, &chars_of(NodeKind::Evidence.as_str())) {
        Some(NodeKind::Evidence)
    } else if chars_eq(t, &chars_of(NodeKind::Review.as_str())) {
        Some(NodeKind::Review)
    } else if chars_eq(t, &chars_of(NodeKind::Change.as_str())) {
        Some(NodeKind::Change)
    } else {
        None
    }
}

/// A character allowed in a stable ID segment.
pub open spec fn segment_char(c: char) -> bool {
    ||| 'a' as u32 <= c as u32 <= 'z' as u32
    ||| 'A' as u32 <= c as u32 <= 'Z' as u32
    ||| '0' as u32 <= c as u32 <= '9' as u32
    ||| c == '_'
    ||| c == '-'
    ||| c == '.'
}

/// A non-empty ASCII segment of letters, digits, `_`, `-` and `.`.
pub open spec fn valid_segment(s: Seq<char>) -> bool {
    s.len() > 0 && forall|i: int| 0 <= i < s.len() ==> segment_char(#[trigger] s[i])
}

/// The wire form `kind:namespace/key`.
pub open spec fn wire_of(kind: NodeKind, namespace: Seq<char>, key: Seq<char>) -> Seq<char> {
    kind_wire(kind) + seq![':'] + namespace + seq!['/'] + key
}

/// An error in building or reading a stable ID.
#[derive(Debug, Clone, PartialEq, Eq)]
pub enum StableIdError {
    /// A namespace or key is empty or holds a character outside the segment alphabet.
    InvalidSegment { field: &'static str, value: String },
    /// A wire value is not of the form `kind:namespace/key`.
    InvalidWireFormat { value: String },
    /// A typed ID was read from the wire value of another kind.
    UnexpectedKind { expected: NodeKind, actual: NodeKind, value: String },
}

/// The mathematical content of a [`StableIdError`].
pub enum StableIdErrorView {
    InvalidSegment(Seq<char>, Seq<char>),
    InvalidWireFormat(Seq<char>),
    UnexpectedKind(NodeKind, NodeKind, Seq<char>),
}

impl View for StableIdError {
    type V = StableIdErrorView;

    open spec fn view(&self) -> StableIdErrorView {
        match self {
            StableIdError::InvalidSegment { field, value } => StableIdErrorView::InvalidSegment(
                field@,
                value@,
            ),
            StableIdError::InvalidWireFormat { value } => StableIdErrorView::InvalidWireFormat(
                value@,
            ),
            StableIdError::UnexpectedKind { expected, actual, value } =>
                StableIdErrorView::UnexpectedKind(*expected, *actual, value@),
        }
    }
}

/// The content of a stable ID.
pub struct StableIdView {
    pub kind: NodeKind,
    pub namespace: Seq<char>,
    pub key: Seq<char>,
}

pub open spec fn namespace_field() -> Seq<char> {
    seq!['n', 'a', 'm', 'e', 's', 'p', 'a', 'c', 'e']
}

pub open spec fn key_field() -> Seq<char> {
    seq!['k', 'e', 'y']
}

/// The outcome of building a stable ID from its parts.
pub open spec fn stable_id_result(kind: NodeKind, namespace: Seq<char>, key: Seq<char>) -> Result<
    StableIdView,
    StableIdErrorView,
> {
    if !valid_segment(namespace) {
        Err(StableIdErrorView::InvalidSegment(namespace_field(), namespace))
    } else if !valid_segment(key) {
        Err(StableIdErrorView::InvalidSegment(key_field(), key))
    } else {
        Ok(StableIdView { kind, namespace, key })
    }
}

/// The outcome of reading a wire value.
pub open spec fn parse_wire(w: Seq<char>) -> Result<StableIdView, StableIdErrorView> {
    match find_char(w, ':') {
        None => Err(StableIdErrorView::InvalidWireFormat(w)),
        Some(i) => match kind_from_wire(w.take(i)) {
            None => Err(StableIdErrorView::InvalidWireFormat(w)),
            Some(kind) => {
                let subject = w.skip(i + 1);
                match find_char(subject, '/') {
                    None => Err(StableIdErrorView::InvalidWireFormat(w)),
                    Some(j) => stable_id_result(kind, subject.take(j), subject.skip(j + 1)),
                }
            },
        },
    }
}

/// A cross-target stable ID: node kind, namespace and key.
#[derive(Debug, PartialEq, Eq, Hash)]
pub struct StableId {
    kind: NodeKind,
    namespace: String,
    key: String,
    wire: String,
}

impl View for StableId {
    type V = StableIdView;

    closed spec fn view(&self) -> StableIdView {
        StableIdView { kind: self.kind, namespace: self.namespace@, key: self.key@ }
    }
}

impl StableId {
    #[verifier::type_invariant]
    closed spec fn inv(self) -> bool {
        &&& valid_segment(self.namespace@)
        &&& valid_segment(self.key@)
        &&& self.wire@ == wire_of(self.kind, self.namespace@, self.key@)
    }

    /// Builds the ID `kind:namespace/key`, rejecting invalid segments.
    pub fn new(kind: NodeKind, namespace: &str, key: &str) -> (r: Result<Self, StableIdError>)
        ensures
            match r {
                Ok(id) => stable_id_result(kind, namespace@, key@) == Ok::<
                    StableIdView,
                    StableIdErrorView,
                >(id@),
                Err(e) => stable_id_result(kind, namespace@, key@) == Err::<
                    StableIdView,
                    StableIdErrorView,
                >(e@),
            },
    {
        validate_segment(namespace_field_str(), namespace)?;
        validate_segment(key_field_str(), key)?;
        let mut wire = String::new();
        push_str(&mut wire, kind.as_str());
        push_char(&mut wire, ':');
        push_str(&mut wire, namespace);
        push_char(&mut wire, '/');
        push_str(&mut wire, key);
        assert(wire@ =~= wire_of(kind, namespace@, key@));
        Ok(StableId { kind, namespace: owned(namespace), key: owned(key), wire })
    }

    /// The wire form `kind:namespace/key`.
    pub fn as_str(&self) -> (s: &str)
        ensures
            s@ == wire_of(self@.kind, self@.namespace, self@.key),
            valid_segment(self@.namespace),
            valid_segment(self@.key),
    {
        proof { use_type_invariant(self); }
        self.wire.as_str()
    }

    /// Reads a `kind:namespace/key` wire value, validating it.
    pub fn parse(wire: &str) -> (r: Result<Self, StableIdError>)
        ensures
            match r {
                Ok(id) => parse_wire(wire@) == Ok::<StableIdView, StableIdErrorView>(id@),
                Err(e) => parse_wire(wire@) == Err::<StableIdView, StableIdErrorView>(e@),
            },
    {
        let chars = chars_of(wire);
        let i = match find_char_exec(&chars, ':') {
            None => {
                return Err(StableIdError::InvalidWireFormat { value: owned(wire) });
            },
            Some(i) => i,
        };
        proof { lemma_find_char_found(chars@, ':'); }
        let kind_text = copy_range(&chars, 0, i);
        assert(kind_text@ =~= wire@.take(i as int));
        let kind = match kind_from_text(&kind_text) {
            None => {
                return Err(StableIdError::InvalidWireFormat { value: owned(wire) });
            },
            Some(k) => k,
        };
        let subject = copy_range(&chars, i + 1, chars.len());
        assert(subject@ =~= wire@.skip(i + 1));
        let j = match find_char_exec(&subject, '/') {
            None => {
                return Err(StableIdError::InvalidWireFormat { value: owned(wire) });
            },
            Some(j) => j,
        };
        proof { lemma_find_char_found(subject@, '/'); }
        let namespace = string_from_range(&subject, 0, j);
        let key = string_from_range(&subject, j + 1, subject.len());
        assert(namespace@ =~= subject@.take(j as int));
        assert(key@ =~= subject@.skip(j + 1));
        Self::new(kind, namespace.as_str(), key.as_str())
    }

    /// The node kind.
    pub fn kind(&self) -> (k: NodeKind)
        ensures
            k == self@.kind,
    {
        self.kind
    }

    /// The namespace segment.
    pub fn namespace(&self) -> (s: &str)
        ensures
            s@ == self@.namespace,
    {
        self.namespace.as_str()
    }

    /// The key segment.
    pub fn key(&self) -> (s: &str)
        ensures
            s@ == self@.key,
    {
        self.key.as_str()
    }

    /// Whether two IDs are the same, by their wire forms.
    pub fn same_as(&self, other: &StableId) -> (r: bool)
        ensures
            r == (self@ == other@),
    {
        proof {
            use_type_invariant(self);
            use_type_invariant(other);
            law_wire_form_identifies_id(self@, other@);
        }
        chars_eq(&chars_of(self.wire.as_str()), &chars_of(other.wire.as_str()))
    }
}

impl Clone for StableId {
    fn clone(&self) -> (r: Self)
        ensures
            r@ == self@,
    {
        proof { use_type_invariant(self); }
        StableId {
            kind: self.kind,
            namespace: owned(self.namespace.as_str()),
            key: owned(self.key.as_str()),
            wire: owned(self.wire.as_str()),
        }
    }
}

fn copy_range(chars: &Vec<char>, from: usize, to: usize) -> (v: Vec<char>)
    requires
        from <= to <= chars@.len(),
    ensures
        v@ == chars@.subrange(from as int, to as int),
{
    let mut v: Vec<char> = Vec::new();
    let mut i = from;
    while i < to
        invariant
            from <= i <= to <= chars@.len(),
            v@ == chars@.subrange(from as int, i as int),
        decreases to - i,
    {
        v.push(chars[i]);
        i = i + 1;
    }
    v
}

fn namespace_field_str() -> (s: &'static str)
    ensures
        s@ == namespace_field(),
{
    proof { reveal_strlit("namespace"); }
    let s = "namespace";
    assert(s@ =~= namespace_field());
    s
}

fn key_field_str() -> (s: &'static str)
    ensures
        s@ == key_field(),
{
    proof { reveal_strlit("key"); }
    let s = "key";
    assert(s@ =~= key_field());
    s
}

fn is_segment_char(c: char) -> (r: bool)
    ensures
        r == segment_char(c),
{
    let u = c as u32;
    ('a' as u32 <= u && u <= 'z' as u32) || ('A' as u32 <= u && u <= 'Z' as u32) || ('0' as u32
        <= u && u <= '9' as u32) || c == '_' || c == '-' || c == '.'
}

fn validate_segment(field: &'static str, value: &str) -> (r: Result<(), StableIdError>)
    ensures
        r is Ok <==> valid_segment(value@),
        r matches Err(e) ==> e@ == StableIdErrorView::InvalidSegment(field@, value@),
{
    let chars = chars_of(value);
    let mut ok = chars.len() > 0;
    let mut i: usize = 0;
    while i < chars.len()
        invariant
            i <= chars@.len(),
            chars@ == value@,
            ok == (chars@.len() > 0 && forall|k: int| 0 <= k < i ==> segment_char(#[trigger] chars@[k])),
        decreases chars.len() - i,
    {
        if !is_segment_char(chars[i]) {
            ok = false;
        }
        i = i + 1;
    }
    if ok {
        Ok(())
    } else {
        Err(StableIdError::InvalidSegment { field, value: owned(value) })
    }
}

/// No wire prefix contains `:`.
pub proof fn lemma_kind_wire_has_no_colon(k: NodeKind)
    ensures
        !kind_wire(k).contains(':'),
{
    if kind_wire(k).contains(':') {
        let i = choose|i: int| 0 <= i < kind_wire(k).len() && kind_wire(k)[i] == ':';
        assert(false);
    }
}

/// Each wire prefix names its own kind.
pub proof fn lemma_kind_from_wire(k: NodeKind)
    ensures
        kind_from_wire(kind_wire(k)) == Some(k),
{
    let w = kind_wire(k);
    if k != NodeKind::Intent {
        assert(w != kind_wire(NodeKind::Intent)) by {
            if w.len() == kind_wire(NodeKind::Intent).len() {
                assert(w[0] != kind_wire(NodeKind::Intent)[0] || w[1] != kind_wire(NodeKind::Intent)[1]);
            }
        }
    }
    if k != NodeKind::Claim {
        assert(w != kind_wire(NodeKind::Claim)) by {
            if w.len() == kind_wire(NodeKind::Claim).len() {
                assert(w[0] != kind_wire(NodeKind::Claim)[0]);
            }
        }
    }
    if k != NodeKind::Assumption {
        assert(w != kind_wire(NodeKind::Assumption)) by {
            if w.len() == kind_wire(NodeKind::Assumption).len() {
                assert(w[0] != kind_wire(NodeKind::Assumption)[0]);
            }
        }
    }
    if k != NodeKind::OpenQuestion {
        assert(w != kind_wire(NodeKind::OpenQuestion)) by {
            if w.len() == kind_wire(NodeKind::OpenQuestion).len() {
                assert(w[0] != kind_wire(NodeKind::OpenQuestion)[0]);
            }
        }
    }
    if k != NodeKind::Contract {
        assert(w != kind_wire(NodeKind::Contract)) by {
            if w.len() == kind_wire(NodeKind::Contract).len() {
                assert(w[0] != kind_wire(NodeKind::Contract)[0] || w[1] != kind_wire(NodeKind::Contract)[1]);
            }
        }
    }
    if k != NodeKind::Evidence {
        assert(w != kind_wire(NodeKind::Evidence)) by {
            if w.len() == kind_wire(NodeKind::Evidence).len() {
                assert(w[0] != kind_wire(NodeKind::Evidence)[0]);
            }
        }
    }
    if k != NodeKind::Review {
        assert(w != kind_wire(NodeKind::Review)) by {
            if w.len() == kind_wire(NodeKind::Review).len() {
                assert(w[0] != kind_wire(NodeKind::Review)[0]);
            }
        }
    }
    if k != NodeKind::Change {
        assert(w != kind_wire(NodeKind::Change)) by {
            if w.len() == kind_wire(NodeKind::Change).len() {
                assert(w[0] != kind_wire(NodeKind::Change)[0] || w[1] != kind_wire(NodeKind::Change)[1]);
            }
        }
    }
}

/// Law: reading back the wire form of a valid ID gives that ID.
pub proof fn law_stable_id_roundtrip(kind: NodeKind, namespace: Seq<char>, key: Seq<char>)
    requires
        valid_segment(namespace),
        valid_segment(key),
    ensures
        parse_wire(wire_of(kind, namespace, key)) == Ok::<StableIdView, StableIdErrorView>(
            StableIdView { kind, namespace, key },
        ),
{
    let w = wire_of(kind, namespace, key);
    let kw = kind_wire(kind);
    lemma_kind_wire_has_no_colon(kind);
    assert(w =~= kw + seq![':'] + (namespace + seq!['/'] + key));
    lemma_find_char_after(kw, ':', namespace + seq!['/'] + key);
    assert(w.take(kw.len() as int) =~= kw);
    lemma_kind_from_wire(kind);
    let subject = w.skip(kw.len() as int + 1);
    assert(subject =~= namespace + seq!['/'] + key);
    assert(!namespace.contains('/')) by {
        if namespace.contains('/') {
            let i = choose|i: int| 0 <= i < namespace.len() && namespace[i] == '/';
            assert(segment_char(namespace[i]));
        }
    }
    lemma_find_char_after(namespace, '/', key);
    assert(subject.take(namespace.len() as int) =~= namespace);
    assert(subject.skip(namespace.len() as int + 1) =~= key);
}

/// A wire prefix that names a kind is that kind's wire form.
proof fn lemma_kind_from_wire_inverse(t: Seq<char>)
    requires
        kind_from_wire(t) is Some,
    ensures
        kind_wire(kind_from_wire(t)->Some_0) == t,
{
}

/// Law: a wire value that reads as an ID is that ID's wire form; reading and
/// printing give back the same text.
pub proof fn law_parsed_id_prints_back(w: Seq<char>)
    requires
        parse_wire(w) is Ok,
    ensures
        wire_of(parse_wire(w)->Ok_0.kind, parse_wire(w)->Ok_0.namespace, parse_wire(w)->Ok_0.key)
            == w,
        valid_segment(parse_wire(w)->Ok_0.namespace),
        valid_segment(parse_wire(w)->Ok_0.key),
{
    lemma_find_char_found(w, ':');
    let i = find_char(w, ':')->Some_0;
    lemma_kind_from_wire_inverse(w.take(i));
    let subject = w.skip(i + 1);
    lemma_find_char_found(subject, '/');
    let j = find_char(subject, '/')->Some_0;
    let v = parse_wire(w)->Ok_0;
    assert(subject =~= subject.take(j) + seq!['/'] + subject.skip(j + 1));
    assert(w =~= w.take(i) + seq![':'] + subject);
    assert(wire_of(v.kind, v.namespace, v.key) =~= w);
}

/// Valid IDs with the same wire form are the same ID: the wire form
/// identifies the ID.
pub proof fn law_wire_form_identifies_id(a: StableIdView, b: StableIdView)
    requires
        valid_segment(a.namespace),
        valid_segment(a.key),
        valid_segment(b.namespace),
        valid_segment(b.key),
    ensures
        (wire_of(a.kind, a.namespace, a.key) == wire_of(b.kind, b.namespace, b.key)) == (a == b),
{
    law_stable_id_roundtrip(a.kind, a.namespace, a.key);
    law_stable_id_roundtrip(b.kind, b.namespace, b.key);
}

} // verus!

verus! {

/// The outcome of reading a wire value as an ID of kind `kind`.
pub open spec fn typed_parse_wire(kind: NodeKind, w: Seq<char>) -> Result<StableIdView, StableIdErrorView> {
    match parse_wire(w) {
        Ok(v) => if v.kind == kind {
            Ok(v)
        } else {
            Err(StableIdErrorView::UnexpectedKind(kind, v.kind, w))
        },
        Err(e) => Err(e),
    }
}

/// A typed ID result matches the expected outcome.
pub open spec fn typed_id_result<T: View<V = StableIdView>>(
    kind: NodeKind,
    expected: Result<StableIdView, StableIdErrorView>,
    r: Result<T, StableIdError>,
) -> bool {
    match r {
        Ok(id) => expected == Ok::<StableIdView, StableIdErrorView>(id@) && id@.kind == kind,
        Err(e) => expected == Err::<StableIdView, StableIdErrorView>(e@),
    }
}

/// The stable ID of an intent node.
#[derive(Debug, PartialEq, Eq, Hash)]
pub struct IntentId(StableId);

impl View for IntentId {
    type V = StableIdView;

    closed spec fn view(&self) -> StableIdView {
        self.0@
    }
}

impl Clone for IntentId {
    fn clone(&self) -> (r: Self)
        ensures
            r@ == self@,
    {
        proof { use_type_invariant(self); }
        IntentId(self.0.clone())
    }
}

impl IntentId {
    #[verifier::type_invariant]
    closed spec fn inv(self) -> bool {
        self.0@.kind == NodeKind::Intent
    }

    /// Builds the ID `intent:namespace/key`, rejecting invalid segments.
    pub fn new(namespace: &str, key: &str) -> (r: Result<Self, StableIdError>)
        ensures
            typed_id_result(NodeKind::Intent, stable_id_result(NodeKind::Intent, namespace@, key@), r),
    {
        match StableId::new(NodeKind::Intent, namespace, key) {
            Ok(id) => Ok(IntentId(id)),
            Err(e) => Err(e),
        }
    }

    /// The wire form `intent:namespace/key`.
    pub fn as_str(&self) -> (s: &str)
        ensures
            s@ == wire_of(self@.kind, self@.namespace, self@.key),
            self@.kind == NodeKind::Intent,
            valid_segment(self@.namespace),
            valid_segment(self@.key),
    {
        proof { use_type_invariant(self); }
        self.0.as_str()
    }

    /// Reads a wire value, which must name a intent node.
    pub fn parse(wire: &str) -> (r: Result<Self, StableIdError>)
        ensures
            typed_id_result(NodeKind::Intent, typed_parse_wire(NodeKind::Intent, wire@), r),
    {
        let stable_id = StableId::parse(wire)?;
        if stable_id.kind() != NodeKind::Intent {
            return Err(StableIdError::UnexpectedKind {
                expected: NodeKind::Intent,
                actual: stable_id.kind(),
                value: owned(wire),
            });
        }
        Ok(IntentId(stable_id))
    }

    /// The node kind, always `Intent`.
    pub fn kind(&self) -> (k: NodeKind)
        ensures
            k == self@.kind,
            k == NodeKind::Intent,
    {
        proof { use_type_invariant(self); }
        self.0.kind()
    }

    /// The namespace segment.
    pub fn namespace(&self) -> (s: &str)
        ensures
            s@ == self@.namespace,
    {
        self.0.namespace()
    }

    /// The key segment.
    pub fn key(&self) -> (s: &str)
        ensures
            s@ == self@.key,
    {
        self.0.key()
    }

    /// The untyped ID.
    pub fn stable_id(&self) -> (id: &StableId)
        ensures
            id@ == self@,
    {
        &self.0
    }

    /// Whether two IDs are the same.
    pub fn same_as(&self, other: &IntentId) -> (r: bool)
        ensures
            r == (self@ == other@),
    {
        self.0.same_as(&other.0)
    }
}

/// The stable ID of a claim node.
#[derive(Debug, PartialEq, Eq, Hash)]
pub struct ClaimId(StableId);

impl View for ClaimId {
    type V = StableIdView;

    closed spec fn view(&self) -> StableIdView {
        self.0@
    }
}

impl Clone for ClaimId {
    fn clone(&self) -> (r: Self)
        ensures
            r@ == self@,
    {
        proof { use_type_invariant(self); }
        ClaimId(self.0.clone())
    }
}

impl ClaimId {
    #[verifier::type_invariant]
    closed spec fn inv(self) -> bool {
        self.0@.kind == NodeKind::Claim
    }

    /// Builds the ID `claim:namespace/key`, rejecting invalid segments.
    pub fn new(namespace: &str, key: &str) -> (r: Result<Self, StableIdError>)
        ensures
            typed_id_result(NodeKind::Claim, stable_id_result(NodeKind::Claim, namespace@, key@), r),
    {
        match StableId::new(NodeKind::Claim, namespace, key) {
            Ok(id) => Ok(ClaimId(id)),
            Err(e) => Err(e),
        }
    }

    /// The wire form `claim:namespace/key`.
    pub fn as_str(&self) -> (s: &str)
        ensures
            s@ == wire_of(self@.kind, self@.namespace, self@.key),
            self@.kind == NodeKind::Claim,
            valid_segment(self@.namespace),
            valid_segment(self@.key),
    {
        proof { use_type_invariant(self); }
        self.0.as_str()
    }

    /// Reads a wire value, which must name a claim node.
    pub fn parse(wire: &str) -> (r: Result<Self, StableIdError>)
        ensures
            typed_id_result(NodeKind::Claim, typed_parse_wire(NodeKind::Claim, wire@), r),
    {
        let stable_id = StableId::parse(wire)?;
        if stable_id.kind() != NodeKind::Claim {
            return Err(StableIdError::UnexpectedKind {
                expected: NodeKind::Claim,
                actual: stable_id.kind(),
                value: owned(wire),
            });
        }
        Ok(ClaimId(stable_id))
    }

    /// The node kind, always `Claim`.
    pub fn kind(&self) -> (k: NodeKind)
        ensures
            k == self@.kind,
            k == NodeKind::Claim,
    {
        proof { use_type_invariant(self); }
        self.0.kind()
    }

    /// The namespace segment.
    pub fn namespace(&self) -> (s: &str)
        ensures
            s@ == self@.namespace,
    {
        self.0.namespace()
    }

    /// The key segment.
    pub fn key(&self) -> (s: &str)
        ensures
            s@ == self@.key,
    {
        self.0.key()
    }

    /// The untyped ID.
    pub fn stable_id(&self) -> (id: &StableId)
        ensures
            id@ == self@,
    {
        &self.0
    }

    /// Whether two IDs are the same.
    pub fn same_as(&self, other: &ClaimId) -> (r: bool)
        ensures
            r == (self@ == other@),
    {
        self.0.same_as(&other.0)
    }
}

/// The stable ID of an assumption node.
#[derive(Debug, PartialEq, Eq, Hash)]
pub struct AssumptionId(StableId);

impl View for AssumptionId {
    type V = StableIdView;

    closed spec fn view(&self) -> StableIdView {
        self.0@
    }
}

impl Clone for AssumptionId {
    fn clone(&self) -> (r: Self)
        ensures
            r@ == self@,
    {
        proof { use_type_invariant(self); }
        AssumptionId(self.0.clone())
    }
}

impl AssumptionId {
    #[verifier::type_invariant]
    closed spec fn inv(self) -> bool {
        self.0@.kind == NodeKind::Assumption
    }

    /// Builds the ID `assumption:namespace/key`, rejecting invalid segments.
    pub fn new(namespace: &str, key: &str) -> (r: Result<Self, StableIdError>)
        ensures
            typed_id_result(NodeKind::Assumption, stable_id_result(NodeKind::Assumption, namespace@, key@), r),
    {
        match StableId::new(NodeKind::Assumption, namespace, key) {
            Ok(id) => Ok(AssumptionId(id)),
            Err(e) => Err(e),
        }
    }

    /// The wire form `assumption:namespace/key`.
    pub fn as_str(&self) -> (s: &str)
        ensures
            s@ == wire_of(self@.kind, self@.namespace, self@.key),
            self@.kind == NodeKind::Assumption,
            valid_segment(self@.namespace),
            valid_segment(self@.key),
    {
        proof { use_type_invariant(self); }
        self.0.as_str()
    }

    /// Reads a wire value, which must name a assumption node.
    pub fn parse(wire: &str) -> (r: Result<Self, StableIdError>)
        ensures
            typed_id_result(NodeKind::Assumption, typed_parse_wire(NodeKind::Assumption, wire@), r),
    {
        let stable_id = StableId::parse(wire)?;
        if stable_id.kind() != NodeKind::Assumption {
            return Err(StableIdError::UnexpectedKind {
                expected: NodeKind::Assumption,
                actual: stable_id.kind(),
                value: owned(wire),
            });
        }
        Ok(AssumptionId(stable_id))
    }

    /// The node kind, always `Assumption`.
    pub fn kind(&self) -> (k: NodeKind)
        ensures
            k == self@.kind,
            k == NodeKind::Assumption,
    {
        proof { use_type_invariant(self); }
        self.0.kind()
    }

    /// The namespace segment.
    pub fn namespace(&self) -> (s: &str)
        ensures
            s@ == self@.namespace,
    {
        self.0.namespace()
    }

    /// The key segment.
    pub fn key(&self) -> (s: &str)
        ensures
            s@ == self@.key,
    {
        self.0.key()
    }

    /// The untyped ID.
    pub fn stable_id(&self) -> (id: &StableId)
        ensures
            id@ == self@,
    {
        &self.0
    }

    /// Whether two IDs are the same.
    pub fn same_as(&self, other: &AssumptionId) -> (r: bool)
        ensures
            r == (self@ == other@),
    {
        self.0.same_as(&other.0)
    }
}

/// The stable ID of an open question node.
#[derive(Debug, PartialEq, Eq, Hash)]
pub struct OpenQuestionId(StableId);

impl View for OpenQuestionId {
    type V = StableIdView;

    closed spec fn view(&self) -> StableIdView {
        self.0@
    }
}

impl Clone for OpenQuestionId {
    fn clone(&self) -> (r: Self)
        ensures
            r@ == self@,
    {
        proof { use_type_invariant(self); }
        OpenQuestionId(self.0.clone())
    }
}

impl OpenQuestionId {
    #[verifier::type_invariant]
    closed spec fn inv(self) -> bool {
        self.0@.kind == NodeKind::OpenQuestion
    }

    /// Builds the ID `open-question:namespace/key`, rejecting invalid segments.
    pub fn new(namespace: &str, key: &str) -> (r: Result<Self, StableIdError>)
        ensures
            typed_id_result(NodeKind::OpenQuestion, stable_id_result(NodeKind::OpenQuestion, namespace@, key@), r),
    {
        match StableId::new(NodeKind::OpenQuestion, namespace, key) {
            Ok(id) => Ok(OpenQuestionId(id)),
            Err(e) => Err(e),
        }
    }

    /// The wire form `open-question:namespace/key`.
    pub fn as_str(&self) -> (s: &str)
        ensures
            s@ == wire_of(self@.kind, self@.namespace, self@.key),
            self@.kind == NodeKind::OpenQuestion,
            valid_segment(self@.namespace),
            valid_segment(self@.key),
    {
        proof { use_type_invariant(self); }
        self.0.as_str()
    }

    /// Reads a wire value, which must name a open-question node.
    pub fn parse(wire: &str) -> (r: Result<Self, StableIdError>)
        ensures
            typed_id_result(NodeKind::OpenQuestion, typed_parse_wire(NodeKind::OpenQuestion, wire@), r),
    {
        let stable_id = StableId::parse(wire)?;
        if stable_id.kind() != NodeKind::OpenQuestion {
            return Err(StableIdError::UnexpectedKind {
                expected: NodeKind::OpenQuestion,
                actual: stable_id.kind(),
                value: owned(wire),
            });
        }
        Ok(OpenQuestionId(stable_id))
    }

    /// The node kind, always `OpenQuestion`.
    pub fn kind(&self) -> (k: NodeKind)
        ensures
            k == self@.kind,
            k == NodeKind::OpenQuestion,
    {
        proof { use_type_invariant(self); }
        self.0.kind()
    }

    /// The namespace segment.
    pub fn namespace(&self) -> (s: &str)
        ensures
            s@ == self@.namespace,
    {
        self.0.namespace()
    }

    /// The key segment.
    pub fn key(&self) -> (s: &str)
        ensures
            s@ == self@.key,
    {
        self.0.key()
    }

    /// The untyped ID.
    pub fn stable_id(&self) -> (id: &StableId)
        ensures
            id@ == self@,
    {
        &self.0
    }

    /// Whether two IDs are the same.
    pub fn same_as(&self, other: &OpenQuestionId) -> (r: bool)
        ensures
            r == (self@ == other@),
    {
        self.0.same_as(&other.0)
    }
}

/// The stable ID of a contract node.
#[derive(Debug, PartialEq, Eq, Hash)]
pub struct ContractId(StableId);

impl View for ContractId {
    type V = StableIdView;

    closed spec fn view(&self) -> StableIdView {
        self.0@
    }
}

impl Clone for ContractId {
    fn clone(&self) -> (r: Self)
        ensures
            r@ == self@,
    {
        proof { use_type_invariant(self); }
        ContractId(self.0.clone())
    }
}

impl ContractId {
    #[verifier::type_invariant]
    closed spec fn inv(self) -> bool {
        self.0@.kind == NodeKind::Contract
    }

    /// Builds the ID `contract:namespace/key`, rejecting invalid segments.
    pub fn new(namespace: &str, key: &str) -> (r: Result<Self, StableIdError>)
        ensures
            typed_id_result(NodeKind::Contract, stable_id_result(NodeKind::Contract, namespace@, key@), r),
    {
        match StableId::new(NodeKind::Contract, namespace, key) {
            Ok(id) => Ok(ContractId(id)),
            Err(e) => Err(e),
        }
    }

    /// The wire form `contract:namespace/key`.
    pub fn as_str(&self) -> (s: &str)
        ensures
            s@ == wire_of(self@.kind, self@.namespace, self@.key),
            self@.kind == NodeKind::Contract,
            valid_segment(self@.namespace),
            valid_segment(self@.key),
    {
        proof { use_type_invariant(self); }
        self.0.as_str()
    }

    /// Reads a wire value, which must name a contract node.
    pub fn parse(wire: &str) -> (r: Result<Self, StableIdError>)
        ensures
            typed_id_result(NodeKind::Contract, typed_parse_wire(NodeKind::Contract, wire@), r),
    {
        let stable_id = StableId::parse(wire)?;
        if stable_id.kind() != NodeKind::Contract {
            return Err(StableIdError::UnexpectedKind {
                expected: NodeKind::Contract,
                actual: stable_id.kind(),
                value: owned(wire),
            });
        }
        Ok(ContractId(stable_id))
    }

    /// The node kind, always `Contract`.
    pub fn kind(&self) -> (k: NodeKind)
        ensures
            k == self@.kind,
            k == NodeKind::Contract,
    {
        proof { use_type_invariant(self); }
        self.0.kind()
    }

    /// The namespace segment.
    pub fn namespace(&self) -> (s: &str)
        ensures
            s@ == self@.namespace,
    {
        self.0.namespace()
    }

    /// The key segment.
    pub fn key(&self) -> (s: &str)
        ensures
            s@ == self@.key,
    {
        self.0.key()
    }

    /// The untyped ID.
    pub fn stable_id(&self) -> (id: &StableId)
        ensures
            id@ == self@,
    {
        &self.0
    }

    /// Whether two IDs are the same.
    pub fn same_as(&self, other: &ContractId) -> (r: bool)
        ensures
            r == (self@ == other@),
    {
        self.0.same_as(&other.0)
    }
}

/// The stable ID of an evidence node.
#[derive(Debug, PartialEq, Eq, Hash)]
pub struct EvidenceId(StableId);

impl View for EvidenceId {
    type V = StableIdView;

    closed spec fn view(&self) -> StableIdView {
        self.0@
    }
}

impl Clone for EvidenceId {
    fn clone(&self) -> (r: Self)
        ensures
            r@ == self@,
    {
        proof { use_type_invariant(self); }
        EvidenceId(self.0.clone())
    }
}

impl EvidenceId {
    #[verifier::type_invariant]
    closed spec fn inv(self) -> bool {
        self.0@.kind == NodeKind::Evidence
    }

    /// Builds the ID `evidence:namespace/key`, rejecting invalid segments.
    pub fn new(namespace: &str, key: &str) -> (r: Result<Self, StableIdError>)
        ensures
            typed_id_result(NodeKind::Evidence, stable_id_result(NodeKind::Evidence, namespace@, key@), r),
    {
        match StableId::new(NodeKind::Evidence, namespace, key) {
            Ok(id) => Ok(EvidenceId(id)),
            Err(e) => Err(e),
        }
    }

    /// The wire form `evidence:namespace/key`.
    pub fn as_str(&self) -> (s: &str)
        ensures
            s@ == wire_of(self@.kind, self@.namespace, self@.key),
            self@.kind == NodeKind::Evidence,
            valid_segment(self@.namespace),
            valid_segment(self@.key),
    {
        proof { use_type_invariant(self); }
        self.0.as_str()
    }

    /// Reads a wire value, which must name a evidence node.
    pub fn parse(wire: &str) -> (r: Result<Self, StableIdError>)
        ensures
            typed_id_result(NodeKind::Evidence, typed_parse_wire(NodeKind::Evidence, wire@), r),
    {
        let stable_id = StableId::parse(wire)?;
        if stable_id.kind() != NodeKind::Evidence {
            return Err(StableIdError::UnexpectedKind {
                expected: NodeKind::Evidence,
                actual: stable_id.kind(),
                value: owned(wire),
            });
        }
        Ok(EvidenceId(stable_id))
    }

    /// The node kind, always `Evidence`.
    pub fn kind(&self) -> (k: NodeKind)
        ensures
            k == self@.kind,
            k == NodeKind::Evidence,
    {
        proof { use_type_invariant(self); }
        self.0.kind()
    }

    /// The namespace segment.
    pub fn namespace(&self) -> (s: &str)
        ensures
            s@ == self@.namespace,
    {
        self.0.namespace()
    }

    /// The key segment.
    pub fn key(&self) -> (s: &str)
        ensures
            s@ == self@.key,
    {
        self.0.key()
    }

    /// The untyped ID.
    pub fn stable_id(&self) -> (id: &StableId)
        ensures
            id@ == self@,
    {
        &self.0
    }

    /// Whether two IDs are the same.
    pub fn same_as(&self, other: &EvidenceId) -> (r: bool)
        ensures
            r == (self@ == other@),
    {
        self.0.same_as(&other.0)
    }
}

/// The stable ID of a review node.
#[derive(Debug, PartialEq, Eq, Hash)]
pub struct ReviewId(StableId);

impl View for ReviewId {
    type V = StableIdView;

    closed spec fn view(&self) -> StableIdView {
        self.0@
    }
}

impl Clone for ReviewId {
    fn clone(&self) -> (r: Self)
        ensures
            r@ == self@,
    {
        proof { use_type_invariant(self); }
        ReviewId(self.0.clone())
    }
}

impl ReviewId {
    #[verifier::type_invariant]
    closed spec fn inv(self) -> bool {
        self.0@.kind == NodeKind::Review
    }

    /// Builds the ID `review:namespace/key`, rejecting invalid segments.
    pub fn new(namespace: &str, key: &str) -> (r: Result<Self, StableIdError>)
        ensures
            typed_id_result(NodeKind::Review, stable_id_result(NodeKind::Review, namespace@, key@), r),
    {
        match StableId::new(NodeKind::Review, namespace, key) {
            Ok(id) => Ok(ReviewId(id)),
            Err(e) => Err(e),
        }
    }

    /// The wire form `review:namespace/key`.
    pub fn as_str(&self) -> (s: &str)
        ensures
            s@ == wire_of(self@.kind, self@.namespace, self@.key),
            self@.kind == NodeKind::Review,
            valid_segment(self@.namespace),
            valid_segment(self@.key),
    {
        proof { use_type_invariant(self); }
        self.0.as_str()
    }

    /// Reads a wire value, which must name a review node.
    pub fn parse(wire: &str) -> (r: Result<Self, StableIdError>)
        ensures
            typed_id_result(NodeKind::Review, typed_parse_wire(NodeKind::Review, wire@), r),
    {
        let stable_id = StableId::parse(wire)?;
        if stable_id.kind() != NodeKind::Review {
            return Err(StableIdError::UnexpectedKind {
                expected: NodeKind::Review,
                actual: stable_id.kind(),
                value: owned(wire),
            });
        }
        Ok(ReviewId(stable_id))
    }

    /// The node kind, always `Review`.
    pub fn kind(&self) -> (k: NodeKind)
        ensures
            k == self@.kind,
            k == NodeKind::Review,
    {
        proof { use_type_invariant(self); }
        self.0.kind()
    }

    /// The namespace segment.
    pub fn namespace(&self) -> (s: &str)
        ensures
            s@ == self@.namespace,
    {
        self.0.namespace()
    }

    /// The key segment.
    pub fn key(&self) -> (s: &str)
        ensures
            s@ == self@.key,
    {
        self.0.key()
    }

    /// The untyped ID.
    pub fn stable_id(&self) -> (id: &StableId)
        ensures
            id@ == self@,
    {
        &self.0
    }

    /// Whether two IDs are the same.
    pub fn same_as(&self, other: &ReviewId) -> (r: bool)
        ensures
            r == (self@ == other@),
    {
        self.0.same_as(&other.0)
    }
}

/// The stable ID of a change node.
#[derive(Debug, PartialEq, Eq, Hash)]
pub struct ChangeId(StableId);

impl View for ChangeId {
    type V = StableIdView;

    closed spec fn view(&self) -> StableIdView {
        self.0@
    }
}

impl Clone for ChangeId {
    fn clone(&self) -> (r: Self)
        ensures
            r@ == self@,
    {
        proof { use_type_invariant(self); }
        ChangeId(self.0.clone())
    }
}

impl ChangeId {
    #[verifier::type_invariant]
    closed spec fn inv(self) -> bool {
        self.0@.kind == NodeKind::Change
    }

    /// Builds the ID `change:namespace/key`, rejecting invalid segments.
    pub fn new(namespace: &str, key: &str) -> (r: Result<Self, StableIdError>)
        ensures
            typed_id_result(NodeKind::Change, stable_id_result(NodeKind::Change, namespace@, key@), r),
    {
        match StableId::new(NodeKind::Change, namespace, key) {
            Ok(id) => Ok(ChangeId(id)),
            Err(e) => Err(e),
        }
    }

    /// The wire form `change:namespace/key`.
    pub fn as_str(&self) -> (s: &str)
        ensures
            s@ == wire_of(self@.kind, self@.namespace, self@.key),
            self@.kind == NodeKind::Change,
            valid_segment(self@.namespace),
            valid_segment(self@.key),
    {
        proof { use_type_invariant(self); }
        self.0.as_str()
    }

    /// Reads a wire value, which must name a change node.
    pub fn parse(wire: &str) -> (r: Result<Self, StableIdError>)
        ensures
            typed_id_result(NodeKind::Change, typed_parse_wire(NodeKind::Change, wire@), r),
    {
        let stable_id = StableId::parse(wire)?;
        if stable_id.kind() != NodeKind::Change {
            return Err(StableIdError::UnexpectedKind {
                expected: NodeKind::Change,
                actual: stable_id.kind(),
                value: owned(wire),
            });
        }
        Ok(ChangeId(stable_id))
    }

    /// The node kind, always `Change`.
    pub fn kind(&self) -> (k: NodeKind)
        ensures
            k == self@.kind,
            k == NodeKind::Change,
    {
        proof { use_type_invariant(self); }
        self.0.kind()
    }

    /// The namespace segment.
    pub fn namespace(&self) -> (s: &str)
        ensures
            s@ == self@.namespace,
    {
        self.0.namespace()
    }

    /// The key segment.
    pub fn key(&self) -> (s: &str)
        ensures
            s@ == self@.key,
    {
        self.0.key()
    }

    /// The untyped ID.
    pub fn stable_id(&self) -> (id: &StableId)
        ensures
            id@ == self@,
    {
        &self.0
    }

    /// Whether two IDs are the same.
    pub fn same_as(&self, other: &ChangeId) -> (r: bool)
        ensures
            r == (self@ == other@),
    {
        self.0.same_as(&other.0)
    }
}

} // verus!

verus! {

/// Text that is empty once surrounding white space is trimmed.
pub open spec fn is_blank(s: Seq<char>) -> bool {
    forall|i: int| 0 <= i < s.len() ==> is_white_space(#[trigger] s[i])
}

/// Whether `text` is empty once trimmed.
pub fn text_is_blank(text: &str) -> (r: bool)
    ensures
        r == is_blank(text@),
{
    let chars = chars_of(text);
    let mut i: usize = 0;
    while i < chars.len()
        invariant
            i <= chars@.len(),
            chars@ == text@,
            forall|k: int| 0 <= k < i ==> is_white_space(#[trigger] chars@[k]),
        decreases chars.len() - i,
    {
        if !char_is_white_space(chars[i]) {
            return false;
        }
        i = i + 1;
    }
    true
}

/// The text of an intent graph node was blank.
#[derive(Debug, Clone, PartialEq, Eq)]
pub enum NodeTextError {
    EmptyText,
}

/// Why a wire identity and source text could not become a node.
#[derive(Debug, Clone, PartialEq, Eq)]
pub enum IntentNodeError {
    /// The wire value is not a valid stable ID.
    StableId(StableIdError),
    /// The kind exists only in the graph, not as an AST node.
    UnsupportedKind { kind: NodeKind },
    /// The node text is blank.
    NodeText(NodeTextError),
}

/// Intent node: its ID, text and source span.
#[derive(Debug, Clone, PartialEq, Eq)]
pub struct Intent {
    id: IntentId,
    text: String,
    source_span: Span,
}

impl Intent {
    /// The node's ID.
    pub closed spec fn spec_id(&self) -> StableIdView {
        self.id@
    }

    /// The node's text.
    pub closed spec fn spec_text(&self) -> Seq<char> {
        self.text@
    }

    /// The node's source span.
    pub closed spec fn spec_span(&self) -> Span {
        self.source_span
    }

    /// Builds the node, rejecting blank text.
    pub fn new(id: IntentId, text: &str, source_span: Span) -> (r: Result<Self, NodeTextError>)
        ensures
            r is Err <==> is_blank(text@),
            r matches Ok(n) ==> n.spec_id() == id@ && n.spec_text() == text@ && n.spec_span()
                == source_span,
    {
        if text_is_blank(text) {
            return Err(NodeTextError::EmptyText);
        }
        Ok(Intent { id, text: owned(text), source_span })
    }

    /// The node's ID.
    pub fn id(&self) -> (r: &IntentId)
        ensures
            r@ == self.spec_id(),
    {
        &self.id
    }

    /// The node's text.
    pub fn text(&self) -> (r: &str)
        ensures
            r@ == self.spec_text(),
    {
        self.text.as_str()
    }

    /// The node's source span.
    pub fn source_span(&self) -> (r: Span)
        ensures
            r == self.spec_span(),
    {
        self.source_span
    }

    /// The node kind, always `Intent`.
    pub fn kind(&self) -> (k: NodeKind)
        ensures
            k == NodeKind::Intent,
    {
        NodeKind::Intent
    }
}

/// Claim node: its ID, text and source span.
#[derive(Debug, Clone, PartialEq, Eq)]
pub struct Claim {
    id: ClaimId,
    text: String,
    source_span: Span,
}

impl Claim {
    /// The node's ID.
    pub closed spec fn spec_id(&self) -> StableIdView {
        self.id@
    }

    /// The node's text.
    pub closed spec fn spec_text(&self) -> Seq<char> {
        self.text@
    }

    /// The node's source span.
    pub closed spec fn spec_span(&self) -> Span {
        self.source_span
    }

    /// Builds the node, rejecting blank text.
    pub fn new(id: ClaimId, text: &str, source_span: Span) -> (r: Result<Self, NodeTextError>)
        ensures
            r is Err <==> is_blank(text@),
            r matches Ok(n) ==> n.spec_id() == id@ && n.spec_text() == text@ && n.spec_span()
                == source_span,
    {
        if text_is_blank(text) {
            return Err(NodeTextError::EmptyText);
        }
        Ok(Claim { id, text: owned(text), source_span })
    }

    /// The node's ID.
    pub fn id(&self) -> (r: &ClaimId)
        ensures
            r@ == self.spec_id(),
    {
        &self.id
    }

    /// The node's text.
    pub fn text(&self) -> (r: &str)
        ensures
            r@ == self.spec_text(),
    {
        self.text.as_str()
    }

    /// The node's source span.
    pub fn source_span(&self) -> (r: Span)
        ensures
            r == self.spec_span(),
    {
        self.source_span
    }

    /// The node kind, always `Claim`.
    pub fn kind(&self) -> (k: NodeKind)
        ensures
            k == NodeKind::Claim,
    {
        NodeKind::Claim
    }
}

/// Assumption node: its ID, text and source span.
#[derive(Debug, Clone, PartialEq, Eq)]
pub struct Assumption {
    id: AssumptionId,
    text: String,
    source_span: Span,
}

impl Assumption {
    /// The node's ID.
    pub closed spec fn spec_id(&self) -> StableIdView {
        self.id@
    }

    /// The node's text.
    pub closed spec fn spec_text(&self) -> Seq<char> {
        self.text@
    }

    /// The node's source span.
    pub closed spec fn spec_span(&self) -> Span {
        self.source_span
    }

    /// Builds the node, rejecting blank text.
    pub fn new(id: AssumptionId, text: &str, source_span: Span) -> (r: Result<Self, NodeTextError>)
        ensures
            r is Err <==> is_blank(text@),
            r matches Ok(n) ==> n.spec_id() == id@ && n.spec_text() == text@ && n.spec_span()
                == source_span,
    {
        if text_is_blank(text) {
            return Err(NodeTextError::EmptyText);
        }
        Ok(Assumption { id, text: owned(text), source_span })
    }

    /// The node's ID.
    pub fn id(&self) -> (r: &AssumptionId)
        ensures
            r@ == self.spec_id(),
    {
        &self.id
    }

    /// The node's text.
    pub fn text(&self) -> (r: &str)
        ensures
            r@ == self.spec_text(),
    {
        self.text.as_str()
    }

    /// The node's source span.
    pub fn source_span(&self) -> (r: Span)
        ensures
            r == self.spec_span(),
    {
        self.source_span
    }

    /// The node kind, always `Assumption`.
    pub fn kind(&self) -> (k: NodeKind)
        ensures
            k == NodeKind::Assumption,
    {
        NodeKind::Assumption
    }
}

/// OpenQuestion node: its ID, text and source span.
#[derive(Debug, Clone, PartialEq, Eq)]
pub struct OpenQuestion {
    id: OpenQuestionId,
    text: String,
    source_span: Span,
}

impl OpenQuestion {
    /// The node's ID.
    pub closed spec fn spec_id(&self) -> StableIdView {
        self.id@
    }

    /// The node's text.
    pub closed spec fn spec_text(&self) -> Seq<char> {
        self.text@
    }

    /// The node's source span.
    pub closed spec fn spec_span(&self) -> Span {
        self.source_span
    }

    /// Builds the node, rejecting blank text.
    pub fn new(id: OpenQuestionId, text: &str, source_span: Span) -> (r: Result<Self, NodeTextError>)
        ensures
            r is Err <==> is_blank(text@),
            r matches Ok(n) ==> n.spec_id() == id@ && n.spec_text() == text@ && n.spec_span()
                == source_span,
    {
        if text_is_blank(text) {
            return Err(NodeTextError::EmptyText);
        }
        Ok(OpenQuestion { id, text: owned(text), source_span })
    }

    /// The node's ID.
    pub fn id(&self) -> (r: &OpenQuestionId)
        ensures
            r@ == self.spec_id(),
    {
        &self.id
    }

    /// The node's text.
    pub fn text(&self) -> (r: &str)
        ensures
            r@ == self.spec_text(),
    {
        self.text.as_str()
    }

    /// The node's source span.
    pub fn source_span(&self) -> (r: Span)
        ensures
            r == self.spec_span(),
    {
        self.source_span
    }

    /// The node kind, always `OpenQuestion`.
    pub fn kind(&self) -> (k: NodeKind)
        ensures
            k == NodeKind::OpenQuestion,
    {
        NodeKind::OpenQuestion
    }
}

/// A node of the minimal intent AST.
#[derive(Debug, Clone, PartialEq, Eq)]
pub enum IntentNode {
    Intent(Intent),
    Claim(Claim),
    Assumption(Assumption),
    OpenQuestion(OpenQuestion),
}

/// The content of an intent AST node.
pub struct IntentNodeView {
    pub id: StableIdView,
    pub text: Seq<char>,
    pub span: Span,
}

impl View for IntentNode {
    type V = IntentNodeView;

    open spec fn view(&self) -> IntentNodeView {
        match self {
            IntentNode::Intent(n) => IntentNodeView { id: n.spec_id(), text: n.spec_text(), span: n.spec_span() },
            IntentNode::Claim(n) => IntentNodeView { id: n.spec_id(), text: n.spec_text(), span: n.spec_span() },
            IntentNode::Assumption(n) => IntentNodeView { id: n.spec_id(), text: n.spec_text(), span: n.spec_span() },
            IntentNode::OpenQuestion(n) => IntentNodeView { id: n.spec_id(), text: n.spec_text(), span: n.spec_span() },
        }
    }
}

/// Whether the kind has an AST node form.
pub open spec fn is_ast_kind(kind: NodeKind) -> bool {
    kind == NodeKind::Intent || kind == NodeKind::Claim || kind == NodeKind::Assumption || kind
        == NodeKind::OpenQuestion
}

/// The outcome of building a node from wire parts: `Ok` with the node's
/// content, or the error.
pub open spec fn node_from_wire(wire: Seq<char>, text: Seq<char>, span: Span) -> Result<IntentNodeView, IntentNodeErrorView> {
    match parse_wire(wire) {
        Err(e) => Err(IntentNodeErrorView::StableId(e)),
        Ok(id) => if !is_ast_kind(id.kind) {
            Err(IntentNodeErrorView::UnsupportedKind(id.kind))
        } else if is_blank(text) {
            Err(IntentNodeErrorView::EmptyText)
        } else {
            Ok(IntentNodeView { id, text, span })
        },
    }
}

/// The content of an [`IntentNodeError`].
pub enum IntentNodeErrorView {
    StableId(StableIdErrorView),
    UnsupportedKind(NodeKind),
    EmptyText,
}

impl View for IntentNodeError {
    type V = IntentNodeErrorView;

    open spec fn view(&self) -> IntentNodeErrorView {
        match self {
            IntentNodeError::StableId(e) => IntentNodeErrorView::StableId(e@),
            IntentNodeError::UnsupportedKind { kind } => IntentNodeErrorView::UnsupportedKind(*kind),
            IntentNodeError::NodeText(_) => IntentNodeErrorView::EmptyText,
        }
    }
}

impl IntentNode {
    /// Builds a typed node from a `kind:namespace/key` wire value, its text and span.
    ///
    /// Graph-only kinds (contract, evidence, review, change) are refused
    /// rather than converted implicitly.
    pub fn from_wire_parts(wire: &str, text: &str, source_span: Span) -> (r: Result<Self, IntentNodeError>)
        ensures
            match r {
                Ok(n) => node_from_wire(wire@, text@, source_span) == Ok::<IntentNodeView, IntentNodeErrorView>(n@),
                Err(e) => node_from_wire(wire@, text@, source_span) == Err::<IntentNodeView, IntentNodeErrorView>(e@),
            },
    {
        let stable_id = match StableId::parse(wire) {
            Ok(id) => id,
            Err(e) => {
                return Err(IntentNodeError::StableId(e));
            },
        };
        match stable_id.kind() {
            NodeKind::Intent => {
                let id = match IntentId::parse(wire) {
                    Ok(id) => id,
                    Err(e) => {
                        return Err(IntentNodeError::StableId(e));
                    },
                };
                match Intent::new(id, text, source_span) {
                    Ok(n) => Ok(IntentNode::Intent(n)),
                    Err(e) => Err(IntentNodeError::NodeText(e)),
                }
            },
            NodeKind::Claim => {
                let id = match ClaimId::parse(wire) {
                    Ok(id) => id,
                    Err(e) => {
                        return Err(IntentNodeError::StableId(e));
                    },
                };
                match Claim::new(id, text, source_span) {
                    Ok(n) => Ok(IntentNode::Claim(n)),
                    Err(e) => Err(IntentNodeError::NodeText(e)),
                }
            },
            NodeKind::Assumption => {
                let id = match AssumptionId::parse(wire) {
                    Ok(id) => id,
                    Err(e) => {
                        return Err(IntentNodeError::StableId(e));
                    },
                };
                match Assumption::new(id, text, source_span) {
                    Ok(n) => Ok(IntentNode::Assumption(n)),
                    Err(e) => Err(IntentNodeError::NodeText(e)),
                }
            },
            NodeKind::OpenQuestion => {
                let id = match OpenQuestionId::parse(wire) {
                    Ok(id) => id,
                    Err(e) => {
                        return Err(IntentNodeError::StableId(e));
                    },
                };
                match OpenQuestion::new(id, text, source_span) {
                    Ok(n) => Ok(IntentNode::OpenQuestion(n)),
                    Err(e) => Err(IntentNodeError::NodeText(e)),
                }
            },
            kind => Err(IntentNodeError::UnsupportedKind { kind }),
        }
    }

    /// The node kind.
    pub fn kind(&self) -> (k: NodeKind)
        ensures
            k == self@.id.kind,
    {
        match self {
            IntentNode::Intent(node) => {
                proof { use_type_invariant(&node.id); }
                node.kind()
            },
            IntentNode::Claim(node) => {
                proof { use_type_invariant(&node.id); }
                node.kind()
            },
            IntentNode::Assumption(node) => {
                proof { use_type_invariant(&node.id); }
                node.kind()
            },
            IntentNode::OpenQuestion(node) => {
                proof { use_type_invariant(&node.id); }
                node.kind()
            },
        }
    }

    /// The node's stable ID.
    pub fn stable_id(&self) -> (r: &StableId)
        ensures
            r@ == self@.id,
    {
        match self {
            IntentNode::Intent(node) => node.id().stable_id(),
            IntentNode::Claim(node) => node.id().stable_id(),
            IntentNode::Assumption(node) => node.id().stable_id(),
            IntentNode::OpenQuestion(node) => node.id().stable_id(),
        }
    }

    /// The node's source span.
    pub fn source_span(&self) -> (r: Span)
        ensures
            r == self@.span,
    {
        match self {
            IntentNode::Intent(node) => node.source_span(),
            IntentNode::Claim(node) => node.source_span(),
            IntentNode::Assumption(node) => node.source_span(),
            IntentNode::OpenQuestion(node) => node.source_span(),
        }
    }

    /// The node's text.
    pub fn text(&self) -> (r: &str)
        ensures
            r@ == self@.text,
    {
        match self {
            IntentNode::Intent(node) => node.text(),
            IntentNode::Claim(node) => node.text(),
            IntentNode::Assumption(node) => node.text(),
            IntentNode::OpenQuestion(node) => node.text(),
        }
    }
}


/// A node's identity does not depend on where its source text stands: the
/// same wire value and text at another span give the same node ID, or the
/// same error.
pub proof fn law_node_identity_ignores_span(wire: Seq<char>, text: Seq<char>, a: Span, b: Span)
    ensures
        match (node_from_wire(wire, text, a), node_from_wire(wire, text, b)) {
            (Ok(x), Ok(y)) => x.id == y.id && x.text == y.text,
            (Err(x), Err(y)) => x == y,
            _ => false,
        },
{
}

/// A node read from a wire value carries the ID that the wire value reads
/// as, and that ID's wire form is the wire value itself.
pub proof fn law_node_id_prints_back(wire: Seq<char>, text: Seq<char>, span: Span)
    requires
        node_from_wire(wire, text, span) is Ok,
    ensures
        node_from_wire(wire, text, span)->Ok_0.id == parse_wire(wire)->Ok_0,
        wire_of(
            node_from_wire(wire, text, span)->Ok_0.id.kind,
            node_from_wire(wire, text, span)->Ok_0.id.namespace,
            node_from_wire(wire, text, span)->Ok_0.id.key,
        ) == wire,
{
    law_parsed_id_prints_back(wire);
}

} // verus!
