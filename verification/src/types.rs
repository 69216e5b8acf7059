//! The type-level data that constrained types are described with: types,
//! constraint definitions, and the registry of constrained types.

use vstd::prelude::*;
use crate::text::{chars_eq, chars_of, owned};

verus! {

/// A type of the language, as far as constraint resolution reads it.
#[derive(Debug)]
pub enum Type {
    /// A named type constructor such as `Int` or a user type name.
    Con(String),
    /// A type variable.
    Var(u64),
    /// A function type: parameter types and result type.
    Fun(Vec<Type>, Box<Type>),
    /// An applied type constructor.
    App(String, Vec<Type>),
    /// A record type with its named fields.
    Record(String, Vec<(String, Type)>),
}

impl Type {
    /// The built-in integer type.
    pub fn int_ty() -> (t: Type)
        ensures
            con_name(t) == Some("Int"@),
    {
        Type::Con(owned("Int"))
    }

    /// The built-in boolean type.
    pub fn bool_ty() -> (t: Type)
        ensures
            con_name(t) == Some("Bool"@),
    {
        Type::Con(owned("Bool"))
    }
}

/// The kind of a type constructor: `*` or `k1 -> k2`.
#[derive(Debug)]
pub enum Kind {
    Star,
    Arrow(Box<Kind>, Box<Kind>),
}

impl Kind {
    /// The kind `*` of a proper type.
    pub fn star() -> (k: Kind)
        ensures
            k == Kind::Star,
    {
        Kind::Star
    }

    /// The kind `* -> *` of a unary type constructor.
    pub fn unary() -> (k: Kind)
        ensures
            k == Kind::Arrow(Box::new(Kind::Star), Box::new(Kind::Star)),
    {
        Kind::Arrow(Box::new(Kind::Star), Box::new(Kind::Star))
    }
}

/// The name of a type when it is a plain type constructor.
pub open spec fn con_name(t: Type) -> Option<Seq<char>> {
    match t {
        Type::Con(name) => Some(name@),
        _ => None,
    }
}

/// One constraint of a constrained type.
#[derive(Debug)]
pub enum ConstraintDef {
    /// `value >= n`
    Gte(i64),
    /// `value <= n`
    Lte(i64),
    /// `lo <= value <= hi`
    Range(i64, i64),
    /// the value is one of the listed integers
    OneOf(Vec<i64>),
    /// the string is at least this many bytes long
    MinLength(usize),
    /// the string is at most this many bytes long
    MaxLength(usize),
    /// the string matches the pattern
    Matches(String),
    /// a user predicate, only checkable at run time
    Satisfies(String),
}

/// The mathematical content of a [`ConstraintDef`].
pub enum ConstraintView {
    Gte(i64),
    Lte(i64),
    Range(i64, i64),
    OneOf(Seq<i64>),
    MinLength(usize),
    MaxLength(usize),
    Matches(Seq<char>),
    Satisfies(Seq<char>),
}

impl View for ConstraintDef {
    type V = ConstraintView;

    open spec fn view(&self) -> ConstraintView {
        match self {
            ConstraintDef::Gte(n) => ConstraintView::Gte(*n),
            ConstraintDef::Lte(n) => ConstraintView::Lte(*n),
            ConstraintDef::Range(lo, hi) => ConstraintView::Range(*lo, *hi),
            ConstraintDef::OneOf(v) => ConstraintView::OneOf(v@),
            ConstraintDef::MinLength(n) => ConstraintView::MinLength(*n),
            ConstraintDef::MaxLength(n) => ConstraintView::MaxLength(*n),
            ConstraintDef::Matches(p) => ConstraintView::Matches(p@),
            ConstraintDef::Satisfies(f) => ConstraintView::Satisfies(f@),
        }
    }
}

/// The views of a sequence of constraints.
pub open spec fn constraint_views(s: Seq<ConstraintDef>) -> Seq<ConstraintView> {
    s.map_values(|c: ConstraintDef| c@)
}

/// A copy of a constraint with the same content.
pub fn copy_constraint(c: &ConstraintDef) -> (r: ConstraintDef)
    ensures
        r@ == c@,
{
    match c {
        ConstraintDef::Gte(n) => ConstraintDef::Gte(*n),
        ConstraintDef::Lte(n) => ConstraintDef::Lte(*n),
        ConstraintDef::Range(lo, hi) => ConstraintDef::Range(*lo, *hi),
        ConstraintDef::OneOf(v) => {
            let mut w: Vec<i64> = Vec::new();
            let mut i: usize = 0;
            while i < v.len()
                invariant
                    i <= v.len(),
                    w@ == v@.subrange(0, i as int),
                decreases v.len() - i,
            {
                w.push(v[i]);
                i = i + 1;
            }
            assert(v@.subrange(0, v.len() as int) == v@);
            ConstraintDef::OneOf(w)
        },
        ConstraintDef::MinLength(n) => ConstraintDef::MinLength(*n),
        ConstraintDef::MaxLength(n) => ConstraintDef::MaxLength(*n),
        ConstraintDef::Matches(p) => ConstraintDef::Matches(owned(p.as_str())),
        ConstraintDef::Satisfies(f) => ConstraintDef::Satisfies(owned(f.as_str())),
    }
}

/// Appends copies of all constraints of `src` to `dst`.
pub fn extend_constraints(dst: &mut Vec<ConstraintDef>, src: &Vec<ConstraintDef>)
    ensures
        constraint_views(final(dst)@) == constraint_views(old(dst)@) + constraint_views(src@),
{
    let ghost start = constraint_views(dst@);
    let mut i: usize = 0;
    while i < src.len()
        invariant
            i <= src.len(),
            constraint_views(dst@) == start + constraint_views(src@.subrange(0, i as int)),
        decreases src.len() - i,
    {
        let c = copy_constraint(&src[i]);
        let ghost before = dst@;
        dst.push(c);
        assert(constraint_views(dst@) == constraint_views(before).push(c@));
        assert(constraint_views(src@.subrange(0, i + 1)) == constraint_views(
            src@.subrange(0, i as int),
        ).push(src@[i as int]@));
        i = i + 1;
    }
    assert(src@.subrange(0, src.len() as int) == src@);
}

/// Two constraints with equal content.
pub fn constraint_eq(a: &ConstraintDef, b: &ConstraintDef) -> (r: bool)
    ensures
        r == (a@ == b@),
{
    match (a, b) {
        (ConstraintDef::Gte(x), ConstraintDef::Gte(y)) => *x == *y,
        (ConstraintDef::Lte(x), ConstraintDef::Lte(y)) => *x == *y,
        (ConstraintDef::Range(a1, a2), ConstraintDef::Range(b1, b2)) => *a1 == *b1 && *a2 == *b2,
        (ConstraintDef::OneOf(x), ConstraintDef::OneOf(y)) => {
            if x.len() != y.len() {
                return false;
            }
            let mut i: usize = 0;
            while i < x.len()
                invariant
                    x.len() == y.len(),
                    i <= x.len(),
                    a@ == ConstraintView::OneOf(x@),
                    b@ == ConstraintView::OneOf(y@),
                    forall|j: int| 0 <= j < i ==> x@[j] == y@[j],
                decreases x.len() - i,
            {
                if x[i] != y[i] {
                    assert(x@[i as int] != y@[i as int]);
                    return false;
                }
                i = i + 1;
            }
            assert(x@ =~= y@);
            true
        },
        (ConstraintDef::MinLength(x), ConstraintDef::MinLength(y)) => *x == *y,
        (ConstraintDef::MaxLength(x), ConstraintDef::MaxLength(y)) => *x == *y,
        (ConstraintDef::Matches(x), ConstraintDef::Matches(y)) => {
            chars_eq(&chars_of(x.as_str()), &chars_of(y.as_str()))
        },
        (ConstraintDef::Satisfies(x), ConstraintDef::Satisfies(y)) => {
            chars_eq(&chars_of(x.as_str()), &chars_of(y.as_str()))
        },
        _ => false,
    }
}

/// A constrained type: a base type narrowed by constraints.
#[derive(Debug)]
pub struct ConstrainedTypeInfo {
    pub name: String,
    pub base_type: Type,
    pub constraints: Vec<ConstraintDef>,
}

/// The registry of constrained types, keyed by type name.
///
/// It behaves as a map from names to [`ConstrainedTypeInfo`]: inserting a
/// name that is already present replaces its entry.
pub struct ConstrainedTypes {
    entries: Vec<(String, ConstrainedTypeInfo)>,
}

/// The names of a list of registry entries.
pub open spec fn entry_names(entries: Seq<(String, ConstrainedTypeInfo)>) -> Seq<Seq<char>> {
    entries.map_values(|e: (String, ConstrainedTypeInfo)| e.0@)
}

/// The entry stored under `name` among `entries`: the first one with that name.
pub open spec fn entry_lookup(
    entries: Seq<(String, ConstrainedTypeInfo)>,
    name: Seq<char>,
) -> Option<ConstrainedTypeInfo>
    decreases entries.len(),
{
    if entries.len() == 0 {
        None
    } else if entries[0].0@ == name {
        Some(entries[0].1)
    } else {
        entry_lookup(entries.drop_first(), name)
    }
}

impl ConstrainedTypes {
    /// The registry's entries, in insertion order.
    pub closed spec fn entries(&self) -> Seq<(String, ConstrainedTypeInfo)> {
        self.entries@
    }

    /// The set of registered names.
    pub open spec fn names(&self) -> Set<Seq<char>> {
        entry_names(self.entries()).to_set()
    }

    /// The information registered under `name`, if any.
    pub open spec fn spec_get(&self, name: Seq<char>) -> Option<ConstrainedTypeInfo> {
        entry_lookup(self.entries(), name)
    }

    /// Names occur at most once.
    pub open spec fn wf(&self) -> bool {
        entry_names(self.entries()).no_duplicates()
    }

    /// An empty registry.
    pub fn new() -> (r: Self)
        ensures
            r.wf(),
            r.names() == Set::<Seq<char>>::empty(),
            forall|n: Seq<char>| r.spec_get(n) is None,
    {
        let r = ConstrainedTypes { entries: Vec::new() };
        assert(entry_names(r.entries@) =~= Seq::<Seq<char>>::empty());
        assert(r.names() =~= Set::<Seq<char>>::empty());
        r
    }

    /// The number of registered names.
    pub fn len(&self) -> (n: usize)
        requires
            self.wf(),
        ensures
            n == self.names().len(),
    {
        proof {
            entry_names(self.entries@).unique_seq_to_set();
        }
        self.entries.len()
    }

    /// Registers `info` under `name`, replacing and returning any earlier entry.
    pub fn insert(&mut self, name: String, info: ConstrainedTypeInfo) -> (prev: Option<ConstrainedTypeInfo>)
        requires
            old(self).wf(),
        ensures
            final(self).wf(),
            prev == old(self).spec_get(name@),
            final(self).names() == old(self).names().insert(name@),
            final(self).spec_get(name@) == Some(info),
            forall|n: Seq<char>| n != name@ ==> final(self).spec_get(n) == old(self).spec_get(n),
    {
        let ghost old_entries = self.entries@;
        match self.find(name.as_str()) {
            Some(i) => {
                proof { lemma_lookup_at(old_entries, i as int); }
                let mut entry = (name, info);
                let ghost e = entry;
                std::mem::swap(&mut entry, &mut self.entries[i]);
                proof {
                    lemma_names_update(old_entries, i as int, e);
                    lemma_lookup_update(old_entries, i as int, e);
                    assert(entry_names(self.entries@) =~= entry_names(old_entries));
                }
                Some(entry.1)
            },
            None => {
                let ghost e = (name, info);
                self.entries.push((name, info));
                proof {
                    lemma_lookup_absent(old_entries, e.0@);
                    lemma_lookup_push(old_entries, e);
                    assert(entry_names(self.entries@) =~= entry_names(old_entries).push(e.0@));
                    entry_names(old_entries).lemma_push_to_set_commute(e.0@);
                    assert(entry_names(self.entries@).no_duplicates());
                }
                None
            },
        }
    }

    /// The information registered under `name`, if any.
    pub fn get(&self, name: &str) -> (r: Option<&ConstrainedTypeInfo>)
        requires
            self.wf(),
        ensures
            r matches Some(info) ==> self.spec_get(name@) == Some(*info),
            r is None ==> self.spec_get(name@) is None,
            r is Some <==> self.names().contains(name@),
    {
        match self.find(name) {
            Some(i) => {
                proof { lemma_lookup_at(self.entries@, i as int); }
                Some(&self.entries[i].1)
            },
            None => {
                proof { lemma_lookup_absent(self.entries@, name@); }
                None
            },
        }
    }

    fn find(&self, name: &str) -> (r: Option<usize>)
        ensures
            r matches Some(i) ==> i < self.entries@.len() && self.entries@[i as int].0@ == name@,
            r is None ==> !entry_names(self.entries@).contains(name@),
    {
        let target = chars_of(name);
        let mut i: usize = 0;
        while i < self.entries.len()
            invariant
                i <= self.entries@.len(),
                target@ == name@,
                forall|j: int| 0 <= j < i ==> self.entries@[j].0@ != name@,
            decreases self.entries.len() - i,
        {
            if chars_eq(&chars_of(self.entries[i].0.as_str()), &target) {
                return Some(i);
            }
            i = i + 1;
        }
        proof {
            if entry_names(self.entries@).contains(name@) {
                let k = choose|k: int| 0 <= k < entry_names(self.entries@).len()
                    && entry_names(self.entries@)[k] == name@;
                assert(self.entries@[k].0@ == name@);
            }
        }
        None
    }
}

proof fn lemma_lookup_at(entries: Seq<(String, ConstrainedTypeInfo)>, i: int)
    requires
        0 <= i < entries.len(),
        entry_names(entries).no_duplicates(),
    ensures
        entry_lookup(entries, entries[i].0@) == Some(entries[i].1),
        entry_names(entries).contains(entries[i].0@),
    decreases entries.len(),
{
    assert(entry_names(entries)[i] == entries[i].0@);
    if i > 0 {
        assert(entry_names(entries)[0] != entry_names(entries)[i]);
        assert(entry_names(entries.drop_first()) =~= entry_names(entries).drop_first());
        lemma_lookup_at(entries.drop_first(), i - 1);
    }
}

proof fn lemma_lookup_absent(entries: Seq<(String, ConstrainedTypeInfo)>, name: Seq<char>)
    requires
        !entry_names(entries).contains(name),
    ensures
        entry_lookup(entries, name) is None,
    decreases entries.len(),
{
    if entries.len() > 0 {
        assert(entry_names(entries)[0] == entries[0].0@);
        assert(entry_names(entries.drop_first()) =~= entry_names(entries).drop_first());
        if entry_names(entries.drop_first()).contains(name) {
            let k = choose|k: int| 0 <= k < entry_names(entries.drop_first()).len()
                && entry_names(entries.drop_first())[k] == name;
            assert(entry_names(entries)[k + 1] == name);
        }
        lemma_lookup_absent(entries.drop_first(), name);
    }
}

proof fn lemma_lookup_push(
    entries: Seq<(String, ConstrainedTypeInfo)>,
    e: (String, ConstrainedTypeInfo),
)
    requires
        !entry_names(entries).contains(e.0@),
    ensures
        forall|n: Seq<char>| #[trigger] entry_lookup(entries.push(e), n) == (if n == e.0@ {
            Some(e.1)
        } else {
            entry_lookup(entries, n)
        }),
    decreases entries.len(),
{
    if entries.len() == 0 {
        assert(entries.push(e).drop_first() =~= Seq::<(String, ConstrainedTypeInfo)>::empty());
        assert(entries.push(e)[0] == e);
        assert forall|n: Seq<char>| #[trigger] entry_lookup(entries.push(e), n) == (if n == e.0@ {
            Some(e.1)
        } else {
            entry_lookup(entries, n)
        }) by {
            assert(entry_lookup(entries.push(e).drop_first(), n) is None);
        }
    } else {
        assert(entries.push(e).drop_first() =~= entries.drop_first().push(e));
        assert(entries.push(e)[0] == entries[0]);
        assert(entry_names(entries)[0] == entries[0].0@);
        assert(entry_names(entries.drop_first()) =~= entry_names(entries).drop_first());
        if entry_names(entries.drop_first()).contains(e.0@) {
            let k = choose|k: int| 0 <= k < entry_names(entries.drop_first()).len()
                && entry_names(entries.drop_first())[k] == e.0@;
            assert(entry_names(entries)[k + 1] == e.0@);
        }
        lemma_lookup_push(entries.drop_first(), e);
        assert forall|n: Seq<char>| #[trigger] entry_lookup(entries.push(e), n) == (if n == e.0@ {
            Some(e.1)
        } else {
            entry_lookup(entries, n)
        }) by {
            assert(entry_lookup(entries.drop_first().push(e), n) == (if n == e.0@ {
                Some(e.1)
            } else {
                entry_lookup(entries.drop_first(), n)
            }));
        }
    }
}

proof fn lemma_names_update(
    entries: Seq<(String, ConstrainedTypeInfo)>,
    i: int,
    e: (String, ConstrainedTypeInfo),
)
    requires
        0 <= i < entries.len(),
        e.0@ == entries[i].0@,
    ensures
        entry_names(entries.update(i, e)) =~= entry_names(entries),
{
}

proof fn lemma_lookup_update(
    entries: Seq<(String, ConstrainedTypeInfo)>,
    i: int,
    e: (String, ConstrainedTypeInfo),
)
    requires
        0 <= i < entries.len(),
        e.0@ == entries[i].0@,
        entry_names(entries).no_duplicates(),
    ensures
        forall|n: Seq<char>| #[trigger] entry_lookup(entries.update(i, e), n) == (if n == e.0@ {
            Some(e.1)
        } else {
            entry_lookup(entries, n)
        }),
    decreases entries.len(),
{
    assert(entry_names(entries)[i] == entries[i].0@);
    if i == 0 {
        assert(entries.update(i, e).drop_first() =~= entries.drop_first());
        assert(entries.update(i, e)[0] == e);
        assert(entry_names(entries.drop_first()) =~= entry_names(entries).drop_first());
        assert(!entry_names(entries.drop_first()).contains(e.0@)) by {
            if entry_names(entries.drop_first()).contains(e.0@) {
                let k = choose|k: int| 0 <= k < entry_names(entries.drop_first()).len()
                    && entry_names(entries.drop_first())[k] == e.0@;
                assert(entry_names(entries)[k + 1] == e.0@);
            }
        }
        lemma_lookup_absent(entries.drop_first(), e.0@);
    } else {
        assert(entries.update(i, e).drop_first() =~= entries.drop_first().update(i - 1, e));
        assert(entries.update(i, e)[0] == entries[0]);
        assert(entry_names(entries)[0] == entries[0].0@);
        assert(entry_names(entries)[0] != entry_names(entries)[i]);
        assert(entry_names(entries.drop_first()) =~= entry_names(entries).drop_first());
        lemma_lookup_update(entries.drop_first(), i - 1, e);
        assert forall|n: Seq<char>| #[trigger] entry_lookup(entries.update(i, e), n) == (if n == e.0@ {
            Some(e.1)
        } else {
            entry_lookup(entries, n)
        }) by {
            assert(entry_lookup(entries.drop_first().update(i - 1, e), n) == (if n == e.0@ {
                Some(e.1)
            } else {
                entry_lookup(entries.drop_first(), n)
            }));
        }
    }
}

} // verus!
