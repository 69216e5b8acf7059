//! Stable sorting by a textual key, in code-point order.

use vstd::prelude::*;
use crate::text::{chars_of, lemma_lex_total, lemma_lex_transitive, lex_less, lex_lt};

verus! {

/// A value ordered by a textual key.
pub trait TextKey {
    /// The key.
    spec fn key_view(&self) -> Seq<char>;

    /// The key, as text.
    fn key_str(&self) -> (s: &str)
        ensures
            s@ == self.key_view(),
    ;
}

impl TextKey for String {
    open spec fn key_view(&self) -> Seq<char> {
        self@
    }

    fn key_str(&self) -> (s: &str) {
        self.as_str()
    }
}

/// Whether the item with key `a` from position `ia` goes before the item
/// with key `b` from position `ib`: by key, then by original position.
pub open spec fn goes_before(a: Seq<char>, ia: int, b: Seq<char>, ib: int) -> bool {
    lex_lt(a, b) || (a == b && ia < ib)
}

/// `r` is `s` rearranged by `p` (`r[i]` is `s[p[i]]`), ordered by key, with
/// items of equal keys in their original order.
pub open spec fn sorts_by_key<T: TextKey>(r: Seq<T>, s: Seq<T>, p: Seq<int>) -> bool {
    &&& r.len() == s.len()
    &&& p.len() == s.len()
    &&& forall|i: int| 0 <= i < p.len() ==> 0 <= #[trigger] p[i] < s.len() && r[i] == s[p[i]]
    &&& forall|i: int, j: int| 0 <= i < j < p.len() ==> #[trigger] p[i] != #[trigger] p[j]
    &&& forall|i: int, j: int|
        0 <= i < j < p.len() ==> goes_before(
            #[trigger] r[i].key_view(),
            p[i],
            #[trigger] r[j].key_view(),
            p[j],
        )
}

/// `r` is the stable sort of `s` by key.
pub open spec fn is_stable_sort_of<T: TextKey>(r: Seq<T>, s: Seq<T>) -> bool {
    exists|p: Seq<int>| sorts_by_key(r, s, p)
}

/// Keys ordered `a <= b`.
pub open spec fn key_le(a: Seq<char>, b: Seq<char>) -> bool {
    lex_lt(a, b) || a == b
}

proof fn lemma_key_le_trans(a: Seq<char>, b: Seq<char>, c: Seq<char>)
    requires
        key_le(a, b),
        key_le(b, c),
    ensures
        key_le(a, c),
{
    if lex_lt(a, b) && lex_lt(b, c) {
        lemma_lex_transitive(a, b, c);
    }
}

/// The stable sort of `v` by key.
pub fn stable_sort_by_key<T: TextKey>(v: Vec<T>) -> (r: Vec<T>)
    ensures
        is_stable_sort_of(r@, v@),
{
    let ghost s = v@;
    let mut input = v;
    let mut out: Vec<T> = Vec::new();
    let ghost mut p: Seq<int> = Seq::empty();
    assert(s.take(s.len() as int) =~= s);
    while input.len() > 0
        invariant
            input@ == s.take(input.len() as int),
            input.len() <= s.len(),
            out.len() + input.len() == s.len(),
            p.len() == out.len(),
            forall|i: int|
                0 <= i < p.len() ==> input.len() <= #[trigger] p[i] < s.len() && out@[i] == s[p[i]],
            forall|i: int, j: int| 0 <= i < j < p.len() ==> #[trigger] p[i] != #[trigger] p[j],
            forall|i: int, j: int|
                0 <= i < j < p.len() ==> goes_before(
                    #[trigger] out@[i].key_view(),
                    p[i],
                    #[trigger] out@[j].key_view(),
                    p[j],
                ),
        decreases input.len(),
    {
        let x = input.pop().unwrap();
        let k = input.len();
        assert(x == s[k as int]);
        assert(input@ =~= s.take(k as int));
        let kx = chars_of(x.key_str());
        let mut pos: usize = 0;
        while pos < out.len() && lex_less(&chars_of(out[pos].key_str()), &kx)
            invariant
                pos <= out.len(),
                kx@ == x.key_view(),
                forall|i: int| 0 <= i < pos ==> lex_lt(#[trigger] out@[i].key_view(), x.key_view()),
            decreases out.len() - pos,
        {
            pos = pos + 1;
        }
        proof {
            // Every item from `pos` on has a key at least `x`'s.
            if pos < out.len() {
                assert(!lex_lt(out@[pos as int].key_view(), x.key_view()));
                lemma_lex_total(out@[pos as int].key_view(), x.key_view());
                assert(key_le(x.key_view(), out@[pos as int].key_view()));
                assert forall|j: int| pos <= j < out.len() implies key_le(
                    x.key_view(),
                    #[trigger] out@[j].key_view(),
                ) by {
                    if j > pos {
                        assert(goes_before(
                            out@[pos as int].key_view(),
                            p[pos as int],
                            out@[j].key_view(),
                            p[j],
                        ));
                        lemma_key_le_trans(
                            x.key_view(),
                            out@[pos as int].key_view(),
                            out@[j].key_view(),
                        );
                    }
                }
            }
        }
        let ghost old_out = out@;
        let ghost old_p = p;
        out.insert(pos, x);
        proof {
            p = old_p.insert(pos as int, k as int);
            assert forall|i: int| 0 <= i < p.len() implies k <= #[trigger] p[i] < s.len()
                && out@[i] == s[p[i]] by {
                if i < pos {
                    assert(p[i] == old_p[i]);
                } else if i > pos {
                    assert(p[i] == old_p[i - 1]);
                }
            }
            assert forall|i: int, j: int| 0 <= i < j < p.len() implies #[trigger] p[i]
                != #[trigger] p[j] by {
                if i < pos && j > pos {
                    assert(p[j] == old_p[j - 1]);
                } else if i > pos {
                    assert(p[i] == old_p[i - 1]);
                    assert(p[j] == old_p[j - 1]);
                } else if j < pos {
                } else if i == pos {
                    assert(p[j] == old_p[j - 1]);
                } else {
                    assert(p[i] == old_p[i]);
                }
            }
            assert forall|i: int, j: int| 0 <= i < j < p.len() implies goes_before(
                #[trigger] out@[i].key_view(),
                p[i],
                #[trigger] out@[j].key_view(),
                p[j],
            ) by {
                if j < pos {
                    assert(out@[i] == old_out[i] && out@[j] == old_out[j]);
                } else if j == pos {
                    assert(out@[i] == old_out[i]);
                    assert(lex_lt(old_out[i].key_view(), x.key_view()));
                } else if i > pos {
                    assert(out@[i] == old_out[i - 1] && out@[j] == old_out[j - 1]);
                    assert(p[i] == old_p[i - 1] && p[j] == old_p[j - 1]);
                } else if i == pos {
                    assert(out@[j] == old_out[j - 1]);
                    assert(key_le(x.key_view(), old_out[j - 1].key_view()));
                    assert(p[j] == old_p[j - 1]);
                } else {
                    assert(out@[i] == old_out[i] && out@[j] == old_out[j - 1]);
                    assert(p[i] == old_p[i] && p[j] == old_p[j - 1]);
                }
            }
        }
    }
    assert(sorts_by_key(out@, s, p));
    out
}

} // verus!
