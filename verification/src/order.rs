//! Lexicographic order on sequences, and the facts that make it a strict
//! total order whenever the order on the elements is one.

use vstd::prelude::*;

verus! {

/// `lt` never relates an element to itself.
pub open spec fn irreflexive<T>(lt: spec_fn(T, T) -> bool) -> bool {
    forall|x: T| !#[trigger] lt(x, x)
}

/// `lt` is transitive.
pub open spec fn transitive<T>(lt: spec_fn(T, T) -> bool) -> bool {
    forall|x: T, y: T, z: T| #[trigger] lt(x, y) && #[trigger] lt(y, z) ==> lt(x, z)
}

/// Any two distinct elements are related by `lt` one way or the other.
pub open spec fn connected<T>(lt: spec_fn(T, T) -> bool) -> bool {
    forall|x: T, y: T| x != y ==> #[trigger] lt(x, y) || lt(y, x)
}

/// `lt` is a strict total order.
pub open spec fn strict_total<T>(lt: spec_fn(T, T) -> bool) -> bool {
    irreflexive(lt) && transitive(lt) && connected(lt)
}

/// Lexicographic order: the first position at which the two sequences differ
/// decides, and a proper prefix comes before every sequence it starts.
pub open spec fn lex_lt<T>(a: Seq<T>, b: Seq<T>, lt: spec_fn(T, T) -> bool) -> bool
    decreases a.len(),
{
    if b.len() == 0 {
        false
    } else if a.len() == 0 {
        true
    } else if lt(a[0], b[0]) {
        true
    } else if a[0] == b[0] {
        lex_lt(a.drop_first(), b.drop_first(), lt)
    } else {
        false
    }
}

/// No sequence comes before itself.
pub proof fn lemma_lex_irreflexive<T>(a: Seq<T>, lt: spec_fn(T, T) -> bool)
    requires
        irreflexive(lt),
    ensures
        !lex_lt(a, a, lt),
    decreases a.len(),
{
    if a.len() > 0 {
        assert(!lt(a[0], a[0]));
        lemma_lex_irreflexive(a.drop_first(), lt);
    }
}

/// The lexicographic order is transitive.
pub proof fn lemma_lex_transitive<T>(a: Seq<T>, b: Seq<T>, c: Seq<T>, lt: spec_fn(T, T) -> bool)
    requires
        irreflexive(lt),
        transitive(lt),
        lex_lt(a, b, lt),
        lex_lt(b, c, lt),
    ensures
        lex_lt(a, c, lt),
    decreases a.len(),
{
    if a.len() > 0 {
        if lt(a[0], b[0]) {
            if lt(b[0], c[0]) {
                assert(lt(a[0], c[0]));
            }
        } else if lt(b[0], c[0]) {
        } else {
            lemma_lex_transitive(a.drop_first(), b.drop_first(), c.drop_first(), lt);
            assert(!lt(a[0], a[0]));
        }
    }
}

/// Two distinct sequences are ordered one way or the other.
pub proof fn lemma_lex_connected<T>(a: Seq<T>, b: Seq<T>, lt: spec_fn(T, T) -> bool)
    requires
        connected(lt),
        a != b,
    ensures
        lex_lt(a, b, lt) || lex_lt(b, a, lt),
    decreases a.len(),
{
    if a.len() > 0 && b.len() > 0 {
        if a[0] == b[0] {
            if a.drop_first() == b.drop_first() {
                assert(a =~= seq![a[0]] + a.drop_first());
                assert(b =~= seq![b[0]] + b.drop_first());
            }
            lemma_lex_connected(a.drop_first(), b.drop_first(), lt);
        } else {
            assert(lt(a[0], b[0]) || lt(b[0], a[0]));
        }
    } else if a.len() == 0 && b.len() == 0 {
        assert(a =~= b);
    }
}

/// Two sequences are never ordered both ways.
pub proof fn lemma_lex_asymmetric<T>(a: Seq<T>, b: Seq<T>, lt: spec_fn(T, T) -> bool)
    requires
        irreflexive(lt),
        transitive(lt),
    ensures
        !(lex_lt(a, b, lt) && lex_lt(b, a, lt)),
{
    if lex_lt(a, b, lt) && lex_lt(b, a, lt) {
        lemma_lex_transitive(a, b, a, lt);
        lemma_lex_irreflexive(a, lt);
    }
}

/// Comparing from position `i` on decides the whole comparison once the two
/// sequences agree before `i`.
pub proof fn lemma_lex_skip_common<T>(a: Seq<T>, b: Seq<T>, i: int, lt: spec_fn(T, T) -> bool)
    requires
        irreflexive(lt),
        0 <= i <= a.len(),
        i <= b.len(),
        a.take(i) == b.take(i),
    ensures
        lex_lt(a, b, lt) == lex_lt(a.skip(i), b.skip(i), lt),
    decreases i,
{
    if i == 0 {
        assert(a.skip(0) =~= a);
        assert(b.skip(0) =~= b);
    } else {
        assert(a.take(i)[0] == a[0]);
        assert(b.take(i)[0] == b[0]);
        assert(!lt(a[0], a[0]));
        let a1 = a.drop_first();
        let b1 = b.drop_first();
        let ta = a1.take(i - 1);
        let tb = b1.take(i - 1);
        assert(ta =~= tb) by {
            assert(ta.len() == i - 1 && tb.len() == i - 1);
            assert forall|k: int| 0 <= k < ta.len() implies ta[k] == tb[k] by {
                assert(ta[k] == a.take(i)[k + 1]);
                assert(tb[k] == b.take(i)[k + 1]);
            }
        }
        lemma_lex_skip_common(a1, b1, i - 1, lt);
        assert(a1.skip(i - 1) =~= a.skip(i));
        assert(b1.skip(i - 1) =~= b.skip(i));
    }
}

} // verus!
