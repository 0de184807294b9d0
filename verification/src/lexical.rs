//! Sequences in dictionary order.

use vstd::prelude::*;

verus! {

/// `before` relates any two values one way or the other.
pub open spec fn is_total<T>(before: spec_fn(T, T) -> bool) -> bool {
    forall|x: T, y: T| #[trigger] before(x, y) || #[trigger] before(y, x)
}

/// Two values that `before` relates both ways are the same.
pub open spec fn is_antisymmetric<T>(before: spec_fn(T, T) -> bool) -> bool {
    forall|x: T, y: T| #[trigger] before(x, y) && #[trigger] before(y, x) ==> x == y
}

/// `before` carries over a value in between.
pub open spec fn is_transitive<T>(before: spec_fn(T, T) -> bool) -> bool {
    forall|x: T, y: T, z: T| #[trigger] before(x, y) && #[trigger] before(y, z) ==> before(x, z)
}

/// `before` puts the values of `T` in a row.
pub open spec fn is_linear<T>(before: spec_fn(T, T) -> bool) -> bool {
    is_total(before) && is_antisymmetric(before) && is_transitive(before)
}

/// `a` comes no later than `b` in the dictionary: at the first place where
/// they differ `a` has the earlier element, or `a` ends where `b` goes on.
pub open spec fn lex_le<T>(before: spec_fn(T, T) -> bool, a: Seq<T>, b: Seq<T>) -> bool
    decreases a.len(),
{
    if a.len() == 0 {
        true
    } else if b.len() == 0 {
        false
    } else if a[0] == b[0] {
        lex_le(before, a.drop_first(), b.drop_first())
    } else {
        before(a[0], b[0])
    }
}

/// Dictionary order relates any two sequences one way or the other.
pub proof fn lemma_lex_total<T>(before: spec_fn(T, T) -> bool, a: Seq<T>, b: Seq<T>)
    requires
        is_total(before),
    ensures
        lex_le(before, a, b) || lex_le(before, b, a),
    decreases a.len(),
{
    if a.len() > 0 && b.len() > 0 {
        if a[0] == b[0] {
            lemma_lex_total(before, a.drop_first(), b.drop_first());
        } else {
            assert(before(a[0], b[0]) || before(b[0], a[0]));
        }
    }
}

/// Two sequences that dictionary order relates both ways are the same.
pub proof fn lemma_lex_antisymmetric<T>(before: spec_fn(T, T) -> bool, a: Seq<T>, b: Seq<T>)
    requires
        is_antisymmetric(before),
        lex_le(before, a, b),
        lex_le(before, b, a),
    ensures
        a == b,
    decreases a.len(),
{
    if a.len() == 0 {
        assert(a =~= b);
    } else {
        if a[0] == b[0] {
            lemma_lex_antisymmetric(before, a.drop_first(), b.drop_first());
            assert(a =~= seq![a[0]] + a.drop_first());
            assert(b =~= seq![b[0]] + b.drop_first());
        } else {
            assert(before(a[0], b[0]) && before(b[0], a[0]));
        }
    }
}

/// Dictionary order carries over a sequence in between.
pub proof fn lemma_lex_transitive<T>(
    before: spec_fn(T, T) -> bool,
    a: Seq<T>,
    b: Seq<T>,
    c: Seq<T>,
)
    requires
        is_antisymmetric(before),
        is_transitive(before),
        lex_le(before, a, b),
        lex_le(before, b, c),
    ensures
        lex_le(before, a, c),
    decreases a.len(),
{
    if a.len() > 0 {
        if a[0] == b[0] {
            if b[0] == c[0] {
                lemma_lex_transitive(before, a.drop_first(), b.drop_first(), c.drop_first());
            }
        } else {
            assert(before(a[0], b[0]));
            if b[0] != c[0] {
                assert(before(b[0], c[0]));
                assert(before(a[0], c[0]));
                if a[0] == c[0] {
                    assert(before(b[0], a[0]));
                }
            }
        }
    }
}

/// Dictionary order puts the sequences in a row where `before` does so
/// with their elements.
pub proof fn lemma_lex_linear<T>(before: spec_fn(T, T) -> bool)
    requires
        is_linear(before),
    ensures
        is_linear(|a: Seq<T>, b: Seq<T>| lex_le(before, a, b)),
{
    let lifted = |a: Seq<T>, b: Seq<T>| lex_le(before, a, b);
    assert forall|a: Seq<T>, b: Seq<T>| #[trigger] lifted(a, b) || #[trigger] lifted(b, a) by {
        lemma_lex_total(before, a, b);
    }
    assert forall|a: Seq<T>, b: Seq<T>| #[trigger] lifted(a, b) && #[trigger] lifted(b, a) implies a
        == b by {
        lemma_lex_antisymmetric(before, a, b);
    }
    assert forall|a: Seq<T>, b: Seq<T>, c: Seq<T>| #[trigger]
        lifted(a, b) && #[trigger] lifted(b, c) implies lifted(a, c) by {
        lemma_lex_transitive(before, a, b, c);
    }
}

/// Two sequences with the same first `n` elements compare as what comes
/// after those does.
pub proof fn lemma_lex_skip<T>(before: spec_fn(T, T) -> bool, a: Seq<T>, b: Seq<T>, n: int)
    requires
        0 <= n <= a.len(),
        n <= b.len(),
        forall|i: int| 0 <= i < n ==> a[i] == b[i],
    ensures
        lex_le(before, a, b) == lex_le(before, a.skip(n), b.skip(n)),
    decreases n,
{
    if n == 0 {
        assert(a.skip(0) =~= a);
        assert(b.skip(0) =~= b);
    } else {
        lemma_lex_skip(before, a, b, n - 1);
        let x = a.skip(n - 1);
        let y = b.skip(n - 1);
        assert(x[0] == a[n - 1]);
        assert(y[0] == b[n - 1]);
        assert(x.drop_first() =~= a.skip(n));
        assert(y.drop_first() =~= b.skip(n));
    }
}

} // verus!
