//! Lexicographic order on names, and sorting lists of names by it, as
//! `Ord` orders strings (and, for UTF-8 text, file names) in std.

use vstd::prelude::*;
use vstd::multiset::Multiset;
use crate::text::chars_of;

verus! {

/// Whether `a` comes no later than `b` in lexicographic order of characters.
pub open spec fn lex_le(a: Seq<char>, b: Seq<char>) -> bool
    decreases a.len(),
{
    if a.len() == 0 {
        true
    } else if b.len() == 0 {
        false
    } else if a[0] != b[0] {
        a[0] < b[0]
    } else {
        lex_le(a.drop_first(), b.drop_first())
    }
}

/// Whether the names are in lexicographic order.
pub open spec fn names_sorted(names: Seq<String>) -> bool {
    forall|i: int, j: int| 0 <= i < j < names.len() ==> lex_le(#[trigger] names[i]@, #[trigger] names[j]@)
}

/// Any two names are ordered one way or the other.
pub proof fn lemma_lex_total(a: Seq<char>, b: Seq<char>)
    ensures
        lex_le(a, b) || lex_le(b, a),
    decreases a.len(),
{
    if a.len() > 0 && b.len() > 0 && a[0] == b[0] {
        lemma_lex_total(a.drop_first(), b.drop_first());
    }
}

/// The order is transitive.
pub proof fn lemma_lex_transitive(a: Seq<char>, b: Seq<char>, c: Seq<char>)
    requires
        lex_le(a, b),
        lex_le(b, c),
    ensures
        lex_le(a, c),
    decreases a.len(),
{
    if a.len() > 0 && b.len() > 0 && c.len() > 0 && a[0] == b[0] && b[0] == c[0] {
        lemma_lex_transitive(a.drop_first(), b.drop_first(), c.drop_first());
    }
}

proof fn lemma_lex_skip(a: Seq<char>, b: Seq<char>, i: int)
    requires
        0 <= i <= a.len(),
        i <= b.len(),
        a.take(i) == b.take(i),
    ensures
        lex_le(a, b) == lex_le(a.skip(i), b.skip(i)),
    decreases i,
{
    if i == 0 {
        assert(a.skip(0) =~= a);
        assert(b.skip(0) =~= b);
    } else {
        assert(a[0] == a.take(i)[0]);
        assert(b[0] == b.take(i)[0]);
        assert(a.drop_first().take(i - 1) =~= a.take(i).drop_first());
        assert(b.drop_first().take(i - 1) =~= b.take(i).drop_first());
        assert(a.drop_first().skip(i - 1) =~= a.skip(i));
        assert(b.drop_first().skip(i - 1) =~= b.skip(i));
        lemma_lex_skip(a.drop_first(), b.drop_first(), i - 1);
    }
}

/// Whether `a` comes no later than `b`.
pub fn text_le(a: &String, b: &String) -> (le: bool)
    ensures
        le == lex_le(a@, b@),
{
    let x = chars_of(a.as_str());
    let y = chars_of(b.as_str());
    let mut i: usize = 0;
    while i < x.len() && i < y.len() && x[i] == y[i]
        invariant
            x@ == a@,
            y@ == b@,
            i <= x@.len(),
            i <= y@.len(),
            x@.take(i as int) == y@.take(i as int),
        decreases x.len() - i,
    {
        assert(x@.take(i + 1) =~= x@.take(i as int).push(x@[i as int]));
        assert(y@.take(i + 1) =~= y@.take(i as int).push(y@[i as int]));
        i = i + 1;
    }
    proof {
        lemma_lex_skip(x@, y@, i as int);
    }
    if i == x.len() {
        true
    } else if i == y.len() {
        false
    } else {
        assert(x@.skip(i as int)[0] == x@[i as int]);
        assert(y@.skip(i as int)[0] == y@[i as int]);
        x[i] < y[i]
    }
}

/// The names, sorted lexicographically.
pub fn sort_names(names: Vec<String>) -> (sorted: Vec<String>)
    ensures
        names_sorted(sorted@),
        sorted@.to_multiset() == names@.to_multiset(),
{
    broadcast use vstd::seq_lib::group_to_multiset_ensures;

    let ghost original = names@;
    let mut rest = names;
    let mut sorted: Vec<String> = Vec::new();
    while rest.len() > 0
        invariant
            names_sorted(sorted@),
            sorted@.to_multiset().add(rest@.to_multiset()) == original.to_multiset(),
        decreases rest.len(),
    {
        let ghost before = rest@;
        let x = rest.pop().unwrap();
        assert(before =~= rest@.push(x));
        let mut p: usize = 0;
        while p < sorted.len() && text_le(&sorted[p], &x)
            invariant
                p <= sorted@.len(),
                forall|k: int| 0 <= k < p ==> lex_le(#[trigger] sorted@[k]@, x@),
            decreases sorted.len() - p,
        {
            p = p + 1;
        }
        let ghost old_sorted = sorted@;
        proof {
            if p < old_sorted.len() {
                lemma_lex_total(old_sorted[p as int]@, x@);
            }
        }
        sorted.insert(p, x);
        proof {
            assert(sorted@.remove(p as int) =~= old_sorted);
            assert(sorted@[p as int] == x);
            assert forall|i: int, j: int| 0 <= i < j < sorted@.len() implies lex_le(
                #[trigger] sorted@[i]@,
                #[trigger] sorted@[j]@,
            ) by {
                if j < p {
                    assert(sorted@[i] == old_sorted[i] && sorted@[j] == old_sorted[j]);
                } else if j == p {
                    assert(sorted@[i] == old_sorted[i]);
                } else if i == p {
                    assert(sorted@[j] == old_sorted[j - 1]);
                    if j - 1 > p {
                        assert(lex_le(old_sorted[p as int]@, old_sorted[j - 1]@));
                        lemma_lex_transitive(x@, old_sorted[p as int]@, old_sorted[j - 1]@);
                    }
                } else if i < p {
                    assert(sorted@[i] == old_sorted[i] && sorted@[j] == old_sorted[j - 1]);
                } else {
                    assert(sorted@[i] == old_sorted[i - 1] && sorted@[j] == old_sorted[j - 1]);
                }
            }
            assert(sorted@.to_multiset() =~= old_sorted.to_multiset().insert(x)) by {
                sorted@.to_multiset_ensures();
                assert(sorted@.remove(p as int).to_multiset() =~= sorted@.to_multiset().remove(x));
                assert(sorted@.contains(x));
                assert(sorted@.to_multiset().count(x) > 0);
            }
            rest@.to_multiset_ensures();
            assert(before.to_multiset() =~= rest@.to_multiset().insert(x));
            assert(sorted@.to_multiset().add(rest@.to_multiset()) =~= old_sorted.to_multiset().add(before.to_multiset()));
        }
    }
    assert(rest@.to_multiset() =~= Multiset::<String>::empty()) by {
        assert(rest@.len() == 0);
    }
    assert(sorted@.to_multiset() =~= original.to_multiset());
    sorted
}


/// The order is that of dictionaries: a name comes before its extensions
/// and not after them, and after a common beginning the name with the
/// smaller character comes first, whatever follows.
pub proof fn lemma_lex_is_dictionary_order(
    prefix: Seq<char>,
    c1: char,
    c2: char,
    x: Seq<char>,
    y: Seq<char>,
)
    ensures
        lex_le(prefix, prefix + x),
        x.len() > 0 ==> !lex_le(prefix + x, prefix),
        c1 < c2 ==> lex_le(prefix + seq![c1] + x, prefix + seq![c2] + y),
        c1 < c2 ==> !lex_le(prefix + seq![c2] + y, prefix + seq![c1] + x),
    decreases prefix.len(),
{
    if prefix.len() == 0 {
        assert(prefix + x =~= x);
        assert(prefix + seq![c1] + x =~= seq![c1] + x);
        assert(prefix + seq![c2] + y =~= seq![c2] + y);
    } else {
        let p = prefix.drop_first();
        assert((prefix + x).drop_first() =~= p + x);
        assert((prefix + seq![c1] + x).drop_first() =~= p + seq![c1] + x);
        assert((prefix + seq![c2] + y).drop_first() =~= p + seq![c2] + y);
        lemma_lex_is_dictionary_order(p, c1, c2, x, y);
    }
}

} // verus!
