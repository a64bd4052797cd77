//! The order in which sessions are listed: the current session first, then
//! by name. Both the command-line listing and the picker list this way.

use vstd::prelude::*;
use vstd::seq_lib::{to_multiset_build, to_multiset_insert};
use crate::text::{
    lemma_lex_first_difference,
    lemma_lex_prefix_first,
    lemma_lex_total,
    lemma_lex_transitive,
    lex_le,
    lex_le_chars,
};

verus! {

/// Something listed as a session: whether it is the current session, and
/// its name.
pub trait Listed: Sized {
    spec fn current_spec(&self) -> bool;

    spec fn name_spec(&self) -> Seq<char>;

    fn is_current(&self) -> (r: bool)
        ensures
            r == self.current_spec(),
    ;

    fn name_chars(&self) -> (r: Vec<char>)
        ensures
            r@ == self.name_spec(),
    ;
}

/// `a` may be listed before `b`: the current session goes first, and
/// otherwise names come in lexicographic order.
pub open spec fn listed_le<T: Listed>(a: T, b: T) -> bool {
    (a.current_spec() && !b.current_spec()) || (a.current_spec() == b.current_spec() && lex_le(
        a.name_spec(),
        b.name_spec(),
    ))
}

/// Where `x` goes in `s`: after every leading item that may be listed
/// before it, so that equal items keep their order.
pub open spec fn insert_pos<T: Listed>(s: Seq<T>, x: T) -> int
    decreases s.len(),
{
    if s.len() == 0 {
        0
    } else if !listed_le(s[0], x) {
        0
    } else {
        1 + insert_pos(s.drop_first(), x)
    }
}

/// The listing of `s`: each item in turn inserted at its place (a stable
/// sort by `listed_le`).
pub open spec fn sorted_listing<T: Listed>(s: Seq<T>) -> Seq<T>
    decreases s.len(),
{
    if s.len() == 0 {
        s
    } else {
        let r = sorted_listing(s.drop_last());
        r.insert(insert_pos(r, s.last()), s.last())
    }
}

/// Every item before `insert_pos` may be listed before `x`, and the item at
/// it may not.
proof fn lemma_insert_pos<T: Listed>(s: Seq<T>, x: T)
    ensures
        0 <= insert_pos(s, x) <= s.len(),
        forall|m: int| 0 <= m < insert_pos(s, x) ==> listed_le(#[trigger] s[m], x),
        insert_pos(s, x) < s.len() ==> !listed_le(s[insert_pos(s, x)], x),
    decreases s.len(),
{
    if s.len() > 0 && listed_le(s[0], x) {
        lemma_insert_pos(s.drop_first(), x);
        assert forall|m: int| 0 <= m < insert_pos(s, x) implies listed_le(#[trigger] s[m], x) by {
            if m > 0 {
                assert(s[m] == s.drop_first()[m - 1]);
            }
        }
    }
}

/// A scan that stops at the first item that may not be listed before `x`
/// stops at `insert_pos`.
proof fn lemma_insert_pos_unique<T: Listed>(s: Seq<T>, x: T, j: int)
    requires
        0 <= j <= s.len(),
        forall|m: int| 0 <= m < j ==> listed_le(#[trigger] s[m], x),
        j < s.len() ==> !listed_le(s[j], x),
    ensures
        insert_pos(s, x) == j,
    decreases s.len(),
{
    if s.len() > 0 && j > 0 {
        assert(listed_le(s[0], x));
        assert forall|m: int| 0 <= m < j - 1 implies listed_le(#[trigger] s.drop_first()[m], x) by {
            assert(s.drop_first()[m] == s[m + 1]);
        }
        lemma_insert_pos_unique(s.drop_first(), x, j - 1);
    }
}

/// Law: `listed_le` is total.
pub proof fn lemma_listed_total<T: Listed>(a: T, b: T)
    ensures
        listed_le(a, b) || listed_le(b, a),
{
    lemma_lex_total(a.name_spec(), b.name_spec());
}

/// Law: `listed_le` is transitive.
pub proof fn lemma_listed_transitive<T: Listed>(a: T, b: T, c: T)
    requires
        listed_le(a, b),
        listed_le(b, c),
    ensures
        listed_le(a, c),
{
    if a.current_spec() == b.current_spec() && b.current_spec() == c.current_spec() {
        lemma_lex_transitive(a.name_spec(), b.name_spec(), c.name_spec());
    }
}

/// Law: the listing is in order: the current session first, then by name.
pub proof fn lemma_sorted_listing_ordered<T: Listed>(s: Seq<T>)
    ensures
        forall|i: int, j: int|
            0 <= i < j < sorted_listing(s).len() ==> listed_le(
                #[trigger] sorted_listing(s)[i],
                #[trigger] sorted_listing(s)[j],
            ),
    decreases s.len(),
{
    if s.len() > 0 {
        let r = sorted_listing(s.drop_last());
        let x = s.last();
        let k = insert_pos(r, x);
        lemma_sorted_listing_ordered(s.drop_last());
        lemma_insert_pos(r, x);
        let out = r.insert(k, x);
        assert(out == sorted_listing(s));
        if k < r.len() {
            lemma_listed_total(r[k], x);
        }
        assert forall|i: int, j: int| 0 <= i < j < out.len() implies listed_le(
            #[trigger] out[i],
            #[trigger] out[j],
        ) by {
            if j < k {
                assert(out[i] == r[i] && out[j] == r[j]);
            } else if j == k {
                assert(out[i] == r[i]);
            } else if i == k {
                // x comes before r[k], which comes before r[j - 1]
                assert(out[j] == r[j - 1]);
                if j - 1 > k {
                    assert(listed_le(r[k], r[j - 1]));
                    lemma_listed_transitive(x, r[k], r[j - 1]);
                }
            } else if i < k {
                assert(out[i] == r[i] && out[j] == r[j - 1]);
                if i < j - 1 {
                    assert(listed_le(r[i], r[j - 1]));
                } else {
                    assert(false);
                }
            } else {
                assert(out[i] == r[i - 1] && out[j] == r[j - 1]);
            }
        }
    }
}

/// Law: the listing holds the same items as `s`, each as often.
pub proof fn lemma_sorted_listing_permutation<T: Listed>(s: Seq<T>)
    ensures
        sorted_listing(s).to_multiset() == s.to_multiset(),
        sorted_listing(s).len() == s.len(),
    decreases s.len(),
{
    if s.len() > 0 {
        let r = sorted_listing(s.drop_last());
        lemma_sorted_listing_permutation(s.drop_last());
        lemma_insert_pos(r, s.last());
        to_multiset_insert(r, insert_pos(r, s.last()), s.last());
        to_multiset_build(s.drop_last(), s.last());
        assert(s.drop_last().push(s.last()) =~= s);
    }
}

/// Law: where two items land in the listing. The current session comes
/// before one that is not; among items alike in that, a name comes before
/// every longer name that begins with it, and otherwise the first character
/// where two names differ decides, by code point.
pub proof fn lemma_listing_places<T: Listed>(
    s: Seq<T>,
    i: int,
    j: int,
    suffix: Seq<char>,
    k: int,
)
    requires
        0 <= i < sorted_listing(s).len(),
        0 <= j < sorted_listing(s).len(),
    ensures
        sorted_listing(s)[i].current_spec() && !sorted_listing(s)[j].current_spec() ==> i < j,
        sorted_listing(s)[i].current_spec() == sorted_listing(s)[j].current_spec()
            && suffix.len() > 0 && sorted_listing(s)[j].name_spec() == sorted_listing(
            s,
        )[i].name_spec() + suffix ==> i < j,
        ({
            let a = sorted_listing(s)[i].name_spec();
            let b = sorted_listing(s)[j].name_spec();
            sorted_listing(s)[i].current_spec() == sorted_listing(s)[j].current_spec() && 0 <= k
                < a.len() && k < b.len() && a.subrange(0, k) == b.subrange(0, k) && (a[k] as u32)
                < (b[k] as u32) ==> i < j
        }),
{
    let r = sorted_listing(s);
    lemma_sorted_listing_ordered(s);
    let a = r[i].name_spec();
    let b = r[j].name_spec();
    lemma_lex_prefix_first(a, suffix);
    if j < i {
        assert(listed_le(r[j], r[i]));
        if 0 <= k < a.len() && k < b.len() && a.subrange(0, k) == b.subrange(0, k) && a[k] != b[k] {
            lemma_lex_first_difference(b, a, k);
        }
    }
    if i == j && suffix.len() > 0 {
        assert((a + suffix).len() != a.len());
    }
}

/// Whether `a` may be listed before `b`.
pub fn listed_le_exec<T: Listed>(a: &T, b: &T) -> (r: bool)
    ensures
        r == listed_le(*a, *b),
{
    let ac = a.is_current();
    let bc = b.is_current();
    if ac && !bc {
        true
    } else if ac != bc {
        false
    } else {
        lex_le_chars(&a.name_chars(), &b.name_chars())
    }
}

/// Sort items into listing order: the current session first, then by name;
/// items that compare equal keep their order.
pub fn sort_listing<T: Listed>(items: Vec<T>) -> (r: Vec<T>)
    ensures
        r@ == sorted_listing(items@),
{
    let ghost given = items@;
    let mut rest = items;
    let mut out: Vec<T> = Vec::new();
    let mut i: usize = 0;
    let n = rest.len();
    while i < n
        invariant
            n == given.len(),
            0 <= i <= n,
            rest@ == given.skip(i as int),
            out@ == sorted_listing(given.take(i as int)),
        decreases n - i,
    {
        let x = rest.remove(0);
        proof {
            assert(x == given[i as int]);
            assert(given.take(i + 1).drop_last() =~= given.take(i as int));
            assert(given.take(i + 1).last() == x);
            assert(rest@ =~= given.skip(i + 1));
        }
        let mut j: usize = 0;
        while j < out.len() && listed_le_exec(&out[j], &x)
            invariant
                0 <= j <= out@.len(),
                forall|m: int| 0 <= m < j ==> listed_le(#[trigger] out@[m], x),
            decreases out@.len() - j,
        {
            j = j + 1;
        }
        proof {
            lemma_insert_pos_unique(out@, x, j as int);
        }
        out.insert(j, x);
        i = i + 1;
    }
    proof {
        assert(given.take(n as int) =~= given);
    }
    out
}

} // verus!
