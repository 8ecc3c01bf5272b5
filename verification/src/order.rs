//! The order in which named things are listed: by name, as strings compare.

use vstd::prelude::*;
use vstd::utf8::{encode_utf8, encode_utf8_decode_utf8};

verus! {

/// `a` is no later than `b` where byte strings are ordered by their first
/// differing byte, and a string comes before each of its extensions.
pub open spec fn bytes_le(a: Seq<u8>, b: Seq<u8>) -> bool
    decreases a.len(),
{
    if a.len() == 0 {
        true
    } else if b.len() == 0 {
        false
    } else if a[0] != b[0] {
        a[0] < b[0]
    } else {
        bytes_le(a.drop_first(), b.drop_first())
    }
}

/// The order of names: that of the bytes of their UTF-8 encoding, which is
/// how strings compare.
pub open spec fn name_le(a: Seq<char>, b: Seq<char>) -> bool {
    bytes_le(encode_utf8(a), encode_utf8(b))
}

/// Every byte string is no later than itself.
pub proof fn lemma_bytes_le_reflexive(a: Seq<u8>)
    ensures
        bytes_le(a, a),
    decreases a.len(),
{
    if a.len() > 0 {
        lemma_bytes_le_reflexive(a.drop_first());
    }
}

/// Of two byte strings, one is no later than the other.
pub proof fn lemma_bytes_le_total(a: Seq<u8>, b: Seq<u8>)
    ensures
        bytes_le(a, b) || bytes_le(b, a),
    decreases a.len(),
{
    if a.len() > 0 && b.len() > 0 && a[0] == b[0] {
        lemma_bytes_le_total(a.drop_first(), b.drop_first());
    }
}

/// What is no later than something that is no later than a third is no
/// later than the third.
pub proof fn lemma_bytes_le_transitive(a: Seq<u8>, b: Seq<u8>, c: Seq<u8>)
    requires
        bytes_le(a, b),
        bytes_le(b, c),
    ensures
        bytes_le(a, c),
    decreases a.len(),
{
    if a.len() > 0 && a[0] == b[0] && b[0] == c[0] {
        lemma_bytes_le_transitive(a.drop_first(), b.drop_first(), c.drop_first());
    }
}

/// Two byte strings, each no later than the other, are the same.
pub proof fn lemma_bytes_le_antisymmetric(a: Seq<u8>, b: Seq<u8>)
    requires
        bytes_le(a, b),
        bytes_le(b, a),
    ensures
        a == b,
    decreases a.len(),
{
    if a.len() > 0 {
        lemma_bytes_le_antisymmetric(a.drop_first(), b.drop_first());
        assert(b == seq![b[0]] + b.drop_first());
    }
}

/// Whether `a` is no later than `b` in the order of names.
pub fn name_no_later(a: &str, b: &str) -> (le: bool)
    ensures
        le == name_le(a@, b@),
{
    let x = a.as_bytes();
    let y = b.as_bytes();
    let mut i: usize = 0;
    assert(x@.skip(0) == x@);
    assert(y@.skip(0) == y@);
    while i < x.len() && i < y.len()
        invariant
            i <= x.len(),
            i <= y.len(),
            x@ == encode_utf8(a@),
            y@ == encode_utf8(b@),
            bytes_le(x@, y@) == bytes_le(x@.skip(i as int), y@.skip(i as int)),
        decreases x.len() - i,
    {
        assert(x@.skip(i as int).drop_first() == x@.skip(i + 1));
        assert(y@.skip(i as int).drop_first() == y@.skip(i + 1));
        if x[i] != y[i] {
            return x[i] < y[i];
        }
        i = i + 1;
    }
    x.len() <= y.len()
}

/// The position `first` may be listed before the position `second`: its
/// name is no later, and where both have the same name it is the smaller
/// position.
pub open spec fn in_turn(names: Seq<Seq<char>>, first: usize, second: usize) -> bool {
    &&& name_le(names[first as int], names[second as int])
    &&& names[first as int] == names[second as int] ==> first < second
}

/// `order` lists the first `upto` positions of `names` by name: each of
/// them once, no name after a later one, and positions of the same name in
/// their own order.
pub open spec fn listed_by_name(names: Seq<Seq<char>>, order: Seq<usize>, upto: int) -> bool {
    &&& order.len() == upto
    &&& forall|k: int| 0 <= k < order.len() ==> #[trigger] order[k] < upto
    &&& forall|at: usize| at < upto ==> #[trigger] order.contains(at)
    &&& forall|a: int, b: int|
        0 <= a < b < order.len() ==> in_turn(names, #[trigger] order[a], #[trigger] order[b])
}

/// `order` lists all positions of `names` by name.
pub open spec fn by_name(names: Seq<Seq<char>>, order: Seq<usize>) -> bool {
    listed_by_name(names, order, names.len() as int)
}

/// Putting the next position into a list by name, behind every position
/// whose name is no later and before all others, gives a list by name.
proof fn lemma_insert_keeps_order(names: Seq<Seq<char>>, order: Seq<usize>, next: usize, at: int)
    requires
        next < names.len(),
        listed_by_name(names, order, next as int),
        0 <= at <= order.len(),
        at > 0 ==> name_le(names[order[at - 1] as int], names[next as int]),
        forall|k: int|
            at <= k < order.len() ==> !name_le(names[#[trigger] order[k] as int], names[next as int]),
    ensures
        listed_by_name(names, order.insert(at, next), next + 1),
{
    let longer = order.insert(at, next);
    let name = names[next as int];
    assert forall|p: usize| p <= next implies #[trigger] longer.contains(p) by {
        if p == next {
            assert(longer[at] == next);
        } else {
            assert(order.contains(p));
            let k: int = choose|k: int| 0 <= k < order.len() && order[k] == p;
            if k < at {
                assert(longer[k] == order[k]);
            } else {
                assert(longer[k + 1] == order[k]);
            }
        }
    }
    assert forall|a: int, b: int| 0 <= a < b < longer.len() implies in_turn(
        names,
        #[trigger] longer[a],
        #[trigger] longer[b],
    ) by {
        if a == at {
            let later: usize = order[b - 1];
            lemma_bytes_le_total(encode_utf8(names[later as int]), encode_utf8(name));
            lemma_bytes_le_reflexive(encode_utf8(name));
        } else if b == at {
            let earlier: usize = order[a];
            if a < at - 1 {
                lemma_bytes_le_transitive(
                    encode_utf8(names[earlier as int]),
                    encode_utf8(names[order[at - 1] as int]),
                    encode_utf8(name),
                );
            }
        }
    }
}

/// The positions of `names` in the order of the names. Positions of the
/// same name keep their own order.
pub fn name_order(names: &[String]) -> (order: Vec<usize>)
    ensures
        by_name(names.deep_view(), order@),
{
    let mut order: Vec<usize> = Vec::new();
    let mut next: usize = 0;
    while next < names.len()
        invariant
            next <= names.len(),
            listed_by_name(names.deep_view(), order@, next as int),
        decreases names.len() - next,
    {
        let mut at: usize = next;
        while at > 0 && !name_no_later(names[order[at - 1]].as_str(), names[next].as_str())
            invariant
                at <= next < names.len(),
                listed_by_name(names.deep_view(), order@, next as int),
                forall|k: int|
                    at <= k < order@.len() ==> !name_le(
                        names.deep_view()[#[trigger] order@[k] as int],
                        names.deep_view()[next as int],
                    ),
            decreases at,
        {
            at = at - 1;
        }
        proof {
            lemma_insert_keeps_order(names.deep_view(), order@, next, at as int);
        }
        order.insert(at, next);
        next = next + 1;
    }
    order
}

/// Of two positions, only one may be listed before the other.
proof fn lemma_one_turn(names: Seq<Seq<char>>, first: usize, second: usize)
    requires
        in_turn(names, first, second),
    ensures
        !in_turn(names, second, first),
{
    let a = names[first as int];
    let b = names[second as int];
    if name_le(b, a) {
        lemma_bytes_le_antisymmetric(encode_utf8(a), encode_utf8(b));
        encode_utf8_decode_utf8(a);
        encode_utf8_decode_utf8(b);
    }
}

/// Two lists of the positions of `names` by name agree on their first
/// `upto` entries.
proof fn lemma_same_start(
    names: Seq<Seq<char>>,
    first: Seq<usize>,
    second: Seq<usize>,
    upto: int,
)
    requires
        by_name(names, first),
        by_name(names, second),
        0 <= upto <= names.len(),
    ensures
        forall|k: int| 0 <= k < upto ==> first[k] == second[k],
    decreases upto,
{
    if upto > 0 {
        lemma_same_start(names, first, second, upto - 1);
        let k: int = upto - 1;
        assert(second.contains(first[k]));
        let j: int = choose|j: int| 0 <= j < second.len() && second[j] == first[k];
        assert(first.contains(second[k]));
        let i: int = choose|i: int| 0 <= i < first.len() && first[i] == second[k];
        if j > k && i > k {
            lemma_one_turn(names, first[k], second[k]);
        }
    }
}

/// There is only one list by name: two lists of the positions of `names` by
/// name are the same list.
pub proof fn lemma_one_order(names: Seq<Seq<char>>, first: Seq<usize>, second: Seq<usize>)
    requires
        by_name(names, first),
        by_name(names, second),
    ensures
        first == second,
{
    lemma_same_start(names, first, second, names.len() as int);
}

} // verus!
