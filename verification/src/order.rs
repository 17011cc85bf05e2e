//! The order of upstream names, and the upstreams sorted by it.

use crate::model::{views, UpstreamSpec, UpstreamView};
use vstd::prelude::*;
use vstd::string::StringSliceAdditionalSpecFns;
use vstd::utf8::{encode_utf8, encode_utf8_decode_utf8};

verus! {

/// Lexicographic order of two byte strings from position `i` on, given
/// that they agree before it.
pub open spec fn bytes_le_from(a: Seq<u8>, b: Seq<u8>, i: int) -> bool
    decreases a.len() - i,
{
    if i < 0 || i >= a.len() {
        true
    } else if i >= b.len() {
        false
    } else if a[i] != b[i] {
        a[i] < b[i]
    } else {
        bytes_le_from(a, b, i + 1)
    }
}

/// The order of names: lexicographic by the bytes of their UTF-8 encoding,
/// which is how strings compare.
pub open spec fn name_le(a: Seq<char>, b: Seq<char>) -> bool {
    bytes_le_from(encode_utf8(a), encode_utf8(b), 0)
}

/// Whether `a` comes before `b` in the order of names, or is the same name.
pub fn name_at_most(a: &str, b: &str) -> (r: bool)
    ensures
        r == name_le(a@, b@),
{
    let x = a.as_bytes();
    let y = b.as_bytes();
    let mut i: usize = 0;
    while i < x.len() && i < y.len()
        invariant
            i <= x.len(),
            i <= y.len(),
            x@ == encode_utf8(a@),
            y@ == encode_utf8(b@),
            bytes_le_from(x@, y@, 0) == bytes_le_from(x@, y@, i as int),
        decreases x.len() - i,
    {
        if x[i] != y[i] {
            return x[i] < y[i];
        }
        i += 1;
    }
    i >= x.len()
}

/// A sequence sorted by name with one more upstream: it goes behind the
/// last upstream whose name is not greater than its own.
pub open spec fn inserted_by_name(sorted: Seq<UpstreamView>, u: UpstreamView) -> Seq<UpstreamView>
    decreases sorted.len(),
{
    if sorted.len() == 0 {
        Seq::empty().push(u)
    } else if name_le(sorted.last().name, u.name) {
        sorted.push(u)
    } else {
        inserted_by_name(sorted.drop_last(), u).push(sorted.last())
    }
}

/// The upstreams ascending by name. Upstreams of one name keep the order
/// that they have in the input.
pub open spec fn sorted_by_name(upstreams: Seq<UpstreamView>) -> Seq<UpstreamView>
    decreases upstreams.len(),
{
    if upstreams.len() == 0 {
        Seq::empty()
    } else {
        inserted_by_name(sorted_by_name(upstreams.drop_last()), upstreams.last())
    }
}

/* ---------------- the order is total ---------------- */

/// Every byte string is at most itself.
proof fn lemma_bytes_le_reflexive(a: Seq<u8>, i: int)
    requires
        0 <= i,
    ensures
        bytes_le_from(a, a, i),
    decreases a.len() - i,
{
    if i < a.len() {
        lemma_bytes_le_reflexive(a, i + 1);
    }
}

/// Of two byte strings one is at most the other.
proof fn lemma_bytes_le_total(a: Seq<u8>, b: Seq<u8>, i: int)
    requires
        0 <= i,
    ensures
        bytes_le_from(a, b, i) || bytes_le_from(b, a, i),
    decreases a.len() - i,
{
    if i < a.len() && i < b.len() && a[i] == b[i] {
        lemma_bytes_le_total(a, b, i + 1);
    }
}

/// The order of byte strings is transitive.
proof fn lemma_bytes_le_transitive(a: Seq<u8>, b: Seq<u8>, c: Seq<u8>, i: int)
    requires
        0 <= i,
        bytes_le_from(a, b, i),
        bytes_le_from(b, c, i),
    ensures
        bytes_le_from(a, c, i),
    decreases a.len() - i,
{
    if i < a.len() && i < b.len() && i < c.len() && a[i] == b[i] && b[i] == c[i] {
        lemma_bytes_le_transitive(a, b, c, i + 1);
    }
}

/// Two byte strings that agree before `i` and are each at most the other
/// from `i` on are the same.
proof fn lemma_bytes_le_antisymmetric(a: Seq<u8>, b: Seq<u8>, i: int)
    requires
        0 <= i <= a.len(),
        i <= b.len(),
        forall|k: int| 0 <= k < i ==> a[k] == b[k],
        bytes_le_from(a, b, i),
        bytes_le_from(b, a, i),
    ensures
        a == b,
    decreases a.len() - i,
{
    if i < a.len() {
        lemma_bytes_le_antisymmetric(a, b, i + 1);
    } else {
        assert(a =~= b);
    }
}

/// Every name is at most itself.
pub proof fn lemma_name_le_reflexive(a: Seq<char>)
    ensures
        name_le(a, a),
{
    lemma_bytes_le_reflexive(encode_utf8(a), 0);
}

/// Of two names one is at most the other.
pub proof fn lemma_name_le_total(a: Seq<char>, b: Seq<char>)
    ensures
        name_le(a, b) || name_le(b, a),
{
    lemma_bytes_le_total(encode_utf8(a), encode_utf8(b), 0);
}

/// The order of names is transitive.
pub proof fn lemma_name_le_transitive(a: Seq<char>, b: Seq<char>, c: Seq<char>)
    requires
        name_le(a, b),
        name_le(b, c),
    ensures
        name_le(a, c),
{
    lemma_bytes_le_transitive(encode_utf8(a), encode_utf8(b), encode_utf8(c), 0);
}

/// Two names that are each at most the other are the same name.
pub proof fn lemma_name_le_antisymmetric(a: Seq<char>, b: Seq<char>)
    requires
        name_le(a, b),
        name_le(b, a),
    ensures
        a == b,
{
    lemma_bytes_le_antisymmetric(encode_utf8(a), encode_utf8(b), 0);
    encode_utf8_decode_utf8(a);
    encode_utf8_decode_utf8(b);
}

/* ---------------- what sorting gives ---------------- */

/// Whether the names of a sequence of upstreams ascend.
pub open spec fn ascending(upstreams: Seq<UpstreamView>) -> bool {
    forall|i: int, j: int|
        0 <= i < j < upstreams.len() ==> name_le(
            (#[trigger] upstreams[i]).name,
            (#[trigger] upstreams[j]).name,
        )
}

/// Inserting by name keeps every upstream, adds the new one, and keeps the
/// names ascending.
proof fn lemma_inserted_by_name(sorted: Seq<UpstreamView>, u: UpstreamView)
    requires
        ascending(sorted),
    ensures
        ascending(inserted_by_name(sorted, u)),
        inserted_by_name(sorted, u).len() == sorted.len() + 1,
        inserted_by_name(sorted, u).to_multiset() == sorted.to_multiset().insert(u),
        forall|k: int|
            0 <= k < inserted_by_name(sorted, u).len() ==> (#[trigger] inserted_by_name(
                sorted,
                u,
            )[k]) == u || sorted.contains(inserted_by_name(sorted, u)[k]),
    decreases sorted.len(),
{
    broadcast use vstd::seq_lib::group_to_multiset_ensures;

    let out = inserted_by_name(sorted, u);
    if sorted.len() == 0 {
        assert(sorted =~= Seq::empty());
    } else if name_le(sorted.last().name, u.name) {
        assert forall|i: int, j: int| 0 <= i < j < out.len() implies name_le(
            (#[trigger] out[i]).name,
            (#[trigger] out[j]).name,
        ) by {
            if j == sorted.len() {
                assert(out[i] == sorted[i]);
                if i < sorted.len() - 1 {
                    assert(name_le(sorted[i].name, sorted[sorted.len() - 1].name));
                } else {
                    lemma_name_le_reflexive(sorted.last().name);
                }
                lemma_name_le_transitive(out[i].name, sorted.last().name, u.name);
            }
        }
        assert forall|k: int| 0 <= k < out.len() implies (#[trigger] out[k]) == u
            || sorted.contains(out[k]) by {
            if k < sorted.len() {
                assert(sorted[k] == out[k]);
            }
        }
    } else {
        let rest = sorted.drop_last();
        let inner = inserted_by_name(rest, u);
        assert forall|i: int, j: int| 0 <= i < j < rest.len() implies name_le(
            (#[trigger] rest[i]).name,
            (#[trigger] rest[j]).name,
        ) by {
            assert(rest[i] == sorted[i] && rest[j] == sorted[j]);
        }
        lemma_inserted_by_name(rest, u);
        lemma_name_le_total(sorted.last().name, u.name);
        assert forall|i: int, j: int| 0 <= i < j < out.len() implies name_le(
            (#[trigger] out[i]).name,
            (#[trigger] out[j]).name,
        ) by {
            if j == inner.len() {
                assert(out[i] == inner[i]);
                if inner[i] != u {
                    assert(rest.contains(inner[i]));
                    let k = choose|k: int| 0 <= k < rest.len() && rest[k] == inner[i];
                    assert(sorted[k] == inner[i]);
                    assert(name_le(sorted[k].name, sorted[sorted.len() - 1].name));
                }
            } else {
                assert(out[i] == inner[i] && out[j] == inner[j]);
            }
        }
        assert(sorted =~= rest.push(sorted.last()));
        assert(out.to_multiset() =~= sorted.to_multiset().insert(u));
        assert forall|k: int| 0 <= k < out.len() implies (#[trigger] out[k]) == u
            || sorted.contains(out[k]) by {
            if k < inner.len() {
                assert(out[k] == inner[k]);
                if inner[k] != u {
                    let m = choose|m: int| 0 <= m < rest.len() && rest[m] == inner[k];
                    assert(sorted[m] == out[k]);
                }
            } else {
                assert(sorted[sorted.len() - 1] == out[k]);
            }
        }
    }
}

/// The sorted upstreams ascend by name, and they are the upstreams of the
/// input, each as often as the input has it.
pub proof fn lemma_sorted_by_name(upstreams: Seq<UpstreamView>)
    ensures
        ascending(sorted_by_name(upstreams)),
        sorted_by_name(upstreams).len() == upstreams.len(),
        sorted_by_name(upstreams).to_multiset() == upstreams.to_multiset(),
    decreases upstreams.len(),
{
    broadcast use vstd::seq_lib::group_to_multiset_ensures;

    if upstreams.len() == 0 {
        assert(upstreams =~= Seq::empty());
    } else {
        lemma_sorted_by_name(upstreams.drop_last());
        lemma_inserted_by_name(sorted_by_name(upstreams.drop_last()), upstreams.last());
        assert(upstreams =~= upstreams.drop_last().push(upstreams.last()));
    }
}

/// The upstreams of a sequence that have the given name, in their order.
pub open spec fn named(upstreams: Seq<UpstreamView>, name: Seq<char>) -> Seq<UpstreamView> {
    upstreams.filter(has_name(name))
}

/// The test for a name.
pub open spec fn has_name(name: Seq<char>) -> spec_fn(UpstreamView) -> bool {
    |u: UpstreamView| u.name == name
}

/// The upstreams of a name with one more upstream at the end of the
/// sequence.
proof fn lemma_named_push(upstreams: Seq<UpstreamView>, u: UpstreamView, name: Seq<char>)
    ensures
        named(upstreams.push(u), name) == if u.name == name {
            named(upstreams, name).push(u)
        } else {
            named(upstreams, name)
        },
{
    reveal(Seq::filter);
    assert(upstreams.push(u).drop_last() =~= upstreams);
}

/// Inserting by name puts the new upstream behind those of its own name.
proof fn lemma_inserted_after_its_name(sorted: Seq<UpstreamView>, u: UpstreamView, name: Seq<char>)
    ensures
        named(inserted_by_name(sorted, u), name) == if u.name == name {
            named(sorted, name).push(u)
        } else {
            named(sorted, name)
        },
    decreases sorted.len(),
{
    if sorted.len() == 0 {
        assert(sorted =~= Seq::empty());
        lemma_named_push(sorted, u, name);
    } else if name_le(sorted.last().name, u.name) {
        lemma_named_push(sorted, u, name);
    } else {
        let rest = sorted.drop_last();
        let last = sorted.last();
        assert(sorted =~= rest.push(last));
        lemma_inserted_after_its_name(rest, u, name);
        lemma_named_push(inserted_by_name(rest, u), last, name);
        lemma_named_push(rest, last, name);
        if u.name == name && last.name == name {
            lemma_name_le_reflexive(name);
        }
    }
}

/// Sorting is stable: the upstreams of one name stand in the output in the
/// order that they have in the input.
pub proof fn lemma_sorted_by_name_is_stable(upstreams: Seq<UpstreamView>, name: Seq<char>)
    ensures
        named(sorted_by_name(upstreams), name) == named(upstreams, name),
    decreases upstreams.len(),
{
    if upstreams.len() == 0 {
    } else {
        let rest = upstreams.drop_last();
        let last = upstreams.last();
        assert(upstreams =~= rest.push(last));
        lemma_sorted_by_name_is_stable(rest, name);
        lemma_inserted_after_its_name(sorted_by_name(rest), last, name);
        lemma_named_push(rest, last, name);
    }
}

/// The names of the upstreams, in their order.
pub open spec fn names_of(upstreams: Seq<UpstreamView>) -> Seq<Seq<char>> {
    upstreams.map_values(|u: UpstreamView| u.name)
}

/// The order of names as a relation.
pub open spec fn name_order() -> spec_fn(Seq<char>, Seq<char>) -> bool {
    |a: Seq<char>, b: Seq<char>| name_le(a, b)
}

/// The order of names is a total order.
pub proof fn lemma_name_order_total()
    ensures
        vstd::relations::total_ordering(name_order()),
{
    let r = name_order();
    assert forall|a: Seq<char>| #[trigger] r(a, a) by {
        lemma_name_le_reflexive(a);
    }
    assert forall|a: Seq<char>, b: Seq<char>| #[trigger] r(a, b) && #[trigger] r(b, a) implies a
        == b by {
        lemma_name_le_antisymmetric(a, b);
    }
    assert forall|a: Seq<char>, b: Seq<char>, c: Seq<char>| #[trigger]
        r(a, b) && #[trigger] r(b, c) implies r(a, c) by {
        lemma_name_le_transitive(a, b, c);
    }
    assert forall|a: Seq<char>, b: Seq<char>| #[trigger] r(a, b) || #[trigger] r(b, a) by {
        lemma_name_le_total(a, b);
    }
}

/// Two sequences with the same upstreams, each as often, have the same
/// names, each as often.
proof fn lemma_names_of_same_upstreams(a: Seq<UpstreamView>, b: Seq<UpstreamView>)
    requires
        a.to_multiset() == b.to_multiset(),
    ensures
        names_of(a).to_multiset() == names_of(b).to_multiset(),
    decreases a.len(),
{
    broadcast use vstd::seq_lib::group_to_multiset_ensures;
    broadcast use vstd::multiset::group_multiset_axioms;

    assert(a.len() == b.len()) by {
        assert(a.to_multiset().len() == a.len());
        assert(b.to_multiset().len() == b.len());
    }
    if a.len() == 0 {
        assert(names_of(a) =~= names_of(b));
    } else {
        let x = a.last();
        assert(a =~= a.drop_last().push(x));
        assert(a.to_multiset().contains(x));
        assert(b.contains(x));
        let k = choose|k: int| 0 <= k < b.len() && b[k] == x;
        assert(a.drop_last().to_multiset() =~= a.to_multiset().remove(x));
        assert(b.remove(k).to_multiset() =~= b.to_multiset().remove(x));
        lemma_names_of_same_upstreams(a.drop_last(), b.remove(k));
        assert(names_of(a) =~= names_of(a.drop_last()).push(x.name));
        assert(names_of(b) =~= names_of(b.remove(k)).insert(k, x.name));
    }
}

/// The names of the sorted upstreams do not depend on the order of the
/// input: two inputs with the same upstreams give the same names in the
/// same places.
pub proof fn lemma_sorted_names_independent_of_order(a: Seq<UpstreamView>, b: Seq<UpstreamView>)
    requires
        a.to_multiset() == b.to_multiset(),
    ensures
        names_of(sorted_by_name(a)) == names_of(sorted_by_name(b)),
{
    let x = names_of(sorted_by_name(a));
    let y = names_of(sorted_by_name(b));
    lemma_sorted_by_name(a);
    lemma_sorted_by_name(b);
    lemma_names_of_same_upstreams(sorted_by_name(a), sorted_by_name(b));
    lemma_name_order_total();
    assert(vstd::relations::sorted_by(x, name_order())) by {
        assert forall|i: int, j: int| 0 <= i < j < x.len() implies #[trigger] name_order()(
            x[i],
            x[j],
        ) by {
            assert(name_le(sorted_by_name(a)[i].name, sorted_by_name(a)[j].name));
        }
    }
    assert(vstd::relations::sorted_by(y, name_order())) by {
        assert forall|i: int, j: int| 0 <= i < j < y.len() implies #[trigger] name_order()(
            y[i],
            y[j],
        ) by {
            assert(name_le(sorted_by_name(b)[i].name, sorted_by_name(b)[j].name));
        }
    }
    vstd::seq_lib::lemma_sorted_unique(x, y, name_order());
}

/// The upstreams that an order of indices picks, one after the other.
pub open spec fn picked(upstreams: Seq<UpstreamView>, order: Seq<usize>) -> Seq<UpstreamView> {
    Seq::new(order.len(), |k: int| upstreams[order[k] as int])
}

/// Where a new upstream goes into a sorted sequence: behind the last
/// upstream whose name is not greater than its own.
proof fn lemma_inserted_at(sorted: Seq<UpstreamView>, u: UpstreamView, pos: int)
    requires
        0 <= pos <= sorted.len(),
        forall|j: int| pos <= j < sorted.len() ==> !name_le(#[trigger] sorted[j].name, u.name),
        pos > 0 ==> name_le(sorted[pos - 1].name, u.name),
    ensures
        inserted_by_name(sorted, u) == sorted.insert(pos, u),
    decreases sorted.len(),
{
    if sorted.len() == 0 {
        assert(sorted.insert(pos, u) =~= Seq::empty().push(u));
    } else if pos == sorted.len() {
        assert(sorted.insert(pos, u) =~= sorted.push(u));
    } else {
        assert(!name_le(sorted[sorted.len() - 1].name, u.name));
        lemma_inserted_at(sorted.drop_last(), u, pos);
        assert(sorted.drop_last().insert(pos, u).push(sorted.last()) =~= sorted.insert(pos, u));
    }
}

/// The indices of the upstreams in ascending order of their names.
/// Upstreams of one name keep their input order.
pub fn order_by_name(upstreams: &[UpstreamSpec]) -> (order: Vec<usize>)
    ensures
        order@.len() == upstreams@.len(),
        forall|k: int| 0 <= k < order@.len() ==> (#[trigger] order@[k]) < upstreams@.len(),
        picked(views(upstreams@), order@) == sorted_by_name(views(upstreams@)),
{
    let ghost all = views(upstreams@);
    let mut order: Vec<usize> = Vec::new();
    let mut k: usize = 0;
    while k < upstreams.len()
        invariant
            k <= upstreams@.len(),
            all == views(upstreams@),
            order@.len() == k,
            forall|j: int| 0 <= j < order@.len() ==> (#[trigger] order@[j]) < upstreams@.len(),
            picked(all, order@) == sorted_by_name(all.take(k as int)),
        decreases upstreams@.len() - k,
    {
        let name = upstreams[k].name.as_str();
        let mut pos: usize = order.len();
        while pos > 0 && !name_at_most(upstreams[order[pos - 1]].name.as_str(), name)
            invariant
                pos <= order@.len(),
                k < upstreams@.len(),
                all == views(upstreams@),
                name@ == all[k as int].name,
                forall|j: int| 0 <= j < order@.len() ==> (#[trigger] order@[j]) < upstreams@.len(),
                forall|j: int|
                    pos <= j < order@.len() ==> !name_le(
                        #[trigger] picked(all, order@)[j].name,
                        name@,
                    ),
            decreases pos,
        {
            pos -= 1;
        }
        let ghost before = picked(all, order@);
        proof {
            if pos > 0 {
                assert(before[pos - 1] == all[order@[pos - 1] as int]);
            }
            lemma_inserted_at(before, all[k as int], pos as int);
            assert(all.take(k + 1).drop_last() =~= all.take(k as int));
        }
        order.insert(pos, k);
        assert(picked(all, order@) =~= before.insert(pos as int, all[k as int]));
        k += 1;
    }
    assert(all.take(all.len() as int) =~= all);
    order
}

} // verus!
