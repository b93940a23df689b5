//! The aggregator: merges raw per-source card records into consolidated,
//! identity-keyed entries with per-owner quantity totals.
//!
//! The mathematical model is `spec_consolidate`: records are folded in input
//! order; a record joins the first entry with its identity key, a record with
//! a fresh key opens a new entry at the end, and within an entry a record's
//! quantity is added to the first matching owner slot. The laws below relate
//! the model's totals to plain sums over the input, independent of order.

use vstd::prelude::*;

use crate::models::CardRec;
use crate::models::EmbedRec;
use crate::models::SearchResultCard;
use crate::models::SearchResultEmbed;
use crate::text::i64_to_dec_string;
use crate::text::int_str_of;
use crate::text::to_uppercase;
use crate::text::upper_of;

verus! {

/// The identity of one physical printing: name, upper-cased set code and
/// collector number. Two records with equal keys are merged.
pub struct CardKey {
    pub name: Seq<char>,
    pub set_upper: Seq<char>,
    pub cn: Seq<char>,
}

/// The identity key of one raw record.
pub open spec fn rec_key(r: CardRec) -> CardKey {
    CardKey { name: r.name, set_upper: upper_of(r.set), cn: r.cn }
}

/// One consolidated card: the first-seen record's display fields as
/// representative, plus the owners of the printing with their summed
/// quantities, in first-seen order.
pub struct ConsolidatedCard {
    pub name: String,
    pub set: String,
    pub set_upper: String,
    pub cn: String,
    pub ck_price: String,
    pub owners: Vec<String>,
    pub quantities: Vec<i64>,
}

/// Mathematical image of a `ConsolidatedCard`.
pub struct GroupRec {
    pub name: Seq<char>,
    pub set: Seq<char>,
    pub set_upper: Seq<char>,
    pub cn: Seq<char>,
    pub ck_price: Seq<char>,
    pub owners: Seq<Seq<char>>,
    pub quantities: Seq<int>,
}

impl View for ConsolidatedCard {
    type V = GroupRec;

    open spec fn view(&self) -> GroupRec {
        GroupRec {
            name: self.name@,
            set: self.set@,
            set_upper: self.set_upper@,
            cn: self.cn@,
            ck_price: self.ck_price@,
            owners: self.owners.deep_view(),
            quantities: Seq::new(self.quantities@.len(), |i: int| self.quantities@[i] as int),
        }
    }
}

impl DeepView for ConsolidatedCard {
    type V = GroupRec;

    open spec fn deep_view(&self) -> GroupRec {
        self.view()
    }
}

/// The identity key of one consolidated entry.
pub open spec fn group_key(g: GroupRec) -> CardKey {
    CardKey { name: g.name, set_upper: g.set_upper, cn: g.cn }
}

/// A fresh consolidated entry for a record with a key not seen before.
pub open spec fn new_group(r: CardRec) -> GroupRec {
    GroupRec {
        name: r.name,
        set: r.set,
        set_upper: upper_of(r.set),
        cn: r.cn,
        ck_price: r.ck_price,
        owners: seq![r.owner],
        quantities: seq![r.quantity],
    }
}

/// Adds a quantity under an owner label: to the first slot already carrying
/// that label, or to a fresh slot at the end.
pub open spec fn add_owner(
    owners: Seq<Seq<char>>,
    quantities: Seq<int>,
    o: Seq<char>,
    q: int,
) -> (Seq<Seq<char>>, Seq<int>)
    decreases owners.len(),
{
    if owners.len() == 0 {
        (seq![o], seq![q])
    } else if owners[0] == o {
        (owners, quantities.update(0, quantities[0] + q))
    } else {
        let rest = add_owner(owners.drop_first(), quantities.drop_first(), o, q);
        (seq![owners[0]] + rest.0, seq![quantities[0]] + rest.1)
    }
}

/// A record's quantity folded into the consolidated entry of its key.
pub open spec fn add_to_group(g: GroupRec, r: CardRec) -> GroupRec {
    let ow = add_owner(g.owners, g.quantities, r.owner, r.quantity);
    GroupRec { owners: ow.0, quantities: ow.1, ..g }
}

/// One record folded into the consolidated list: it joins the first entry
/// with its key, or opens a new entry at the end.
pub open spec fn insert_record(groups: Seq<GroupRec>, r: CardRec) -> Seq<GroupRec>
    decreases groups.len(),
{
    if groups.len() == 0 {
        seq![new_group(r)]
    } else if group_key(groups[0]) == rec_key(r) {
        seq![add_to_group(groups[0], r)] + groups.drop_first()
    } else {
        seq![groups[0]] + insert_record(groups.drop_first(), r)
    }
}

/// The whole aggregation: records folded in input order.
pub open spec fn spec_consolidate(recs: Seq<CardRec>) -> Seq<GroupRec>
    decreases recs.len(),
{
    if recs.len() == 0 {
        Seq::empty()
    } else {
        insert_record(spec_consolidate(recs.drop_last()), recs.last())
    }
}

/// Sum of a sequence of quantities.
pub open spec fn qsum(qs: Seq<int>) -> int
    decreases qs.len(),
{
    if qs.len() == 0 {
        0
    } else {
        qsum(qs.drop_last()) + qs.last()
    }
}

/// Sum of the quantities of the records a predicate selects.
pub open spec fn filtered_sum(recs: Seq<CardRec>, p: spec_fn(CardRec) -> bool) -> int
    decreases recs.len(),
{
    if recs.len() == 0 {
        0
    } else {
        filtered_sum(recs.drop_last(), p) + if p(recs.last()) {
            recs.last().quantity
        } else {
            0
        }
    }
}

/// Sum of the input quantities carrying one identity key.
pub open spec fn key_total(recs: Seq<CardRec>, k: CardKey) -> int {
    filtered_sum(recs, |r: CardRec| rec_key(r) == k)
}

/// Sum of the input quantities carrying one identity key under one owner.
pub open spec fn owner_key_total(recs: Seq<CardRec>, k: CardKey, o: Seq<char>) -> int {
    filtered_sum(recs, |r: CardRec| rec_key(r) == k && r.owner == o)
}

/// Sum of all input quantities.
pub open spec fn sum_all(recs: Seq<CardRec>) -> int {
    filtered_sum(recs, |r: CardRec| true)
}

/// Every record's quantity is non-negative (the input invariant).
pub open spec fn all_quantities_nonneg(recs: Seq<CardRec>) -> bool {
    forall|i: int| 0 <= i < recs.len() ==> recs[i].quantity >= 0
}

/// Well-formedness of one consolidated entry: one quantity per owner, at
/// least one owner, the stored upper-case set code really is the upper-case
/// image of the set code, and no owner label appears twice.
pub open spec fn wf_group(g: GroupRec) -> bool {
    &&& g.owners.len() == g.quantities.len()
    &&& g.owners.len() >= 1
    &&& g.set_upper == upper_of(g.set)
    &&& forall|i: int, j: int| 0 <= i < j < g.owners.len() ==> g.owners[i] != g.owners[j]
}

/// Well-formedness of the consolidated list: every entry well-formed and no
/// identity key appearing twice.
pub open spec fn wf_groups(gs: Seq<GroupRec>) -> bool {
    &&& forall|i: int| 0 <= i < gs.len() ==> wf_group(#[trigger] gs[i])
    &&& forall|i: int, j: int|
        0 <= i < j < gs.len() ==> group_key(gs[i]) != group_key(gs[j])
}

/// Whether some consolidated entry carries the key.
pub open spec fn has_key(gs: Seq<GroupRec>, k: CardKey) -> bool {
    exists|i: int| 0 <= i < gs.len() && group_key(#[trigger] gs[i]) == k
}

/// Whether some record carries the key.
pub open spec fn has_rec_key(recs: Seq<CardRec>, k: CardKey) -> bool {
    exists|r: CardRec| recs.contains(r) && rec_key(r) == k
}

/// Updating one slot by a difference moves the sum by that difference.
proof fn lemma_qsum_update(qs: Seq<int>, k: int, d: int)
    requires
        0 <= k < qs.len(),
    ensures
        qsum(qs.update(k, qs[k] + d)) == qsum(qs) + d,
    decreases qs.len(),
{
    if k == qs.len() - 1 {
        assert(qs.update(k, qs[k] + d).drop_last() =~= qs.drop_last());
    } else {
        lemma_qsum_update(qs.drop_last(), k, d);
        assert(qs.update(k, qs[k] + d).drop_last() =~= qs.drop_last().update(k, qs[k] + d));
        assert(qs.update(k, qs[k] + d).last() == qs.last());
    }
}

/// Appending a slot adds its value to the sum.
proof fn lemma_qsum_push(qs: Seq<int>, q: int)
    ensures
        qsum(qs.push(q)) == qsum(qs) + q,
{
    assert(qs.push(q).drop_last() =~= qs);
}

/// Removing a record removes exactly its contribution from a filtered sum.
proof fn lemma_filtered_sum_remove(recs: Seq<CardRec>, p: spec_fn(CardRec) -> bool, i: int)
    requires
        0 <= i < recs.len(),
    ensures
        filtered_sum(recs.remove(i), p) == filtered_sum(recs, p) - if p(recs[i]) {
            recs[i].quantity
        } else {
            0
        },
    decreases recs.len(),
{
    if i == recs.len() - 1 {
        assert(recs.remove(i) =~= recs.drop_last());
    } else {
        lemma_filtered_sum_remove(recs.drop_last(), p, i);
        assert(recs.remove(i).drop_last() =~= recs.drop_last().remove(i));
        assert(recs.remove(i).last() == recs.last());
    }
}

/// Filtered sums do not depend on the order of the records.
proof fn lemma_filtered_sum_perm(s1: Seq<CardRec>, s2: Seq<CardRec>, p: spec_fn(CardRec) -> bool)
    requires
        s1.to_multiset() == s2.to_multiset(),
    ensures
        filtered_sum(s1, p) == filtered_sum(s2, p),
    decreases s1.len(),
{
    broadcast use vstd::seq_lib::group_to_multiset_ensures;

    if s1.len() == 0 {
        assert(s2.len() == s2.to_multiset().len());
    } else {
        let a = s1.last();
        assert(s1 =~= s1.drop_last().push(a));
        assert(s1.to_multiset() =~= s1.drop_last().to_multiset().insert(a));
        assert(s2.to_multiset().count(a) > 0);
        assert(s2.contains(a));
        let j = choose|j: int| 0 <= j < s2.len() && s2[j] == a;
        assert(s2.remove(j).to_multiset() =~= s2.to_multiset().remove(a));
        assert(s2.remove(j).to_multiset() =~= s1.drop_last().to_multiset());
        lemma_filtered_sum_perm(s1.drop_last(), s2.remove(j), p);
        lemma_filtered_sum_remove(s2, p, j);
    }
}

/// With non-negative quantities, any filtered sum is non-negative.
proof fn lemma_filtered_sum_nonneg(recs: Seq<CardRec>, p: spec_fn(CardRec) -> bool)
    requires
        all_quantities_nonneg(recs),
    ensures
        filtered_sum(recs, p) >= 0,
    decreases recs.len(),
{
    if recs.len() > 0 {
        assert(all_quantities_nonneg(recs.drop_last()));
        lemma_filtered_sum_nonneg(recs.drop_last(), p);
    }
}

/// With non-negative quantities, a prefix's filtered sum is at most the
/// whole sequence's.
proof fn lemma_filtered_sum_take_le(recs: Seq<CardRec>, p: spec_fn(CardRec) -> bool, i: int)
    requires
        all_quantities_nonneg(recs),
        0 <= i <= recs.len(),
    ensures
        filtered_sum(recs.take(i), p) <= filtered_sum(recs, p),
    decreases recs.len(),
{
    if i == recs.len() {
        assert(recs.take(i) =~= recs);
    } else {
        assert(all_quantities_nonneg(recs.drop_last()));
        assert(recs.drop_last().take(i) =~= recs.take(i));
        lemma_filtered_sum_take_le(recs.drop_last(), p, i);
    }
}

/// `add_owner` with the first matching slot at `k` updates exactly that slot.
proof fn lemma_add_owner_found(
    owners: Seq<Seq<char>>,
    quantities: Seq<int>,
    o: Seq<char>,
    q: int,
    k: int,
)
    requires
        owners.len() == quantities.len(),
        0 <= k < owners.len(),
        owners[k] == o,
        forall|i: int| 0 <= i < k ==> owners[i] != o,
    ensures
        add_owner(owners, quantities, o, q) == (owners, quantities.update(k, quantities[k] + q)),
    decreases k,
{
    if k == 0 {
    } else {
        lemma_add_owner_found(owners.drop_first(), quantities.drop_first(), o, q, k - 1);
        let rest = add_owner(owners.drop_first(), quantities.drop_first(), o, q);
        assert(seq![owners[0]] + rest.0 =~= owners);
        assert(seq![quantities[0]] + rest.1 =~= quantities.update(k, quantities[k] + q));
    }
}

/// `add_owner` with no matching slot appends a fresh one.
proof fn lemma_add_owner_new(owners: Seq<Seq<char>>, quantities: Seq<int>, o: Seq<char>, q: int)
    requires
        owners.len() == quantities.len(),
        forall|i: int| 0 <= i < owners.len() ==> owners[i] != o,
    ensures
        add_owner(owners, quantities, o, q) == (owners.push(o), quantities.push(q)),
    decreases owners.len(),
{
    if owners.len() == 0 {
        assert(seq![o] =~= owners.push(o));
        assert(seq![q] =~= quantities.push(q));
    } else {
        lemma_add_owner_new(owners.drop_first(), quantities.drop_first(), o, q);
        let rest = add_owner(owners.drop_first(), quantities.drop_first(), o, q);
        assert(seq![owners[0]] + rest.0 =~= owners.push(o));
        assert(seq![quantities[0]] + rest.1 =~= quantities.push(q));
    }
}

/// `insert_record` with the first matching entry at `j` updates exactly that
/// entry.
proof fn lemma_insert_record_found(gs: Seq<GroupRec>, r: CardRec, j: int)
    requires
        0 <= j < gs.len(),
        group_key(gs[j]) == rec_key(r),
        forall|i: int| 0 <= i < j ==> group_key(#[trigger] gs[i]) != rec_key(r),
    ensures
        insert_record(gs, r) == gs.update(j, add_to_group(gs[j], r)),
    decreases j,
{
    if j == 0 {
        assert(seq![add_to_group(gs[0], r)] + gs.drop_first() =~= gs.update(
            0,
            add_to_group(gs[0], r),
        ));
    } else {
        lemma_insert_record_found(gs.drop_first(), r, j - 1);
        assert(seq![gs[0]] + insert_record(gs.drop_first(), r) =~= gs.update(
            j,
            add_to_group(gs[j], r),
        ));
    }
}

/// `insert_record` with no matching entry appends a fresh one.
proof fn lemma_insert_record_new(gs: Seq<GroupRec>, r: CardRec)
    requires
        forall|i: int| 0 <= i < gs.len() ==> group_key(#[trigger] gs[i]) != rec_key(r),
    ensures
        insert_record(gs, r) == gs.push(new_group(r)),
    decreases gs.len(),
{
    if gs.len() == 0 {
        assert(seq![new_group(r)] =~= gs.push(new_group(r)));
    } else {
        lemma_insert_record_new(gs.drop_first(), r);
        assert(seq![gs[0]] + insert_record(gs.drop_first(), r) =~= gs.push(new_group(r)));
    }
}

/// Whether some record carries the key under the owner label.
pub open spec fn has_rec_key_owner(recs: Seq<CardRec>, k: CardKey, o: Seq<char>) -> bool {
    exists|r: CardRec| recs.contains(r) && rec_key(r) == k && r.owner == o
}

/// A filtered sum over records none of which the predicate selects is zero.
proof fn lemma_filtered_sum_none(recs: Seq<CardRec>, p: spec_fn(CardRec) -> bool)
    requires
        forall|i: int| 0 <= i < recs.len() ==> !p(#[trigger] recs[i]),
    ensures
        filtered_sum(recs, p) == 0,
    decreases recs.len(),
{
    if recs.len() > 0 {
        lemma_filtered_sum_none(recs.drop_last(), p);
    }
}

/// A sequence holds an element exactly when its prefix holds it or it is the
/// last element.
proof fn lemma_contains_split(recs: Seq<CardRec>)
    requires
        recs.len() > 0,
    ensures
        forall|x: CardRec|
            recs.contains(x) <==> (recs.drop_last().contains(x) || x == recs.last()),
{
    assert forall|x: CardRec|
        recs.contains(x) implies (recs.drop_last().contains(x) || x == recs.last()) by {
        let i = choose|i: int| 0 <= i < recs.len() && recs[i] == x;
        if i < recs.len() - 1 {
            assert(recs.drop_last()[i] == x);
            assert(recs.drop_last().contains(x));
        }
    }
    assert forall|x: CardRec|
        (recs.drop_last().contains(x) || x == recs.last()) implies recs.contains(x) by {
        if recs.drop_last().contains(x) {
            let i = choose|i: int| 0 <= i < recs.drop_last().len() && recs.drop_last()[i] == x;
            assert(recs[i] == x);
        } else {
            assert(recs[recs.len() - 1] == x);
        }
    }
}

/// What the consolidated list says about the records it was built from:
/// entries are well-formed with pairwise distinct keys and owner labels; each
/// entry's quantity sum is the input total of its key; each owner slot is the
/// input total of its key under that owner; and the entries' keys and owner
/// labels are exactly those occurring in the input.
pub open spec fn consolidation_sound(recs: Seq<CardRec>, gs: Seq<GroupRec>) -> bool {
    &&& wf_groups(gs)
    &&& forall|j: int|
        0 <= j < gs.len() ==> qsum(#[trigger] gs[j].quantities) == key_total(
            recs,
            group_key(gs[j]),
        )
    &&& forall|j: int, m: int|
        0 <= j < gs.len() && 0 <= m < gs[j].owners.len() ==> gs[j].quantities[m]
            == owner_key_total(recs, group_key(gs[j]), gs[j].owners[m])
    &&& forall|k: CardKey| has_key(gs, k) <==> has_rec_key(recs, k)
    &&& forall|j: int, o: Seq<char>|
        0 <= j < gs.len() ==> ((#[trigger] gs[j].owners.contains(o)) <==> has_rec_key_owner(
            recs,
            group_key(gs[j]),
            o,
        ))
}

/// Aggregation is sound: merging never loses or invents quantity. For every
/// identity key, the consolidated entry's total equals the sum of the input
/// quantities under that key; per owner likewise; no key and no owner label
/// appears twice.
pub proof fn lemma_consolidate_sound(recs: Seq<CardRec>)
    ensures
        consolidation_sound(recs, spec_consolidate(recs)),
    decreases recs.len(),
{
    if recs.len() == 0 {
    } else {
        let prev = recs.drop_last();
        let r = recs.last();
        let k_r = rec_key(r);
        lemma_consolidate_sound(prev);
        let gs0 = spec_consolidate(prev);
        let gs1 = spec_consolidate(recs);
        lemma_contains_split(recs);
        if has_key(gs0, k_r) {
            let j = choose|j: int| 0 <= j < gs0.len() && group_key(#[trigger] gs0[j]) == k_r;
            assert forall|i: int| 0 <= i < j implies group_key(#[trigger] gs0[i]) != k_r by {
                assert(group_key(gs0[i]) != group_key(gs0[j]));
            }
            lemma_insert_record_found(gs0, r, j);
            let gj = gs0[j];
            let g2 = add_to_group(gj, r);
            assert(gs1 =~= gs0.update(j, g2));
            if exists|m: int| 0 <= m < gj.owners.len() && gj.owners[m] == r.owner {
                // The record's owner already has a slot: that slot alone grows.
                let m = choose|m: int| 0 <= m < gj.owners.len() && gj.owners[m] == r.owner;
                assert forall|i: int| 0 <= i < m implies gj.owners[i] != r.owner by {
                    assert(gj.owners[i] != gj.owners[m]);
                }
                lemma_add_owner_found(gj.owners, gj.quantities, r.owner, r.quantity, m);
                lemma_qsum_update(gj.quantities, m, r.quantity);
                assert(g2.owners =~= gj.owners);
                assert(g2.quantities =~= gj.quantities.update(m, gj.quantities[m] + r.quantity));
                assert(gs1[j] == g2);
                assert forall|j2: int, m2: int|
                    0 <= j2 < gs1.len() && 0 <= m2 < gs1[j2].owners.len() implies gs1[j2]
                    .quantities[m2] == owner_key_total(
                    recs,
                    group_key(gs1[j2]),
                    gs1[j2].owners[m2],
                ) by {
                    if j2 == j {
                        if m2 == m {
                        } else {
                            assert(gj.owners[m2] != gj.owners[m]);
                        }
                    } else {
                        assert(group_key(gs0[j2]) != group_key(gs0[j]));
                    }
                }
            } else {
                // A fresh owner slot is appended.
                assert forall|i: int| 0 <= i < gj.owners.len() implies gj.owners[i]
                    != r.owner by {}
                lemma_add_owner_new(gj.owners, gj.quantities, r.owner, r.quantity);
                lemma_qsum_push(gj.quantities, r.quantity);
                assert(g2.owners =~= gj.owners.push(r.owner));
                assert(g2.quantities =~= gj.quantities.push(r.quantity));
                assert(!gj.owners.contains(r.owner));
                assert(!has_rec_key_owner(prev, k_r, r.owner));
                assert(owner_key_total(prev, k_r, r.owner) == 0) by {
                    let p = |rr: CardRec| rec_key(rr) == k_r && rr.owner == r.owner;
                    assert forall|i: int| 0 <= i < prev.len() implies !p(#[trigger] prev[i]) by {
                        if p(prev[i]) {
                            assert(prev.contains(prev[i]));
                        }
                    }
                    lemma_filtered_sum_none(prev, p);
                }
                assert forall|j2: int, m2: int|
                    0 <= j2 < gs1.len() && 0 <= m2 < gs1[j2].owners.len() implies gs1[j2]
                    .quantities[m2] == owner_key_total(
                    recs,
                    group_key(gs1[j2]),
                    gs1[j2].owners[m2],
                ) by {
                    if j2 == j {
                        if m2 < gj.owners.len() {
                            assert(gj.owners[m2] != r.owner);
                        }
                    } else {
                        assert(group_key(gs0[j2]) != group_key(gs0[j]));
                    }
                }
                assert forall|j2: int, o: Seq<char>| 0 <= j2 < gs1.len() implies ((
                #[trigger] gs1[j2].owners.contains(o)) <==> has_rec_key_owner(
                    recs,
                    group_key(gs1[j2]),
                    o,
                )) by {
                    if j2 == j {
                        assert forall|o2: Seq<char>| #[trigger]
                            g2.owners.contains(o2) implies has_rec_key_owner(recs, k_r, o2) by {
                            let m3 = choose|m3: int|
                                0 <= m3 < g2.owners.len() && g2.owners[m3] == o2;
                            if m3 < gj.owners.len() {
                                assert(gj.owners.contains(o2));
                            } else {
                                assert(o2 == r.owner);
                                assert(recs.contains(r));
                            }
                        }
                        assert forall|o2: Seq<char>|
                            has_rec_key_owner(recs, k_r, o2) implies g2.owners.contains(o2) by {
                            let rr = choose|rr: CardRec|
                                recs.contains(rr) && rec_key(rr) == k_r && rr.owner == o2;
                            if rr == r {
                                assert(g2.owners[gj.owners.len() as int] == r.owner);
                            } else {
                                assert(prev.contains(rr));
                                assert(gj.owners.contains(o2));
                                let m3 = choose|m3: int|
                                    0 <= m3 < gj.owners.len() && gj.owners[m3] == o2;
                                assert(g2.owners[m3] == o2);
                            }
                        }
                    } else {
                        assert(group_key(gs0[j2]) != group_key(gs0[j]));
                    }
                }
            }
            // Clauses shared by both owner cases.
            assert(wf_groups(gs1)) by {
                assert(group_key(g2) == group_key(gj));
                assert forall|i: int| 0 <= i < gs1.len() implies wf_group(#[trigger] gs1[i]) by {
                    if i != j {
                        assert(gs1[i] == gs0[i]);
                    }
                }
            }
            assert forall|j2: int|
                0 <= j2 < gs1.len() implies qsum(#[trigger] gs1[j2].quantities) == key_total(
                recs,
                group_key(gs1[j2]),
            ) by {
                if j2 != j {
                    assert(group_key(gs0[j2]) != group_key(gs0[j]));
                }
            }
            assert forall|k: CardKey| has_key(gs1, k) <==> has_rec_key(recs, k) by {
                if has_key(gs1, k) {
                    let j2 = choose|j2: int|
                        0 <= j2 < gs1.len() && group_key(#[trigger] gs1[j2]) == k;
                    if j2 == j {
                        assert(recs.contains(r));
                    } else {
                        assert(has_key(gs0, k));
                    }
                }
                if has_rec_key(recs, k) {
                    let rr = choose|rr: CardRec| recs.contains(rr) && rec_key(rr) == k;
                    if rr == r {
                        assert(group_key(gs1[j]) == k);
                        assert(has_key(gs1, k));
                    } else {
                        assert(prev.contains(rr));
                        assert(has_rec_key(prev, k));
                        let j2 = choose|j2: int|
                            0 <= j2 < gs0.len() && group_key(#[trigger] gs0[j2]) == k;
                        assert(group_key(gs1[j2]) == k);
                        assert(has_key(gs1, k));
                    }
                }
            }
            if !(exists|m: int| 0 <= m < gj.owners.len() && gj.owners[m] == r.owner) {
            } else {
                // Owner coverage when the owner slot already existed.
                assert forall|j2: int, o: Seq<char>| 0 <= j2 < gs1.len() implies ((
                #[trigger] gs1[j2].owners.contains(o)) <==> has_rec_key_owner(
                    recs,
                    group_key(gs1[j2]),
                    o,
                )) by {
                    if j2 == j {
                        assert(gs1[j].owners =~= gj.owners);
                        assert forall|o2: Seq<char>|
                            has_rec_key_owner(recs, k_r, o2) implies gj.owners.contains(o2) by {
                            let rr = choose|rr: CardRec|
                                recs.contains(rr) && rec_key(rr) == k_r && rr.owner == o2;
                            if rr == r {
                                let m = choose|m: int|
                                    0 <= m < gj.owners.len() && gj.owners[m] == r.owner;
                                assert(gj.owners[m] == o2);
                            } else {
                                assert(prev.contains(rr));
                            }
                        }
                    } else {
                        assert(group_key(gs0[j2]) != group_key(gs0[j]));
                    }
                }
            }
        } else {
            // First record of a fresh identity key: a new entry at the end.
            assert forall|i: int| 0 <= i < gs0.len() implies group_key(#[trigger] gs0[i])
                != k_r by {
                if group_key(gs0[i]) == k_r {
                    assert(has_key(gs0, k_r));
                }
            }
            lemma_insert_record_new(gs0, r);
            assert(gs1 =~= gs0.push(new_group(r)));
            let gn = new_group(r);
            let jn = gs0.len() as int;
            assert(gs1[jn] == gn);
            assert(!has_rec_key(prev, k_r));
            assert(key_total(prev, k_r) == 0) by {
                let p = |rr: CardRec| rec_key(rr) == k_r;
                assert forall|i: int| 0 <= i < prev.len() implies !p(#[trigger] prev[i]) by {
                    if p(prev[i]) {
                        assert(prev.contains(prev[i]));
                    }
                }
                lemma_filtered_sum_none(prev, p);
            }
            assert(owner_key_total(prev, k_r, r.owner) == 0) by {
                let p = |rr: CardRec| rec_key(rr) == k_r && rr.owner == r.owner;
                assert forall|i: int| 0 <= i < prev.len() implies !p(#[trigger] prev[i]) by {
                    if p(prev[i]) {
                        assert(prev.contains(prev[i]));
                    }
                }
                lemma_filtered_sum_none(prev, p);
            }
            assert(wf_groups(gs1)) by {
                assert(wf_group(gn));
                assert forall|i: int| 0 <= i < gs1.len() implies wf_group(#[trigger] gs1[i]) by {
                    if i != jn {
                        assert(gs1[i] == gs0[i]);
                    }
                }
                assert forall|i: int, i2: int|
                    0 <= i < i2 < gs1.len() implies group_key(gs1[i]) != group_key(gs1[i2]) by {
                    if i2 == jn {
                        assert(group_key(gs0[i]) != k_r);
                    }
                }
            }
            assert(qsum(gn.quantities) == r.quantity) by {
                reveal_with_fuel(qsum, 2);
                assert(gn.quantities.drop_last() =~= Seq::<int>::empty());
            }
            assert forall|j2: int|
                0 <= j2 < gs1.len() implies qsum(#[trigger] gs1[j2].quantities) == key_total(
                recs,
                group_key(gs1[j2]),
            ) by {
                if j2 != jn {
                    assert(group_key(gs0[j2]) != k_r);
                }
            }
            assert forall|j2: int, m2: int|
                0 <= j2 < gs1.len() && 0 <= m2 < gs1[j2].owners.len() implies gs1[j2]
                .quantities[m2] == owner_key_total(
                recs,
                group_key(gs1[j2]),
                gs1[j2].owners[m2],
            ) by {
                if j2 == jn {
                    assert(m2 == 0);
                    assert(gs1[j2].owners[0] == r.owner);
                } else {
                    assert(group_key(gs0[j2]) != k_r);
                }
            }
            assert forall|k: CardKey| has_key(gs1, k) <==> has_rec_key(recs, k) by {
                if has_key(gs1, k) {
                    let j2 = choose|j2: int|
                        0 <= j2 < gs1.len() && group_key(#[trigger] gs1[j2]) == k;
                    if j2 == jn {
                        assert(recs.contains(r));
                    } else {
                        assert(has_key(gs0, k));
                    }
                }
                if has_rec_key(recs, k) {
                    let rr = choose|rr: CardRec| recs.contains(rr) && rec_key(rr) == k;
                    if rr == r {
                        assert(group_key(gs1[jn]) == k);
                        assert(has_key(gs1, k));
                    } else {
                        assert(prev.contains(rr));
                        assert(has_rec_key(prev, k));
                        let j2 = choose|j2: int|
                            0 <= j2 < gs0.len() && group_key(#[trigger] gs0[j2]) == k;
                        assert(group_key(gs1[j2]) == k);
                        assert(has_key(gs1, k));
                    }
                }
            }
            assert forall|j2: int, o: Seq<char>| 0 <= j2 < gs1.len() implies ((
            #[trigger] gs1[j2].owners.contains(o)) <==> has_rec_key_owner(
                recs,
                group_key(gs1[j2]),
                o,
            )) by {
                if j2 == jn {
                    assert forall|o2: Seq<char>| #[trigger]
                        gn.owners.contains(o2) implies has_rec_key_owner(recs, k_r, o2) by {
                        assert(gn.owners[0] == r.owner);
                        let m3 = choose|m3: int| 0 <= m3 < gn.owners.len() && gn.owners[m3] == o2;
                        assert(o2 == r.owner);
                        assert(recs.contains(r));
                    }
                    assert forall|o2: Seq<char>|
                        has_rec_key_owner(recs, k_r, o2) implies gn.owners.contains(o2) by {
                        let rr = choose|rr: CardRec|
                            recs.contains(rr) && rec_key(rr) == k_r && rr.owner == o2;
                        if rr == r {
                            assert(gn.owners[0] == o2);
                        } else {
                            assert(prev.contains(rr));
                            assert(has_rec_key(prev, k_r));
                        }
                    }
                } else {
                    assert(gs1[j2] == gs0[j2]);
                    assert(group_key(gs0[j2]) != k_r);
                }
            }
        }
    }
}

/// Aggregation is order-independent: two inputs holding the same records (in
/// any order) have the same per-key and per-key-per-owner totals, their
/// consolidated lists carry the same identity keys, and entries with equal
/// keys carry equal quantity sums — only the order of entries and owners may
/// differ.
pub proof fn lemma_consolidate_order_independent(s1: Seq<CardRec>, s2: Seq<CardRec>)
    requires
        s1.to_multiset() == s2.to_multiset(),
    ensures
        forall|k: CardKey| key_total(s1, k) == key_total(s2, k),
        forall|k: CardKey, o: Seq<char>| owner_key_total(s1, k, o) == owner_key_total(s2, k, o),
        forall|k: CardKey|
            has_key(spec_consolidate(s1), k) <==> has_key(spec_consolidate(s2), k),
        forall|j1: int, j2: int|
            0 <= j1 < spec_consolidate(s1).len() && 0 <= j2 < spec_consolidate(s2).len()
                && group_key(#[trigger] spec_consolidate(s1)[j1]) == group_key(
                #[trigger] spec_consolidate(s2)[j2],
            ) ==> qsum(spec_consolidate(s1)[j1].quantities) == qsum(
                spec_consolidate(s2)[j2].quantities,
            ),
{
    broadcast use vstd::seq_lib::group_to_multiset_ensures;

    assert forall|k: CardKey| key_total(s1, k) == key_total(s2, k) by {
        lemma_filtered_sum_perm(s1, s2, |r: CardRec| rec_key(r) == k);
    }
    assert forall|k: CardKey, o: Seq<char>|
        owner_key_total(s1, k, o) == owner_key_total(s2, k, o) by {
        lemma_filtered_sum_perm(s1, s2, |r: CardRec| rec_key(r) == k && r.owner == o);
    }
    lemma_consolidate_sound(s1);
    lemma_consolidate_sound(s2);
    assert forall|k: CardKey|
        has_key(spec_consolidate(s1), k) <==> has_key(spec_consolidate(s2), k) by {
        assert forall|r: CardRec| s1.contains(r) <==> s2.contains(r) by {
            assert(s1.contains(r) <==> s1.to_multiset().count(r) > 0);
            assert(s2.contains(r) <==> s2.to_multiset().count(r) > 0);
        }
        assert(has_rec_key(s1, k) <==> has_rec_key(s2, k)) by {
            if has_rec_key(s1, k) {
                let rr = choose|rr: CardRec| s1.contains(rr) && rec_key(rr) == k;
                assert(s2.contains(rr));
            }
            if has_rec_key(s2, k) {
                let rr = choose|rr: CardRec| s2.contains(rr) && rec_key(rr) == k;
                assert(s1.contains(rr));
            }
        }
    }
}

/// With non-negative quantities, a filtered sum over a stronger predicate is
/// at most one over a weaker predicate.
proof fn lemma_filtered_sum_subsume(
    recs: Seq<CardRec>,
    p1: spec_fn(CardRec) -> bool,
    p2: spec_fn(CardRec) -> bool,
)
    requires
        all_quantities_nonneg(recs),
        forall|r: CardRec| #[trigger] p1(r) ==> p2(r),
    ensures
        filtered_sum(recs, p1) <= filtered_sum(recs, p2),
    decreases recs.len(),
{
    if recs.len() > 0 {
        assert(all_quantities_nonneg(recs.drop_last()));
        lemma_filtered_sum_subsume(recs.drop_last(), p1, p2);
    }
}

/// Consolidation never has more entries than there were records.
pub proof fn lemma_consolidate_len(recs: Seq<CardRec>)
    ensures
        spec_consolidate(recs).len() <= recs.len(),
    decreases recs.len(),
{
    if recs.len() > 0 {
        lemma_consolidate_len(recs.drop_last());
        lemma_insert_record_len(spec_consolidate(recs.drop_last()), recs.last());
    }
}

proof fn lemma_insert_record_len(gs: Seq<GroupRec>, r: CardRec)
    ensures
        insert_record(gs, r).len() <= gs.len() + 1,
    decreases gs.len(),
{
    if gs.len() > 0 && group_key(gs[0]) != rec_key(r) {
        lemma_insert_record_len(gs.drop_first(), r);
    }
}

/// The first entry whose identity key is (name, up, cn), as an index;
/// `groups.len()` when there is none.
fn find_group_slot(groups: &Vec<ConsolidatedCard>, name: &String, up: &String, cn: &String) -> (j:
    usize)
    ensures
        j <= groups@.len(),
        forall|i2: int|
            0 <= i2 < j ==> group_key(#[trigger] groups.deep_view()[i2]) != (CardKey {
                name: name@,
                set_upper: up@,
                cn: cn@,
            }),
        j < groups@.len() ==> group_key(groups.deep_view()[j as int]) == (CardKey {
            name: name@,
            set_upper: up@,
            cn: cn@,
        }),
{
    let mut j: usize = 0;
    while j < groups.len()
        invariant
            j <= groups@.len(),
            forall|i2: int|
                0 <= i2 < j ==> group_key(#[trigger] groups.deep_view()[i2]) != (CardKey {
                    name: name@,
                    set_upper: up@,
                    cn: cn@,
                }),
        decreases groups@.len() - j,
    {
        let g = &groups[j];
        proof {
            assert(groups.deep_view()[j as int] == groups@[j as int]@);
        }
        if g.name.eq(name) && g.set_upper.eq(up) && g.cn.eq(cn) {
            return j;
        }
        j = j + 1;
    }
    j
}

/// The first slot carrying the owner label, as an index; `owners.len()` when
/// there is none.
fn find_owner_slot(owners: &Vec<String>, owner: &String) -> (m: usize)
    ensures
        m <= owners@.len(),
        forall|m2: int| 0 <= m2 < m ==> #[trigger] owners.deep_view()[m2] != owner@,
        m < owners@.len() ==> owners.deep_view()[m as int] == owner@,
{
    let mut m: usize = 0;
    while m < owners.len()
        invariant
            m <= owners@.len(),
            forall|m2: int| 0 <= m2 < m ==> #[trigger] owners.deep_view()[m2] != owner@,
        decreases owners@.len() - m,
    {
        proof {
            assert(owners.deep_view()[m as int] == owners@[m as int]@);
        }
        if owners[m].eq(owner) {
            return m;
        }
        m = m + 1;
    }
    m
}

/// Merges raw per-source records into consolidated identity-keyed entries.
/// A record joins the first entry carrying its identity key (name,
/// upper-cased set code, collector number) or opens a new entry; within an
/// entry its quantity is added under its owner label.
#[verifier::loop_isolation(false)]
pub fn consolidate_search_results(search_results: Vec<SearchResultCard>) -> (r: Vec<
    ConsolidatedCard,
>)
    requires
        all_quantities_nonneg(search_results.deep_view()),
        sum_all(search_results.deep_view()) <= i64::MAX,
    ensures
        r.deep_view() == spec_consolidate(search_results.deep_view()),
{
    let ghost dv = search_results.deep_view();
    let mut groups: Vec<ConsolidatedCard> = Vec::new();
    let mut i: usize = 0;
    while i < search_results.len()
        invariant
            i <= search_results.len(),
            groups.deep_view() == spec_consolidate(dv.take(i as int)),
        decreases search_results.len() - i,
    {
        let item = &search_results[i];
        let ghost rv = dv[i as int];
        let ghost gs0 = groups.deep_view();
        proof {
            assert(rv == item@);
            lemma_consolidate_sound(dv.take(i as int));
            assert(dv.take(i as int + 1).drop_last() =~= dv.take(i as int));
            assert(dv.take(i as int + 1).last() == rv);
        }
        let up = to_uppercase(item.set.as_str());
        let n_groups = groups.len();
        let j = find_group_slot(&groups, &item.name, &up, &item.cn);
        proof {
            assert(rec_key(rv) == (CardKey { name: item.name@, set_upper: up@, cn: item.cn@ }));
        }
        if j < n_groups {
            proof {
                lemma_insert_record_found(gs0, rv, j as int);
            }
            let mut g = groups.remove(j);
            let ghost gv = gs0[j as int];
            proof {
                assert(g@ == gv);
            }
            let n_owners = g.owners.len();
            let m = find_owner_slot(&g.owners, &item.owner);
            if m < n_owners {
                proof {
                    lemma_add_owner_found(gv.owners, gv.quantities, rv.owner, rv.quantity,
                        m as int);
                }
                let q0 = g.quantities[m];
                proof {
                    // The new slot value stays within i64: it is the owner's
                    // total so far plus this record's quantity, which is at
                    // most the total of all quantities.
                    let k = group_key(gv);
                    let o = gv.owners[m as int];
                    assert(q0 as int == owner_key_total(dv.take(i as int), k, o));
                    assert(all_quantities_nonneg(dv.take(i as int)));
                    lemma_filtered_sum_nonneg(
                        dv.take(i as int),
                        |r2: CardRec| rec_key(r2) == k && r2.owner == o,
                    );
                    lemma_filtered_sum_subsume(
                        dv.take(i as int),
                        |r2: CardRec| rec_key(r2) == k && r2.owner == o,
                        |r2: CardRec| true,
                    );
                    lemma_filtered_sum_take_le(dv, |r2: CardRec| true, i as int + 1);
                    assert(sum_all(dv.take(i as int + 1)) == sum_all(dv.take(i as int))
                        + rv.quantity);
                    assert(q0 as int + rv.quantity <= i64::MAX);
                    assert(rv.quantity >= 0);
                }
                g.quantities[m] = q0 + item.quantity;
                proof {
                    assert(g@.quantities =~= gv.quantities.update(m as int,
                        gv.quantities[m as int] + rv.quantity));
                    assert(g@.owners =~= gv.owners);
                    assert(g@ == add_to_group(gv, rv));
                }
            } else {
                proof {
                    lemma_add_owner_new(gv.owners, gv.quantities, rv.owner, rv.quantity);
                }
                g.owners.push(item.owner.clone());
                g.quantities.push(item.quantity);
                proof {
                    assert(g@.owners =~= gv.owners.push(rv.owner));
                    assert(g@.quantities =~= gv.quantities.push(rv.quantity));
                    assert(g@ == add_to_group(gv, rv));
                }
            }
            groups.insert(j, g);
            proof {
                assert(groups.deep_view() =~= gs0.update(j as int, add_to_group(gv, rv)));
                assert(groups.deep_view() == spec_consolidate(dv.take(i as int + 1)));
            }
        } else {
            proof {
                lemma_insert_record_new(gs0, rv);
            }
            let mut one_owner: Vec<String> = Vec::new();
            one_owner.push(item.owner.clone());
            let mut one_quantity: Vec<i64> = Vec::new();
            one_quantity.push(item.quantity);
            let g = ConsolidatedCard {
                name: item.name.clone(),
                set: item.set.clone(),
                set_upper: up,
                cn: item.cn.clone(),
                ck_price: item.ck_price.clone(),
                owners: one_owner,
                quantities: one_quantity,
            };
            proof {
                assert(g@.owners =~= seq![rv.owner]);
                assert(g@.quantities =~= seq![rv.quantity]);
                assert(g@ == new_group(rv));
            }
            groups.push(g);
            proof {
                assert(groups.deep_view() =~= gs0.push(new_group(rv)));
                assert(groups.deep_view() == spec_consolidate(dv.take(i as int + 1)));
            }
        }
        i = i + 1;
    }
    proof {
        assert(dv.take(search_results.len() as int) =~= dv);
    }
    groups
}

/// The display form of one consolidated entry: the title names the card with
/// its upper-cased set code and collector number, and each owner's total is
/// rendered as a decimal string.
pub open spec fn embed_of(g: GroupRec) -> EmbedRec {
    EmbedRec {
        title: g.name + " ["@ + g.set_upper + ":"@ + g.cn + "]"@,
        name: g.name,
        set: g.set,
        cn: g.cn,
        owners: g.owners,
        quantities: g.quantities.map_values(|q: int| int_str_of(q)),
        ck_price: g.ck_price,
    }
}

/// The display forms of all consolidated entries, in order.
pub open spec fn embeds_of(gs: Seq<GroupRec>) -> Seq<EmbedRec> {
    gs.map_values(|g: GroupRec| embed_of(g))
}

/// Consolidates raw records and renders each entry for display: one
/// `SearchResultEmbed` per distinct identity key, owners in first-seen order
/// with their summed quantities as decimal strings.
#[verifier::loop_isolation(false)]
pub fn generate_embed_data_from_search_results(search_results: Vec<SearchResultCard>) -> (r: Vec<
    SearchResultEmbed,
>)
    requires
        all_quantities_nonneg(search_results.deep_view()),
        sum_all(search_results.deep_view()) <= i64::MAX,
    ensures
        r.deep_view() == embeds_of(spec_consolidate(search_results.deep_view())),
{
    let ghost dv = search_results.deep_view();
    let groups = consolidate_search_results(search_results);
    let mut out: Vec<SearchResultEmbed> = Vec::new();
    let mut idx: usize = 0;
    while idx < groups.len()
        invariant
            idx <= groups.len(),
            out.deep_view() == embeds_of(groups.deep_view()).take(idx as int),
        decreases groups.len() - idx,
    {
        let g = &groups[idx];
        let ghost gv = groups.deep_view()[idx as int];
        proof {
            assert(gv == g@);
        }
        let mut title = g.name.clone();
        title.append(" [");
        title.append(g.set_upper.as_str());
        title.append(":");
        title.append(g.cn.as_str());
        title.append("]");
        let owners = crate::text::clone_string_vec(&g.owners);
        let mut quantities: Vec<String> = Vec::new();
        let mut m: usize = 0;
        while m < g.quantities.len()
            invariant
                m <= g.quantities.len(),
                quantities.deep_view() == gv.quantities.map_values(
                    |q: int| int_str_of(q),
                ).take(m as int),
            decreases g.quantities.len() - m,
        {
            quantities.push(i64_to_dec_string(g.quantities[m]));
            proof {
                assert(quantities.deep_view() =~= gv.quantities.map_values(
                    |q: int| int_str_of(q),
                ).take(m as int + 1));
            }
            m = m + 1;
        }
        proof {
            assert(gv.quantities.map_values(|q: int| int_str_of(q)).take(
                g.quantities@.len() as int,
            ) =~= gv.quantities.map_values(|q: int| int_str_of(q)));
        }
        let unit = SearchResultEmbed {
            title,
            name: g.name.clone(),
            set: g.set.clone(),
            cn: g.cn.clone(),
            owners,
            quantities,
            ck_price: g.ck_price.clone(),
        };
        proof {
            assert(unit@ == embed_of(gv));
        }
        out.push(unit);
        proof {
            assert(out.deep_view() =~= embeds_of(groups.deep_view()).take(idx as int + 1));
        }
        idx = idx + 1;
    }
    proof {
        assert(embeds_of(groups.deep_view()).take(groups.len() as int) =~= embeds_of(
            groups.deep_view(),
        ));
    }
    out
}

} // verus!
