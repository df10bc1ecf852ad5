//! Aggregation of raw menu items into per-date groups, and construction of
//! the human-readable note list of a dish. Items are keyed by their UTC day
//! number (the timestamp divided by the seconds of a day, rounded towards
//! negative infinity); groups come out in strictly ascending day order, each
//! keeping the original relative order of its items.
use crate::strutil::join_strings;
use crate::strutil::spec_join;
use crate::strutil::spec_starts_with;
use crate::strutil::str_starts_with;
use crate::tables::DishType;
use crate::tables::additive_descriptive;
use crate::tables::allergic_descriptive;
use crate::tables::spec_additive_descriptive;
use crate::tables::spec_allergic_descriptive;
use crate::tables::spec_type_descriptive;
use crate::tables::type_descriptive;
use vstd::prelude::*;
use vstd::string::StringExecFns;

verus! {

broadcast use vstd::seq_lib::group_seq_lib_default, vstd::seq::Seq::lemma_filter_push;

pub const SECONDS_PER_DAY: i64 = 86400;

/// One raw record of the menu-data source: an absolute UTC timestamp in
/// seconds and the dish offered at that time.
pub struct RawMenuItem {
    pub date: i64,
    pub dish: RawDish,
}

/// A dish as the menu-data source reports it. Prices are carried as their
/// decimal text and passed through unchanged.
pub struct RawDish {
    pub name: String,
    pub dish_type: DishType,
    pub allergics: Vec<String>,
    pub specific_allergics: Option<Vec<String>>,
    pub additionals: Vec<String>,
    pub student_price: String,
    pub guest_price: String,
}

/// All items of one calendar day, in their original relative order.
pub struct DayGroup {
    pub day: i64,
    pub items: Vec<RawMenuItem>,
}

/// The UTC day number of an item: its timestamp divided by the seconds of a
/// day, rounded towards negative infinity.
pub open spec fn day_of(it: RawMenuItem) -> int {
    it.date as int / (SECONDS_PER_DAY as int)
}

/// Inserts a day into a sorted day sequence, keeping it sorted and without
/// duplicates.
pub open spec fn spec_insert_day(days: Seq<int>, d: int) -> Seq<int>
    decreases days.len(),
{
    if days.len() == 0 {
        seq![d]
    } else if d > days.last() {
        days + seq![d]
    } else if d == days.last() {
        days
    } else {
        spec_insert_day(days.drop_last(), d) + seq![days.last()]
    }
}

/// The distinct day numbers of an item sequence, in ascending order.
pub open spec fn spec_days(items: Seq<RawMenuItem>) -> Seq<int>
    decreases items.len(),
{
    if items.len() == 0 {
        Seq::empty()
    } else {
        spec_insert_day(spec_days(items.drop_last()), day_of(items.last()))
    }
}

pub open spec fn strictly_sorted(days: Seq<int>) -> bool {
    forall|i: int, j: int| 0 <= i < j < days.len() ==> days[i] < days[j]
}

proof fn lemma_insert_day_sorted(days: Seq<int>, d: int)
    requires
        strictly_sorted(days),
    ensures
        strictly_sorted(spec_insert_day(days, d)),
        forall|x: int|
            #[trigger] spec_insert_day(days, d).contains(x) <==> (days.contains(x) || x == d),
        spec_insert_day(days, d).len() >= days.len(),
    decreases days.len(),
{
    let out = spec_insert_day(days, d);
    if days.len() == 0 {
        assert(out =~= seq![d]);
        assert forall|x: int| out.contains(x) <==> (days.contains(x) || x == d) by {
            if out.contains(x) {
                assert(out[0] == d);
            }
            if x == d {
                assert(out[0] == x);
            }
        }
    } else if d > days.last() {
        assert(out == days + seq![d]);
        assert forall|i: int, j: int| 0 <= i < j < out.len() implies out[i] < out[j] by {
            if j < days.len() {
                assert(out[i] == days[i] && out[j] == days[j]);
            } else {
                assert(out[j] == d);
                assert(out[i] == days[i]);
                if i < days.len() - 1 {
                    assert(days[i] < days[days.len() - 1]);
                }
            }
        }
        assert forall|x: int| out.contains(x) <==> (days.contains(x) || x == d) by {
            if out.contains(x) {
                let k = choose|k: int| 0 <= k < out.len() && out[k] == x;
                if k < days.len() {
                    assert(days[k] == x);
                } else {
                    assert(x == d);
                }
            }
            if days.contains(x) {
                let k = choose|k: int| 0 <= k < days.len() && days[k] == x;
                assert(out[k] == x);
            }
            if x == d {
                assert(out[days.len() as int] == x);
            }
        }
    } else if d == days.last() {
        assert forall|x: int| out.contains(x) <==> (days.contains(x) || x == d) by {
            if x == d {
                assert(days[days.len() - 1] == x);
            }
        }
    } else {
        let rest = days.drop_last();
        assert(strictly_sorted(rest));
        lemma_insert_day_sorted(rest, d);
        let sub = spec_insert_day(rest, d);
        assert(out == sub + seq![days.last()]);
        // every element of sub is below days.last()
        assert forall|k: int| 0 <= k < sub.len() implies sub[k] < days.last() by {
            assert(sub.contains(sub[k]));
            if sub[k] == d {
            } else {
                assert(rest.contains(sub[k]));
                let m = choose|m: int| 0 <= m < rest.len() && rest[m] == sub[k];
                assert(days[m] < days.last());
            }
        }
        assert forall|i: int, j: int| 0 <= i < j < out.len() implies out[i] < out[j] by {
            if j < sub.len() {
                assert(out[i] == sub[i] && out[j] == sub[j]);
            } else {
                assert(out[j] == days.last());
                assert(out[i] == sub[i]);
            }
        }
        assert forall|x: int| out.contains(x) <==> (days.contains(x) || x == d) by {
            if out.contains(x) {
                let k = choose|k: int| 0 <= k < out.len() && out[k] == x;
                if k < sub.len() {
                    assert(sub.contains(x));
                    if x != d {
                        assert(rest.contains(x));
                        let m = choose|m: int| 0 <= m < rest.len() && rest[m] == x;
                        assert(days[m] == x);
                    }
                } else {
                    assert(x == days.last());
                    assert(days[days.len() - 1] == x);
                }
            }
            if days.contains(x) {
                let k = choose|k: int| 0 <= k < days.len() && days[k] == x;
                if k < days.len() - 1 {
                    assert(rest[k] == x);
                    assert(sub.contains(x));
                    let m = choose|m: int| 0 <= m < sub.len() && sub[m] == x;
                    assert(out[m] == x);
                } else {
                    assert(out[sub.len() as int] == x);
                }
            }
            if x == d {
                assert(sub.contains(x));
                let m = choose|m: int| 0 <= m < sub.len() && sub[m] == x;
                assert(out[m] == x);
            }
        }
    }
}

/// The grouped day keys of any raw item sequence are strictly ascending, so
/// no two groups share a date, and they are exactly the day numbers occurring
/// in the sequence.
pub proof fn lemma_grouped_days_ascending(items: Seq<RawMenuItem>)
    ensures
        strictly_sorted(spec_days(items)),
        forall|x: int|
            #[trigger] spec_days(items).contains(x) <==> exists|k: int|
                0 <= k < items.len() && day_of(#[trigger] items[k]) == x,
    decreases items.len(),
{
    if items.len() == 0 {
    } else {
        let rest = items.drop_last();
        lemma_grouped_days_ascending(rest);
        lemma_insert_day_sorted(spec_days(rest), day_of(items.last()));
        assert forall|x: int|
            #[trigger] spec_days(items).contains(x) <==> exists|k: int|
                0 <= k < items.len() && day_of(#[trigger] items[k]) == x by {
            if spec_days(items).contains(x) {
                if x == day_of(items.last()) {
                    assert(day_of(items[items.len() - 1]) == x);
                } else {
                    assert(spec_days(rest).contains(x));
                    let k = choose|k: int| 0 <= k < rest.len() && day_of(#[trigger] rest[k]) == x;
                    assert(day_of(items[k]) == x);
                }
            }
            if exists|k: int| 0 <= k < items.len() && day_of(#[trigger] items[k]) == x {
                let k = choose|k: int| 0 <= k < items.len() && day_of(#[trigger] items[k]) == x;
                if k < items.len() - 1 {
                    assert(day_of(rest[k]) == x);
                    assert(spec_days(rest).contains(x));
                } else {
                    assert(x == day_of(items.last()));
                }
            }
        }
    }
}

proof fn lemma_insert_day_found(days: Seq<int>, d: int, j: int)
    requires
        strictly_sorted(days),
        0 <= j < days.len(),
        days[j] == d,
    ensures
        spec_insert_day(days, d) == days,
    decreases days.len(),
{
    if j == days.len() - 1 {
    } else {
        assert(days[j] < days.last());
        lemma_insert_day_found(days.drop_last(), d, j);
        assert(days.drop_last() + seq![days.last()] =~= days);
    }
}

proof fn lemma_insert_day_new(days: Seq<int>, d: int, j: int)
    requires
        strictly_sorted(days),
        0 <= j <= days.len(),
        forall|i: int| 0 <= i < j ==> days[i] < d,
        j < days.len() ==> days[j] > d,
    ensures
        spec_insert_day(days, d) == days.subrange(0, j) + seq![d] + days.subrange(
            j,
            days.len() as int,
        ),
    decreases days.len(),
{
    let want = days.subrange(0, j) + seq![d] + days.subrange(j, days.len() as int);
    if days.len() == 0 {
        assert(want =~= seq![d]);
    } else if j == days.len() {
        assert(days.last() < d);
        assert(want =~= days + seq![d]);
    } else {
        assert(days[j] <= days.last());
        assert(d < days.last());
        let rest = days.drop_last();
        assert(strictly_sorted(rest));
        lemma_insert_day_new(rest, d, j);
        assert(spec_insert_day(days, d) == spec_insert_day(rest, d) + seq![days.last()]);
        assert(rest.subrange(0, j) =~= days.subrange(0, j));
        assert(rest.subrange(j, rest.len() as int) + seq![days.last()] =~= days.subrange(
            j,
            days.len() as int,
        ));
        assert(spec_insert_day(days, d) =~= want);
    }
}

proof fn lemma_filter_no_match(s: Seq<RawMenuItem>, pred: spec_fn(RawMenuItem) -> bool)
    requires
        forall|k: int| 0 <= k < s.len() ==> !pred(#[trigger] s[k]),
    ensures
        s.filter(pred) == Seq::<RawMenuItem>::empty(),
    decreases s.len(),
{
    reveal(Seq::filter);
    if s.len() > 0 {
        lemma_filter_no_match(s.drop_last(), pred);
    }
}

/// The day keys of a group sequence.
pub open spec fn group_days(r: Seq<DayGroup>) -> Seq<int> {
    r.map_values(|g: DayGroup| g.day as int)
}

/// The predicate selecting the items of day `d`.
pub open spec fn day_pred(d: int) -> spec_fn(RawMenuItem) -> bool {
    |it: RawMenuItem| day_of(it) == d
}

/// Groups raw items by their UTC day number. The groups carry the distinct
/// day numbers in strictly ascending order; each group holds exactly the
/// items of its day, in their original relative order, and is never empty.
pub fn group_by_day(items: Vec<RawMenuItem>) -> (r: Vec<DayGroup>)
    ensures
        group_days(r@) == spec_days(items@),
        forall|i: int|
            0 <= i < r@.len() ==> (#[trigger] r@[i]).items@ == items@.filter(
                day_pred(r@[i].day as int),
            ),
        forall|i: int| 0 <= i < r@.len() ==> (#[trigger] r@[i]).items@.len() > 0,
{
    let ghost all = items@;
    let mut rest = items;
    let mut r: Vec<DayGroup> = Vec::new();
    let ghost mut done: Seq<RawMenuItem> = Seq::empty();
    proof {
        assert(all =~= done + rest@);
        assert(group_days(r@) =~= spec_days(done));
    }
    while rest.len() > 0
        invariant
            all == done + rest@,
            group_days(r@) == spec_days(done),
            strictly_sorted(group_days(r@)),
            forall|i: int|
                0 <= i < r@.len() ==> (#[trigger] r@[i]).items@ == done.filter(
                    day_pred(r@[i].day as int),
                ),
            forall|i: int| 0 <= i < r@.len() ==> (#[trigger] r@[i]).items@.len() > 0,
        decreases rest.len(),
    {
        let ghost rest_before = rest@;
        let it = rest.remove(0);
        let ghost itg = it;
        let d = day_of_timestamp(it.date);
        proof {
            assert(rest_before =~= seq![itg] + rest@);
            assert(d as int == day_of(itg));
        }
        let ghost days = group_days(r@);
        let ghost r_before = r@;
        let mut j: usize = 0;
        while j < r.len() && r[j].day < d
            invariant
                j <= r.len(),
                r@ == r_before,
                forall|i: int| 0 <= i < j ==> (#[trigger] r@[i]).day < d,
            decreases r.len() - j,
        {
            j += 1;
        }
        proof {
            assert(forall|i: int| 0 <= i < j ==> days[i] < d as int);
            assert(j < days.len() ==> days[j as int] >= d as int);
        }
        if j < r.len() && r[j].day == d {
            let mut g = r.remove(j);
            g.items.push(it);
            r.insert(j, g);
            proof {
                lemma_insert_day_found(days, d as int, j as int);
                assert(r@ =~= r_before.update(j as int, r@[j as int]));
                assert(group_days(r@) =~= days);
                assert(spec_days(done.push(itg)) == spec_insert_day(spec_days(done), day_of(itg)))
                    by {
                    assert(done.push(itg).drop_last() =~= done);
                };
                assert(group_days(r@) == spec_days(done.push(itg)));
                assert forall|i: int| 0 <= i < r@.len() implies (#[trigger] r@[i]).items@
                    == done.push(itg).filter(day_pred(r@[i].day as int)) by {
                    let pred = day_pred(r@[i].day as int);
                    done.lemma_filter_push(itg, pred);
                    if i == j {
                        assert(pred(itg));
                        assert(r@[i].items@ =~= done.filter(pred).push(itg));
                    } else {
                        assert(days[i] != days[j as int]);
                        assert(!pred(itg));
                        assert(r@[i] == r_before[i]);
                    }
                }
            }
        } else {
            let mut single: Vec<RawMenuItem> = Vec::new();
            single.push(it);
            r.insert(j, DayGroup { day: d, items: single });
            proof {
                lemma_insert_day_new(days, d as int, j as int);
                assert(group_days(r@) =~= days.subrange(0, j as int) + seq![d as int]
                    + days.subrange(j as int, days.len() as int));
                assert(spec_days(done.push(itg)) == spec_insert_day(spec_days(done), day_of(itg)))
                    by {
                    assert(done.push(itg).drop_last() =~= done);
                };
                assert(group_days(r@) == spec_days(done.push(itg)));
                lemma_insert_day_sorted(days, d as int);
                // the new day is not a day of any already-done item
                assert(!days.contains(d as int)) by {
                    if days.contains(d as int) {
                        let k = choose|k: int| 0 <= k < days.len() && days[k] == d as int;
                        if k < j {
                            assert(days[k] < d as int);
                        } else {
                            assert(days[j as int] <= days[k]);
                        }
                    }
                };
                lemma_grouped_days_ascending(done);
                assert forall|i: int| 0 <= i < r@.len() implies (#[trigger] r@[i]).items@
                    == done.push(itg).filter(day_pred(r@[i].day as int)) by {
                    let pred = day_pred(r@[i].day as int);
                    done.lemma_filter_push(itg, pred);
                    if i == j {
                        assert(forall|k: int|
                            0 <= k < done.len() ==> spec_days(done).contains(
                                day_of(#[trigger] done[k]),
                            ));
                        assert(forall|k: int| 0 <= k < done.len() ==> !pred(#[trigger] done[k]));
                        lemma_filter_no_match(done, pred);
                        assert(pred(itg));
                        assert(r@[i].items@ =~= done.filter(pred).push(itg));
                    } else if i < j {
                        assert(r@[i] == r_before[i]);
                        assert(days[i] < d as int);
                        assert(!pred(itg));
                    } else {
                        assert(r@[i] == r_before[i - 1]);
                        assert(days[j as int] > d as int);
                        assert(days[i - 1] >= days[j as int]) by {
                            if i - 1 > j {
                                assert(days[j as int] < days[i - 1]);
                            }
                        };
                        assert(!pred(itg));
                    }
                }
            }
        }
        proof {
            done = done.push(itg);
            assert(all =~= done + rest@);
        }
    }
    proof {
        assert(done =~= all);
    }
    r
}

/// The day number of a timestamp: division by the seconds of a day, rounded
/// towards negative infinity.
pub fn day_of_timestamp(ts: i64) -> (r: i64)
    ensures
        r == ts as int / (SECONDS_PER_DAY as int),
{
    if ts >= 0 {
        ((ts as u64) / 86400u64) as i64
    } else {
        let m: i64 = -(ts + 1);
        let q: i64 = ((m as u64) / 86400u64) as i64;
        proof {
            let t = ts as int;
            let mm = m as int;
            let qq = q as int;
            vstd::arithmetic::div_mod::lemma_fundamental_div_mod(mm, 86400);
            let r0 = mm % 86400;
            vstd::arithmetic::div_mod::lemma_fundamental_div_mod_converse(
                t,
                86400,
                -qq - 1,
                86399 - r0,
            );
        }
        -q - 1
    }
}

/// The note of one allergen code: its label, followed — when the dish lists
/// specific allergens and some of them carry this code as a prefix — by the
/// labels of those, comma-joined in parentheses.
pub open spec fn spec_allergic_note(a: Seq<char>, specifics: Option<Seq<Seq<char>>>) -> Seq<char> {
    let base = spec_allergic_descriptive(a);
    match specifics {
        Option::None => base,
        Option::Some(sp) => {
            let matched = sp.filter(|v: Seq<char>| spec_starts_with(v, a)).map_values(
                |v: Seq<char>| spec_allergic_descriptive(v),
            );
            if matched.len() == 0 {
                base
            } else {
                base + " ("@ + spec_join(matched, ", "@) + ")"@
            }
        },
    }
}

/// The note list of a dish: the dish-type label when there is one, then one
/// note per allergen code, then one label per additive code, all in input
/// order and without de-duplication.
pub open spec fn spec_notes(d: RawDish) -> Seq<Seq<char>> {
    let type_part = match spec_type_descriptive(d.dish_type) {
        Option::Some(s) => seq![s],
        Option::None => Seq::empty(),
    };
    let allergic_part = d.allergics.deep_view().map_values(
        |a: Seq<char>| spec_allergic_note(a, d.specific_allergics.deep_view()),
    );
    let additive_part = d.additionals.deep_view().map_values(
        |a: Seq<char>| spec_additive_descriptive(a),
    );
    type_part + allergic_part + additive_part
}

fn allergic_note(a: &String, specifics: &Option<Vec<String>>) -> (r: String)
    ensures
        r@ == spec_allergic_note(a@, specifics.deep_view()),
{
    let base = allergic_descriptive(a.as_str()).to_owned();
    match specifics {
        None => base,
        Some(sp) => {
            let ghost spv = sp.deep_view();
            let ghost pred = |v: Seq<char>| spec_starts_with(v, a@);
            let ghost f = |v: Seq<char>| spec_allergic_descriptive(v);
            let mut matched: Vec<String> = Vec::new();
            let mut i: usize = 0;
            while i < sp.len()
                invariant
                    i <= sp.len(),
                    spv.len() == sp.len(),
                    spv == sp.deep_view(),
                    pred == (|v: Seq<char>| spec_starts_with(v, a@)),
                    f == (|v: Seq<char>| spec_allergic_descriptive(v)),
                    matched.deep_view() == spv.subrange(0, i as int).filter(pred).map_values(f),
                decreases sp.len() - i,
            {
                proof {
                    assert(spv[i as int] == sp@[i as int]@);
                    assert(spv.subrange(0, i + 1) =~= spv.subrange(0, i as int).push(
                        spv[i as int],
                    ));
                    spv.subrange(0, i as int).lemma_filter_push(spv[i as int], pred);
                }
                if str_starts_with(sp[i].as_str(), a.as_str()) {
                    matched.push(allergic_descriptive(sp[i].as_str()).to_owned());
                    proof {
                        let before = spv.subrange(0, i as int).filter(pred);
                        assert(matched.deep_view() =~= before.map_values(f).push(
                            f(spv[i as int]),
                        ));
                        assert(before.push(spv[i as int]).map_values(f) =~= before.map_values(
                            f,
                        ).push(f(spv[i as int])));
                    }
                } else {
                }
                i += 1;
            }
            proof {
                assert(spv.subrange(0, spv.len() as int) =~= spv);
            }
            if matched.len() == 0 {
                proof {
                    assert(matched.deep_view().len() == matched@.len());
                }
                base
            } else {
                let mut out = base;
                out.append(" (");
                let joined = join_strings(&matched, ", ");
                out.append(joined.as_str());
                out.append(")");
                proof {
                    assert(out@ =~= spec_allergic_note(a@, specifics.deep_view()));
                }
                out
            }
        },
    }
}

/// Builds the note list of a dish from the descriptive tables: the dish-type
/// label, the allergen notes, then the additive labels.
pub fn notes_for_dish(dish: &RawDish) -> (r: Vec<String>)
    ensures
        r.deep_view() == spec_notes(*dish),
{
    let mut notes: Vec<String> = Vec::new();
    let ghost type_part: Seq<Seq<char>> = match spec_type_descriptive(dish.dish_type) {
        Option::Some(s) => seq![s],
        Option::None => Seq::empty(),
    };
    let ghost fa = |a: Seq<char>| spec_allergic_note(a, dish.specific_allergics.deep_view());
    let ghost fd = |a: Seq<char>| spec_additive_descriptive(a);
    let ghost av = dish.allergics.deep_view();
    let ghost dv = dish.additionals.deep_view();
    match type_descriptive(&dish.dish_type) {
        Some(t) => {
            notes.push(t);
        },
        None => {},
    }
    proof {
        assert(notes.deep_view() =~= type_part);
    }
    let mut i: usize = 0;
    while i < dish.allergics.len()
        invariant
            i <= dish.allergics.len(),
            av.len() == dish.allergics.len(),
            av == dish.allergics.deep_view(),
            fa == (|a: Seq<char>| spec_allergic_note(a, dish.specific_allergics.deep_view())),
            notes.deep_view() == type_part + av.subrange(0, i as int).map_values(fa),
        decreases dish.allergics.len() - i,
    {
        let note = allergic_note(&dish.allergics[i], &dish.specific_allergics);
        let ghost prev_dv = notes.deep_view();
        let ghost notev = note@;
        notes.push(note);
        proof {
            assert(av[i as int] == dish.allergics@[i as int]@);
            assert(notev == fa(av[i as int]));
            assert(notes.deep_view() =~= prev_dv.push(notev));
            assert(av.subrange(0, i + 1) =~= av.subrange(0, i as int).push(av[i as int]));
            let before = av.subrange(0, i as int);
            assert(before.push(av[i as int]).map_values(fa) =~= before.map_values(fa).push(
                fa(av[i as int]),
            ));
            assert(prev_dv.push(notev) =~= type_part + av.subrange(0, i + 1).map_values(fa));
        }
        i += 1;
    }
    proof {
        assert(av.subrange(0, av.len() as int) =~= av);
    }
    let ghost allergic_part = av.map_values(fa);
    let mut k: usize = 0;
    while k < dish.additionals.len()
        invariant
            k <= dish.additionals.len(),
            dv.len() == dish.additionals.len(),
            dv == dish.additionals.deep_view(),
            fd == (|a: Seq<char>| spec_additive_descriptive(a)),
            notes.deep_view() == type_part + allergic_part + dv.subrange(0, k as int).map_values(
                fd,
            ),
        decreases dish.additionals.len() - k,
    {
        let label = additive_descriptive(dish.additionals[k].as_str()).to_owned();
        let ghost prev_dv = notes.deep_view();
        let ghost labelv = label@;
        notes.push(label);
        proof {
            assert(dv[k as int] == dish.additionals@[k as int]@);
            assert(labelv == fd(dv[k as int]));
            assert(notes.deep_view() =~= prev_dv.push(labelv));
            assert(dv.subrange(0, k + 1) =~= dv.subrange(0, k as int).push(dv[k as int]));
            let before = dv.subrange(0, k as int);
            assert(before.push(dv[k as int]).map_values(fd) =~= before.map_values(fd).push(
                fd(dv[k as int]),
            ));
            assert(prev_dv.push(labelv) =~= type_part + allergic_part + dv.subrange(0, k + 1)
                .map_values(fd));
        }
        k += 1;
    }
    proof {
        assert(dv.subrange(0, dv.len() as int) =~= dv);
        assert(notes.deep_view() =~= spec_notes(*dish));
    }
    notes
}

} // verus!
