//! Assembly of a complete OpenMensa document from raw menu items: one day per
//! date group, each open with a single "Mensa" category, one meal per dish
//! with its note list and its student/guest price pair. Calendar-date text is
//! obtained from the chrono crate; a timestamp it cannot decode aborts the
//! whole build.
use crate::aggregate::DayGroup;
use crate::aggregate::RawDish;
use crate::aggregate::RawMenuItem;
use crate::aggregate::SECONDS_PER_DAY;
use crate::aggregate::day_of;
use crate::aggregate::day_pred;
use crate::aggregate::group_by_day;
use crate::aggregate::group_days;
use crate::aggregate::notes_for_dish;
use crate::aggregate::spec_days;
use crate::aggregate::spec_notes;
use crate::model::Canteen;
use crate::model::Category;
use crate::model::Day;
use crate::model::DayContent;
use crate::model::Meal;
use crate::model::OpenMensa;
use crate::model::Price;
use crate::model::PriceRole;
use vstd::prelude::*;
use vstd::string::StringExecFns;

verus! {

broadcast use vstd::seq_lib::group_seq_lib_default;

/// A raw item's timestamp could not be converted to a calendar date; the
/// whole translation is aborted.
#[derive(Clone, Copy, PartialEq, Eq, Structural, Debug)]
pub struct DateDecodeError;

/// The greatest timestamp for which date decoding is promised to succeed:
/// the last second of the year 9999.
pub const MAX_DECODABLE_TIMESTAMP: i64 = 253402300799;

/// The calendar-date text ("YYYY-MM-DD") of a UTC day number.
pub uninterp spec fn date_str_of(day: int) -> Seq<char>;

/// Relies on chrono: `DateTime::<Utc>::from_timestamp_secs` decodes a UTC
/// timestamp, `date_naive` takes its calendar date, and `NaiveDate`'s
/// `Display` writes it. The resulting text is a function of the UTC day
/// number (the timestamp divided by the seconds of a day, rounded towards
/// negative infinity) alone, and decoding succeeds at least for timestamps
/// from 1970 through the year 9999 — chrono's documented range reaches far
/// beyond either end.
#[verifier::external_body]
fn timestamp_date_string(ts: i64) -> (r: Option<String>)
    ensures
        r matches Some(s) ==> s@ == date_str_of(ts as int / (SECONDS_PER_DAY as int)),
        0 <= ts <= MAX_DECODABLE_TIMESTAMP ==> r is Some,
{
    match chrono::DateTime::<chrono::Utc>::from_timestamp_secs(ts) {
        Some(dt) => Some(dt.date_naive().to_string()),
        None => None,
    }
}

/// The dishes of an item sequence, in order.
pub open spec fn dishes_of(items: Seq<RawMenuItem>) -> Seq<RawDish> {
    items.map_values(|it: RawMenuItem| it.dish)
}

/// A meal renders one dish: its name, its notes, and exactly the two prices
/// student (from the dish's student price) and other (from its guest price).
pub open spec fn meal_matches(m: Meal, d: RawDish) -> bool {
    &&& m.name@ == d.name@
    &&& m.notes.deep_view() == spec_notes(d)
    &&& m.prices@.len() == 2
    &&& m.prices@[0].role == PriceRole::Student
    &&& m.prices@[0].value@ == d.student_price@
    &&& m.prices@[1].role == PriceRole::Other
    &&& m.prices@[1].value@ == d.guest_price@
}

/// A day renders one date group: the date text of its day number, the open
/// variant, a single category named "Mensa", one meal per dish in order.
pub open spec fn day_matches(day: Day, dnum: int, dishes: Seq<RawDish>) -> bool {
    &&& day.date@ == date_str_of(dnum)
    &&& day.content matches DayContent::Open { category } && {
        &&& category@.len() == 1
        &&& category@[0].name@ == "Mensa"@
        &&& category@[0].meal@.len() == dishes.len()
        &&& forall|k: int|
            0 <= k < dishes.len() ==> meal_matches(#[trigger] category@[0].meal@[k], dishes[k])
    }
}

proof fn lemma_filter_subset(s: Seq<RawMenuItem>, pred: spec_fn(RawMenuItem) -> bool)
    ensures
        forall|j: int|
            0 <= j < s.filter(pred).len() ==> s.contains(#[trigger] s.filter(pred)[j]),
    decreases s.len(),
{
    reveal(Seq::filter);
    if s.len() > 0 {
        lemma_filter_subset(s.drop_last(), pred);
        assert forall|j: int|
            0 <= j < s.filter(pred).len() implies s.contains(#[trigger] s.filter(pred)[j]) by {
            let f = s.filter(pred);
            let fr = s.drop_last().filter(pred);
            if j < fr.len() {
                assert(fr[j] == f[j]);
                let m = choose|m: int| 0 <= m < s.drop_last().len() && s.drop_last()[m] == fr[j];
                assert(s[m] == f[j]);
            } else {
                assert(f[j] == s.last());
                assert(s[s.len() - 1] == f[j]);
            }
        }
    }
}

fn build_meal(dish: &RawDish) -> (m: Meal)
    ensures
        meal_matches(m, *dish),
{
    let mut prices: Vec<Price> = Vec::new();
    prices.push(Price { value: dish.student_price.clone(), role: PriceRole::Student });
    prices.push(Price { value: dish.guest_price.clone(), role: PriceRole::Other });
    Meal { name: dish.name.clone(), notes: notes_for_dish(dish), prices }
}

fn build_day(g: &DayGroup, date: String) -> (d: Day)
    requires
        date@ == date_str_of(g.day as int),
        g.items@.len() > 0,
    ensures
        day_matches(d, g.day as int, dishes_of(g.items@)),
{
    let mut meals: Vec<Meal> = Vec::new();
    let mut mi: usize = 0;
    while mi < g.items.len()
        invariant
            mi <= g.items.len(),
            meals@.len() == mi,
            forall|k: int|
                0 <= k < mi ==> meal_matches(#[trigger] meals@[k], g.items@[k].dish),
        decreases g.items.len() - mi,
    {
        let meal = build_meal(&g.items[mi].dish);
        meals.push(meal);
        mi += 1;
    }
    let mut cats: Vec<Category> = Vec::new();
    cats.push(Category { name: "Mensa".to_owned(), meal: meals });
    let d = Day { date, content: DayContent::Open { category: cats } };
    proof {
        assert(dishes_of(g.items@).len() == g.items@.len());
        assert forall|k: int|
            0 <= k < dishes_of(g.items@).len() implies meal_matches(
            #[trigger] (d.content->Open_category)@[0].meal@[k],
            dishes_of(g.items@)[k],
        ) by {
            assert(dishes_of(g.items@)[k] == g.items@[k].dish);
        }
    }
    d
}

/// Builds the whole document from raw items: version "2.1", the given parser
/// version, an otherwise empty canteen whose days are the date groups in
/// strictly ascending order. Fails with `DateDecodeError` only when a
/// timestamp cannot be decoded to a calendar date; any item sequence whose
/// timestamps lie between 1970 and the year 9999 builds successfully.
pub fn build_openmensa(items: Vec<RawMenuItem>, parser_version: Option<String>) -> (r: Result<
    OpenMensa,
    DateDecodeError,
>)
    ensures
        r matches Ok(doc) ==> {
            &&& doc.version@ == "2.1"@
            &&& doc.parser_version == parser_version
            &&& doc.canteen.name is None
            &&& doc.canteen.address is None
            &&& doc.canteen.city is None
            &&& doc.canteen.phone is None
            &&& doc.canteen.email is None
            &&& doc.canteen.location is None
            &&& doc.canteen.availability is None
            &&& doc.canteen.times is None
            &&& doc.canteen.feeds@.len() == 0
            &&& doc.canteen.days@.len() == spec_days(items@).len()
            &&& forall|i: int|
                0 <= i < doc.canteen.days@.len() ==> day_matches(
                    #[trigger] doc.canteen.days@[i],
                    spec_days(items@)[i],
                    dishes_of(items@.filter(day_pred(spec_days(items@)[i]))),
                )
        },
        (forall|k: int|
            0 <= k < items@.len() ==> 0 <= (#[trigger] items@[k]).date
                <= MAX_DECODABLE_TIMESTAMP) ==> r is Ok,
{
    let ghost items0 = items@;
    let groups = group_by_day(items);
    let mut days: Vec<Day> = Vec::new();
    let mut gi: usize = 0;
    while gi < groups.len()
        invariant
            gi <= groups.len(),
            days@.len() == gi,
            forall|i: int|
                0 <= i < gi ==> day_matches(
                    #[trigger] days@[i],
                    group_days(groups@)[i],
                    dishes_of(groups@[i].items@),
                ),
        decreases groups.len() - gi,
    {
        let g = &groups[gi];
        let ts = g.items[0].date;
        proof {
            assert(g.items@ == items0.filter(day_pred(g.day as int)));
            items0.lemma_filter_pred(day_pred(g.day as int), 0);
            assert(day_of(g.items@[0]) == g.day as int);
            assert(ts as int / (SECONDS_PER_DAY as int) == g.day as int);
        }
        match timestamp_date_string(ts) {
            None => {
                proof {
                    lemma_filter_subset(items0, day_pred(g.day as int));
                    assert(items0.contains(g.items@[0]));
                    let k = choose|k: int| 0 <= k < items0.len() && items0[k] == g.items@[0];
                    assert(!(0 <= items0[k].date <= MAX_DECODABLE_TIMESTAMP));
                }
                return Err(DateDecodeError);
            },
            Some(date) => {
                let day = build_day(g, date);
                days.push(day);
            },
        }
        gi += 1;
    }
    let mut canteen = Canteen::empty();
    canteen.days = days;
    let doc = OpenMensa { version: "2.1".to_owned(), parser_version, canteen };
    proof {
        assert(group_days(groups@) == spec_days(items0));
        assert forall|i: int|
            0 <= i < doc.canteen.days@.len() implies day_matches(
            #[trigger] doc.canteen.days@[i],
            spec_days(items0)[i],
            dishes_of(items0.filter(day_pred(spec_days(items0)[i]))),
        ) by {
            assert(group_days(groups@)[i] == groups@[i].day as int);
            assert(groups@[i].items@ == items0.filter(day_pred(groups@[i].day as int)));
        }
    }
    Ok(doc)
}

} // verus!
