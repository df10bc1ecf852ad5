//! Rendering of the feed model to the OpenMensa v2 wire format. Every model
//! node has a spec function giving its exact event sequence; the writers
//! append precisely the rendering of those events. Optional fields that are
//! absent contribute no events at all.
use crate::model::Availability;
use crate::model::Canteen;
use crate::model::Category;
use crate::model::Day;
use crate::model::DayContent;
use crate::model::Feed;
use crate::model::Location;
use crate::model::Meal;
use crate::model::OpenMensa;
use crate::model::Price;
use crate::model::Schedule;
use crate::model::Times;
use crate::model::Weekday;
use crate::model::spec_availability_str;
use crate::model::spec_price_role_str;
use crate::strutil::push_i32_dec;
use crate::strutil::spec_i32_str;
use crate::xml::Attr;
use crate::xml::XmlEvent;
use crate::xml::elem_named;
use crate::xml::no_elem_named;
use crate::xml::events_text_elem;
use crate::xml::render;
use crate::xml::render_event;
use crate::xml::tag_event;
use crate::xml::attrs_view;
use crate::xml::write_end;
use crate::xml::write_escaped;
use crate::xml::write_tag;
use crate::xml::write_text_elem;
use vstd::prelude::*;
use vstd::string::StringExecFns;
use vstd::string::StrSliceExecFns;

verus! {

broadcast use crate::xml::lemma_render_concat, crate::xml::lemma_render_one;

/// The wire text of a boolean attribute value.
pub open spec fn spec_bool_str(b: bool) -> Seq<char> {
    if b {
        "true"@
    } else {
        "false"@
    }
}

/// Events of `<name>text</name>` for a present field, none for an absent one.
pub open spec fn events_opt_text_elem(name: Seq<char>, o: Option<String>) -> Seq<XmlEvent> {
    match o {
        Option::Some(s) => events_text_elem(name, s@),
        Option::None => Seq::empty(),
    }
}

/// One attribute for a present string field, none for an absent one.
pub open spec fn opt_attr(name: Seq<char>, o: Option<String>) -> Seq<Attr> {
    match o {
        Option::Some(s) => seq![Attr { name, value: s@ }],
        Option::None => Seq::empty(),
    }
}

/// One attribute for a present boolean field, none for an absent one.
pub open spec fn opt_attr_bool(name: Seq<char>, o: Option<bool>) -> Seq<Attr> {
    match o {
        Option::Some(b) => seq![Attr { name, value: spec_bool_str(b) }],
        Option::None => Seq::empty(),
    }
}

/// One attribute for a present priority, none for an absent one.
pub open spec fn opt_attr_priority(o: Option<i32>) -> Seq<Attr> {
    match o {
        Option::Some(v) => seq![Attr { name: "priority"@, value: spec_i32_str(v as int) }],
        Option::None => Seq::empty(),
    }
}

pub open spec fn events_of_price(p: Price) -> Seq<XmlEvent> {
    seq![
        XmlEvent::Start {
            name: "price"@,
            attrs: seq![Attr { name: "role"@, value: spec_price_role_str(p.role) }],
        },
    ] + seq![XmlEvent::Text { text: p.value@ }] + seq![XmlEvent::End { name: "price"@ }]
}

pub open spec fn events_of_prices(prices: Seq<Price>) -> Seq<XmlEvent>
    decreases prices.len(),
{
    if prices.len() == 0 {
        Seq::empty()
    } else {
        events_of_prices(prices.drop_last()) + events_of_price(prices.last())
    }
}

pub open spec fn events_of_notes(notes: Seq<Seq<char>>) -> Seq<XmlEvent>
    decreases notes.len(),
{
    if notes.len() == 0 {
        Seq::empty()
    } else {
        events_of_notes(notes.drop_last()) + events_text_elem("note"@, notes.last())
    }
}

pub open spec fn events_of_meal(m: Meal) -> Seq<XmlEvent> {
    seq![XmlEvent::Start { name: "meal"@, attrs: Seq::empty() }] + events_text_elem(
        "name"@,
        m.name@,
    ) + events_of_notes(m.notes.deep_view()) + events_of_prices(m.prices@) + seq![
        XmlEvent::End { name: "meal"@ },
    ]
}

pub open spec fn events_of_meals(meals: Seq<Meal>) -> Seq<XmlEvent>
    decreases meals.len(),
{
    if meals.len() == 0 {
        Seq::empty()
    } else {
        events_of_meals(meals.drop_last()) + events_of_meal(meals.last())
    }
}

pub open spec fn events_of_category(c: Category) -> Seq<XmlEvent> {
    seq![
        XmlEvent::Start { name: "category"@, attrs: seq![Attr { name: "name"@, value: c.name@ }] },
    ] + events_of_meals(c.meal@) + seq![XmlEvent::End { name: "category"@ }]
}

pub open spec fn events_of_categories(cs: Seq<Category>) -> Seq<XmlEvent>
    decreases cs.len(),
{
    if cs.len() == 0 {
        Seq::empty()
    } else {
        events_of_categories(cs.drop_last()) + events_of_category(cs.last())
    }
}

/// A day's content: either its categories, or the single closed marker —
/// never both.
pub open spec fn events_of_day_content(c: DayContent) -> Seq<XmlEvent> {
    match c {
        DayContent::Open { category } => events_of_categories(category@),
        DayContent::Closed { .. } => seq![
            XmlEvent::EmptyElem { name: "closed"@, attrs: Seq::empty() },
        ],
    }
}

pub open spec fn events_of_day(d: Day) -> Seq<XmlEvent> {
    seq![XmlEvent::Start { name: "day"@, attrs: seq![Attr { name: "date"@, value: d.date@ }] }]
        + events_of_day_content(d.content) + seq![XmlEvent::End { name: "day"@ }]
}

pub open spec fn events_of_days(ds: Seq<Day>) -> Seq<XmlEvent>
    decreases ds.len(),
{
    if ds.len() == 0 {
        Seq::empty()
    } else {
        events_of_days(ds.drop_last()) + events_of_day(ds.last())
    }
}

pub open spec fn events_of_weekday(name: Seq<char>, w: Weekday) -> Seq<XmlEvent> {
    seq![
        XmlEvent::EmptyElem {
            name,
            attrs: opt_attr("open"@, w.open) + opt_attr_bool("closed"@, w.closed),
        },
    ]
}

pub open spec fn events_of_opt_weekday(name: Seq<char>, o: Option<Weekday>) -> Seq<XmlEvent> {
    match o {
        Option::Some(w) => events_of_weekday(name, w),
        Option::None => Seq::empty(),
    }
}

pub open spec fn events_of_times(t: Times) -> Seq<XmlEvent> {
    seq![XmlEvent::Start { name: "times"@, attrs: seq![Attr { name: "type"@, value: t.kind@ }] }]
        + events_of_opt_weekday("monday"@, t.monday) + events_of_opt_weekday("tuesday"@, t.tuesday)
        + events_of_opt_weekday("wednesday"@, t.wednesday) + events_of_opt_weekday(
        "thursday"@,
        t.thursday,
    ) + events_of_opt_weekday("friday"@, t.friday) + events_of_opt_weekday("saturday"@, t.saturday)
        + events_of_opt_weekday("sunday"@, t.sunday) + seq![XmlEvent::End { name: "times"@ }]
}

pub open spec fn events_of_opt_times(o: Option<Times>) -> Seq<XmlEvent> {
    match o {
        Option::Some(t) => events_of_times(t),
        Option::None => Seq::empty(),
    }
}

pub open spec fn events_of_schedule(s: Schedule) -> Seq<XmlEvent> {
    seq![
        XmlEvent::EmptyElem {
            name: "schedule"@,
            attrs: seq![Attr { name: "hour"@, value: s.hour@ }] + opt_attr("minute"@, s.minute)
                + opt_attr("dayOfWeek"@, s.day_of_week) + opt_attr("dayOfMonth"@, s.day_of_month)
                + opt_attr("month"@, s.month) + opt_attr("retry"@, s.retry),
        },
    ]
}

pub open spec fn events_of_opt_schedule(o: Option<Schedule>) -> Seq<XmlEvent> {
    match o {
        Option::Some(s) => events_of_schedule(s),
        Option::None => Seq::empty(),
    }
}

pub open spec fn events_of_feed(f: Feed) -> Seq<XmlEvent> {
    seq![
        XmlEvent::Start {
            name: "feed"@,
            attrs: seq![Attr { name: "name"@, value: f.name@ }] + opt_attr_priority(f.priority),
        },
    ] + events_text_elem("url"@, f.url@) + events_opt_text_elem("source"@, f.source)
        + events_of_opt_schedule(f.schedule) + seq![XmlEvent::End { name: "feed"@ }]
}

pub open spec fn events_of_feeds(fs: Seq<Feed>) -> Seq<XmlEvent>
    decreases fs.len(),
{
    if fs.len() == 0 {
        Seq::empty()
    } else {
        events_of_feeds(fs.drop_last()) + events_of_feed(fs.last())
    }
}

pub open spec fn events_of_location(l: Location) -> Seq<XmlEvent> {
    seq![
        XmlEvent::EmptyElem {
            name: "location"@,
            attrs: seq![
                Attr { name: "latitude"@, value: l.latitude@ },
                Attr { name: "longitude"@, value: l.longitude@ },
            ],
        },
    ]
}

pub open spec fn events_of_opt_location(o: Option<Location>) -> Seq<XmlEvent> {
    match o {
        Option::Some(l) => events_of_location(l),
        Option::None => Seq::empty(),
    }
}

pub open spec fn events_of_opt_availability(o: Option<Availability>) -> Seq<XmlEvent> {
    match o {
        Option::Some(a) => events_text_elem("availability"@, spec_availability_str(a)),
        Option::None => Seq::empty(),
    }
}

/// Events of the whole `canteen` element, its optional fields in wire order,
/// then feeds, then days.
pub open spec fn events_of_canteen(c: Canteen) -> Seq<XmlEvent> {
    seq![XmlEvent::Start { name: "canteen"@, attrs: Seq::empty() }] + events_opt_text_elem(
        "name"@,
        c.name,
    ) + events_opt_text_elem("address"@, c.address) + events_opt_text_elem("city"@, c.city)
        + events_opt_text_elem("phone"@, c.phone) + events_opt_text_elem("email"@, c.email)
        + events_of_opt_location(c.location) + events_of_opt_availability(c.availability)
        + events_of_opt_times(c.times) + events_of_feeds(c.feeds@) + events_of_days(c.days@)
        + seq![XmlEvent::End { name: "canteen"@ }]
}

/// Events of the whole document: the namespaced root, the optional parser
/// version element, and the one canteen.
pub open spec fn events_of_document(d: OpenMensa) -> Seq<XmlEvent> {
    seq![
        XmlEvent::Start {
            name: "openmensa"@,
            attrs: seq![
                Attr { name: "xmlns"@, value: "http://openmensa.org/open-mensa-v2"@ },
                Attr { name: "xmlns:xsi"@, value: "http://www.w3.org/2001/XMLSchema-instance"@ },
                Attr {
                    name: "xsi:schemaLocation"@,
                    value: "http://openmensa.org/open-mensa-v2 http://openmensa.org/open-mensa-v2.xsd"@,
                },
                Attr { name: "version"@, value: d.version@ },
            ],
        },
    ] + events_opt_text_elem("version"@, d.parser_version) + events_of_canteen(d.canteen) + seq![
        XmlEvent::End { name: "openmensa"@ },
    ]
}

fn write_opt_text_elem(out: &mut String, name: &str, o: &Option<String>)
    ensures
        final(out)@ == old(out)@ + render(events_opt_text_elem(name@, *o)),
{
    match o {
        Some(s) => {
            write_text_elem(out, name, s.as_str());
        },
        None => {
            proof {
                assert(out@ =~= old(out)@ + render(events_opt_text_elem(name@, *o)));
            }
        },
    }
}

fn write_price(out: &mut String, p: &Price)
    ensures
        final(out)@ == old(out)@ + render(events_of_price(*p)),
{
    let mut attrs: Vec<(&str, &str)> = Vec::new();
    attrs.push(("role", p.role.as_str()));
    write_tag(out, "price", &attrs, false);
    write_escaped(out, p.value.as_str());
    write_end(out, "price");
    proof {
        let st = XmlEvent::Start {
            name: "price"@,
            attrs: seq![Attr { name: "role"@, value: spec_price_role_str(p.role) }],
        };
        let tx = XmlEvent::Text { text: p.value@ };
        let en = XmlEvent::End { name: "price"@ };
        assert(attrs_view(attrs@) =~= seq![Attr { name: "role"@, value: spec_price_role_str(p.role) }]);
        assert(tag_event("price"@, attrs_view(attrs@), false) == st);
        assert(events_of_price(*p) == seq![st] + seq![tx] + seq![en]);
        assert(out@ =~= old(out)@ + render(events_of_price(*p)));
    }
}

fn write_prices(out: &mut String, prices: &Vec<Price>)
    ensures
        final(out)@ == old(out)@ + render(events_of_prices(prices@)),
{
    let mut i: usize = 0;
    while i < prices.len()
        invariant
            i <= prices.len(),
            out@ == old(out)@ + render(events_of_prices(prices@.subrange(0, i as int))),
        decreases prices.len() - i,
    {
        write_price(out, &prices[i]);
        proof {
            let pre = prices@.subrange(0, i + 1);
            assert(pre.drop_last() =~= prices@.subrange(0, i as int));
            assert(pre.last() == prices@[i as int]);
            assert(out@ =~= old(out)@ + render(events_of_prices(pre)));
        }
        i += 1;
    }
    proof {
        assert(prices@.subrange(0, prices@.len() as int) =~= prices@);
    }
}

fn write_notes(out: &mut String, notes: &Vec<String>)
    ensures
        final(out)@ == old(out)@ + render(events_of_notes(notes.deep_view())),
{
    let mut i: usize = 0;
    while i < notes.len()
        invariant
            i <= notes.len(),
            notes.deep_view().len() == notes@.len(),
            out@ == old(out)@ + render(events_of_notes(notes.deep_view().subrange(0, i as int))),
        decreases notes.len() - i,
    {
        write_text_elem(out, "note", notes[i].as_str());
        proof {
            let dv = notes.deep_view();
            assert(dv[i as int] == notes@[i as int]@);
            let pre = dv.subrange(0, i + 1);
            assert(pre.drop_last() =~= dv.subrange(0, i as int));
            assert(pre.last() == dv[i as int]);
            assert(out@ =~= old(out)@ + render(events_of_notes(pre)));
        }
        i += 1;
    }
    proof {
        let dv = notes.deep_view();
        assert(dv.subrange(0, dv.len() as int) =~= dv);
    }
}

fn write_meal(out: &mut String, m: &Meal)
    ensures
        final(out)@ == old(out)@ + render(events_of_meal(*m)),
{
    let attrs: Vec<(&str, &str)> = Vec::new();
    write_tag(out, "meal", &attrs, false);
    write_text_elem(out, "name", m.name.as_str());
    write_notes(out, &m.notes);
    write_prices(out, &m.prices);
    write_end(out, "meal");
    proof {
        let st = XmlEvent::Start { name: "meal"@, attrs: Seq::empty() };
        assert(attrs_view(attrs@) =~= Seq::<Attr>::empty());
        assert(tag_event("meal"@, attrs_view(attrs@), false) == st);
        assert(out@ =~= old(out)@ + render(events_of_meal(*m)));
    }
}

fn write_meals(out: &mut String, meals: &Vec<Meal>)
    ensures
        final(out)@ == old(out)@ + render(events_of_meals(meals@)),
{
    let mut i: usize = 0;
    while i < meals.len()
        invariant
            i <= meals.len(),
            out@ == old(out)@ + render(events_of_meals(meals@.subrange(0, i as int))),
        decreases meals.len() - i,
    {
        write_meal(out, &meals[i]);
        proof {
            let pre = meals@.subrange(0, i + 1);
            assert(pre.drop_last() =~= meals@.subrange(0, i as int));
            assert(pre.last() == meals@[i as int]);
            assert(out@ =~= old(out)@ + render(events_of_meals(pre)));
        }
        i += 1;
    }
    proof {
        assert(meals@.subrange(0, meals@.len() as int) =~= meals@);
    }
}

fn write_category(out: &mut String, c: &Category)
    ensures
        final(out)@ == old(out)@ + render(events_of_category(*c)),
{
    let mut attrs: Vec<(&str, &str)> = Vec::new();
    attrs.push(("name", c.name.as_str()));
    write_tag(out, "category", &attrs, false);
    write_meals(out, &c.meal);
    write_end(out, "category");
    proof {
        let st = XmlEvent::Start {
            name: "category"@,
            attrs: seq![Attr { name: "name"@, value: c.name@ }],
        };
        assert(attrs_view(attrs@) =~= seq![Attr { name: "name"@, value: c.name@ }]);
        assert(tag_event("category"@, attrs_view(attrs@), false) == st);
        assert(out@ =~= old(out)@ + render(events_of_category(*c)));
    }
}

fn write_categories(out: &mut String, cs: &Vec<Category>)
    ensures
        final(out)@ == old(out)@ + render(events_of_categories(cs@)),
{
    let mut i: usize = 0;
    while i < cs.len()
        invariant
            i <= cs.len(),
            out@ == old(out)@ + render(events_of_categories(cs@.subrange(0, i as int))),
        decreases cs.len() - i,
    {
        write_category(out, &cs[i]);
        proof {
            let pre = cs@.subrange(0, i + 1);
            assert(pre.drop_last() =~= cs@.subrange(0, i as int));
            assert(pre.last() == cs@[i as int]);
            assert(out@ =~= old(out)@ + render(events_of_categories(pre)));
        }
        i += 1;
    }
    proof {
        assert(cs@.subrange(0, cs@.len() as int) =~= cs@);
    }
}

fn write_day(out: &mut String, d: &Day)
    ensures
        final(out)@ == old(out)@ + render(events_of_day(*d)),
{
    let mut attrs: Vec<(&str, &str)> = Vec::new();
    attrs.push(("date", d.date.as_str()));
    write_tag(out, "day", &attrs, false);
    match &d.content {
        DayContent::Open { category } => {
            write_categories(out, category);
        },
        DayContent::Closed { .. } => {
            let closed_attrs: Vec<(&str, &str)> = Vec::new();
            write_tag(out, "closed", &closed_attrs, true);
            proof {
                let ce = XmlEvent::EmptyElem { name: "closed"@, attrs: Seq::empty() };
                assert(attrs_view(closed_attrs@) =~= Seq::<Attr>::empty());
                assert(tag_event("closed"@, attrs_view(closed_attrs@), true) == ce);
                assert(render(events_of_day_content(d.content)) =~= render_event(ce));
            }
        },
    }
    write_end(out, "day");
    proof {
        let st = XmlEvent::Start { name: "day"@, attrs: seq![Attr { name: "date"@, value: d.date@ }] };
        assert(attrs_view(attrs@) =~= seq![Attr { name: "date"@, value: d.date@ }]);
        assert(tag_event("day"@, attrs_view(attrs@), false) == st);
        assert(out@ =~= old(out)@ + render(events_of_day(*d)));
    }
}

fn write_days(out: &mut String, ds: &Vec<Day>)
    ensures
        final(out)@ == old(out)@ + render(events_of_days(ds@)),
{
    let mut i: usize = 0;
    while i < ds.len()
        invariant
            i <= ds.len(),
            out@ == old(out)@ + render(events_of_days(ds@.subrange(0, i as int))),
        decreases ds.len() - i,
    {
        write_day(out, &ds[i]);
        proof {
            let pre = ds@.subrange(0, i + 1);
            assert(pre.drop_last() =~= ds@.subrange(0, i as int));
            assert(pre.last() == ds@[i as int]);
            assert(out@ =~= old(out)@ + render(events_of_days(pre)));
        }
        i += 1;
    }
    proof {
        assert(ds@.subrange(0, ds@.len() as int) =~= ds@);
    }
}

fn write_opt_weekday(out: &mut String, name: &str, o: &Option<Weekday>)
    ensures
        final(out)@ == old(out)@ + render(events_of_opt_weekday(name@, *o)),
{
    match o {
        Some(w) => {
            let mut attrs: Vec<(&str, &str)> = Vec::new();
            match &w.open {
                Some(s) => {
                    attrs.push(("open", s.as_str()));
                },
                None => {},
            }
            match &w.closed {
                Some(b) => {
                    attrs.push(("closed", if *b { "true" } else { "false" }));
                },
                None => {},
            }
            write_tag(out, name, &attrs, true);
            proof {
                let want = opt_attr("open"@, w.open) + opt_attr_bool("closed"@, w.closed);
                assert(attrs_view(attrs@) =~= want);
                let ce = XmlEvent::EmptyElem { name: name@, attrs: want };
                assert(tag_event(name@, attrs_view(attrs@), true) == ce);
                assert(out@ =~= old(out)@ + render(events_of_opt_weekday(name@, *o)));
            }
        },
        None => {
            proof {
                assert(out@ =~= old(out)@ + render(events_of_opt_weekday(name@, *o)));
            }
        },
    }
}

#[verifier::rlimit(60)]
fn write_opt_times(out: &mut String, o: &Option<Times>)
    ensures
        final(out)@ == old(out)@ + render(events_of_opt_times(*o)),
{
    match o {
        Some(t) => {
            let mut attrs: Vec<(&str, &str)> = Vec::new();
            attrs.push(("type", t.kind.as_str()));
            write_tag(out, "times", &attrs, false);
            write_opt_weekday(out, "monday", &t.monday);
            write_opt_weekday(out, "tuesday", &t.tuesday);
            write_opt_weekday(out, "wednesday", &t.wednesday);
            write_opt_weekday(out, "thursday", &t.thursday);
            write_opt_weekday(out, "friday", &t.friday);
            write_opt_weekday(out, "saturday", &t.saturday);
            write_opt_weekday(out, "sunday", &t.sunday);
            write_end(out, "times");
            proof {
                let st = XmlEvent::Start {
                    name: "times"@,
                    attrs: seq![Attr { name: "type"@, value: t.kind@ }],
                };
                assert(attrs_view(attrs@) =~= seq![Attr { name: "type"@, value: t.kind@ }]);
                assert(tag_event("times"@, attrs_view(attrs@), false) == st);
                assert(out@ =~= old(out)@ + render(events_of_times(*t)));
            }
        },
        None => {
            proof {
                assert(out@ =~= old(out)@ + render(events_of_opt_times(*o)));
            }
        },
    }
}

fn write_opt_schedule(out: &mut String, o: &Option<Schedule>)
    ensures
        final(out)@ == old(out)@ + render(events_of_opt_schedule(*o)),
{
    match o {
        Some(s) => {
            let mut attrs: Vec<(&str, &str)> = Vec::new();
            attrs.push(("hour", s.hour.as_str()));
            match &s.minute {
                Some(v) => {
                    attrs.push(("minute", v.as_str()));
                },
                None => {},
            }
            match &s.day_of_week {
                Some(v) => {
                    attrs.push(("dayOfWeek", v.as_str()));
                },
                None => {},
            }
            match &s.day_of_month {
                Some(v) => {
                    attrs.push(("dayOfMonth", v.as_str()));
                },
                None => {},
            }
            match &s.month {
                Some(v) => {
                    attrs.push(("month", v.as_str()));
                },
                None => {},
            }
            match &s.retry {
                Some(v) => {
                    attrs.push(("retry", v.as_str()));
                },
                None => {},
            }
            write_tag(out, "schedule", &attrs, true);
            proof {
                let want = seq![Attr { name: "hour"@, value: s.hour@ }] + opt_attr(
                    "minute"@,
                    s.minute,
                ) + opt_attr("dayOfWeek"@, s.day_of_week) + opt_attr("dayOfMonth"@, s.day_of_month)
                    + opt_attr("month"@, s.month) + opt_attr("retry"@, s.retry);
                assert(attrs_view(attrs@) =~= want);
                let ce = XmlEvent::EmptyElem { name: "schedule"@, attrs: want };
                assert(tag_event("schedule"@, attrs_view(attrs@), true) == ce);
                assert(out@ =~= old(out)@ + render(events_of_opt_schedule(*o)));
            }
        },
        None => {
            proof {
                assert(out@ =~= old(out)@ + render(events_of_opt_schedule(*o)));
            }
        },
    }
}

fn write_feed(out: &mut String, f: &Feed)
    ensures
        final(out)@ == old(out)@ + render(events_of_feed(*f)),
{
    let mut prio_str = String::new();
    let mut attrs: Vec<(&str, &str)> = Vec::new();
    attrs.push(("name", f.name.as_str()));
    match &f.priority {
        Some(p) => {
            push_i32_dec(&mut prio_str, *p);
            attrs.push(("priority", prio_str.as_str()));
        },
        None => {},
    }
    write_tag(out, "feed", &attrs, false);
    write_text_elem(out, "url", f.url.as_str());
    write_opt_text_elem(out, "source", &f.source);
    write_opt_schedule(out, &f.schedule);
    write_end(out, "feed");
    proof {
        let want = seq![Attr { name: "name"@, value: f.name@ }] + opt_attr_priority(f.priority);
        assert(attrs_view(attrs@) =~= want);
        let st = XmlEvent::Start { name: "feed"@, attrs: want };
        assert(tag_event("feed"@, attrs_view(attrs@), false) == st);
        assert(out@ =~= old(out)@ + render(events_of_feed(*f)));
    }
}

fn write_feeds(out: &mut String, fs: &Vec<Feed>)
    ensures
        final(out)@ == old(out)@ + render(events_of_feeds(fs@)),
{
    let mut i: usize = 0;
    while i < fs.len()
        invariant
            i <= fs.len(),
            out@ == old(out)@ + render(events_of_feeds(fs@.subrange(0, i as int))),
        decreases fs.len() - i,
    {
        write_feed(out, &fs[i]);
        proof {
            let pre = fs@.subrange(0, i + 1);
            assert(pre.drop_last() =~= fs@.subrange(0, i as int));
            assert(pre.last() == fs@[i as int]);
            assert(out@ =~= old(out)@ + render(events_of_feeds(pre)));
        }
        i += 1;
    }
    proof {
        assert(fs@.subrange(0, fs@.len() as int) =~= fs@);
    }
}

fn write_opt_location(out: &mut String, o: &Option<Location>)
    ensures
        final(out)@ == old(out)@ + render(events_of_opt_location(*o)),
{
    match o {
        Some(l) => {
            let mut attrs: Vec<(&str, &str)> = Vec::new();
            attrs.push(("latitude", l.latitude.as_str()));
            attrs.push(("longitude", l.longitude.as_str()));
            write_tag(out, "location", &attrs, true);
            proof {
                let want = seq![
                    Attr { name: "latitude"@, value: l.latitude@ },
                    Attr { name: "longitude"@, value: l.longitude@ },
                ];
                assert(attrs_view(attrs@) =~= want);
                let ce = XmlEvent::EmptyElem { name: "location"@, attrs: want };
                assert(tag_event("location"@, attrs_view(attrs@), true) == ce);
                assert(out@ =~= old(out)@ + render(events_of_opt_location(*o)));
            }
        },
        None => {
            proof {
                assert(out@ =~= old(out)@ + render(events_of_opt_location(*o)));
            }
        },
    }
}

fn write_opt_availability(out: &mut String, o: &Option<Availability>)
    ensures
        final(out)@ == old(out)@ + render(events_of_opt_availability(*o)),
{
    match o {
        Some(a) => {
            write_text_elem(out, "availability", a.as_str());
        },
        None => {
            proof {
                assert(out@ =~= old(out)@ + render(events_of_opt_availability(*o)));
            }
        },
    }
}

#[verifier::rlimit(100)]
fn write_canteen(out: &mut String, c: &Canteen)
    ensures
        final(out)@ == old(out)@ + render(events_of_canteen(*c)),
{
    let attrs: Vec<(&str, &str)> = Vec::new();
    write_tag(out, "canteen", &attrs, false);
    write_opt_text_elem(out, "name", &c.name);
    write_opt_text_elem(out, "address", &c.address);
    write_opt_text_elem(out, "city", &c.city);
    write_opt_text_elem(out, "phone", &c.phone);
    write_opt_text_elem(out, "email", &c.email);
    write_opt_location(out, &c.location);
    write_opt_availability(out, &c.availability);
    write_opt_times(out, &c.times);
    write_feeds(out, &c.feeds);
    write_days(out, &c.days);
    write_end(out, "canteen");
    proof {
        let st = XmlEvent::Start { name: "canteen"@, attrs: Seq::empty() };
        assert(attrs_view(attrs@) =~= Seq::<Attr>::empty());
        assert(tag_event("canteen"@, attrs_view(attrs@), false) == st);
        assert(out@ =~= old(out)@ + render(events_of_canteen(*c)));
    }
}

impl OpenMensa {
    /// Renders the document to the OpenMensa v2 wire format. The writer is
    /// pure string construction, so serialization cannot fail.
    pub fn serialize_to_string(&self) -> (r: String)
        ensures
            r@ == render(events_of_document(*self)),
    {
        let mut out = String::new();
        let mut attrs: Vec<(&str, &str)> = Vec::new();
        attrs.push(("xmlns", "http://openmensa.org/open-mensa-v2"));
        attrs.push(("xmlns:xsi", "http://www.w3.org/2001/XMLSchema-instance"));
        attrs.push((
            "xsi:schemaLocation",
            "http://openmensa.org/open-mensa-v2 http://openmensa.org/open-mensa-v2.xsd",
        ));
        attrs.push(("version", self.version.as_str()));
        write_tag(&mut out, "openmensa", &attrs, false);
        write_opt_text_elem(&mut out, "version", &self.parser_version);
        write_canteen(&mut out, &self.canteen);
        write_end(&mut out, "openmensa");
        proof {
            let want = seq![
                Attr { name: "xmlns"@, value: "http://openmensa.org/open-mensa-v2"@ },
                Attr { name: "xmlns:xsi"@, value: "http://www.w3.org/2001/XMLSchema-instance"@ },
                Attr {
                    name: "xsi:schemaLocation"@,
                    value: "http://openmensa.org/open-mensa-v2 http://openmensa.org/open-mensa-v2.xsd"@,
                },
                Attr { name: "version"@, value: self.version@ },
            ];
            assert(attrs_view(attrs@) =~= want);
            let st = XmlEvent::Start { name: "openmensa"@, attrs: want };
            assert(tag_event("openmensa"@, attrs_view(attrs@), false) == st);
            assert(out@ =~= render(events_of_document(*self)));
        }
        out
    }
}

} // verus!
