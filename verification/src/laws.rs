//! Structural laws of the wire format, proved over the event model: a day's
//! open/closed choice is exclusive in the output, an absent optional field
//! leaves no element behind, and an empty weekday is a bare element without
//! attributes.
use crate::model::Canteen;
use crate::model::Category;
use crate::model::Day;
use crate::model::DayContent;
use crate::model::Feed;
use crate::model::Meal;
use crate::model::Price;
use crate::model::Times;
use crate::model::Weekday;
use crate::model::spec_availability_str;
use crate::model::spec_price_role_str;
use crate::serialize::events_of_canteen;
use crate::serialize::events_of_categories;
use crate::serialize::events_of_day;
use crate::serialize::events_of_days;
use crate::serialize::events_of_feeds;
use crate::serialize::events_of_meal;
use crate::serialize::events_of_meals;
use crate::serialize::events_of_notes;
use crate::serialize::events_of_opt_times;
use crate::serialize::events_of_opt_weekday;
use crate::serialize::events_of_price;
use crate::serialize::events_of_prices;
use crate::serialize::events_of_weekday;
use crate::serialize::events_opt_text_elem;
use crate::serialize::opt_attr;
use crate::serialize::opt_attr_bool;
use crate::serialize::opt_attr_priority;
use crate::xml::Attr;
use crate::xml::XmlEvent;
use crate::xml::elem_named;
use crate::xml::events_text_elem;
use crate::xml::no_elem_named;
use vstd::prelude::*;

verus! {

broadcast use crate::xml::lemma_no_elem_named_concat, vstd::string::group_string_axioms;

/// The event form of a price loses no information: equal events mean the
/// same role and the same amount text.
pub proof fn lemma_price_events_faithful(p1: Price, p2: Price)
    requires
        events_of_price(p1) == events_of_price(p2),
    ensures
        p1.role == p2.role,
        p1.value@ == p2.value@,
{
    let e1 = events_of_price(p1);
    let e2 = events_of_price(p2);
    assert(e1[1] == (XmlEvent::Text { text: p1.value@ }));
    assert(e2[1] == (XmlEvent::Text { text: p2.value@ }));
    assert(e1[0] == (XmlEvent::Start {
        name: "price"@,
        attrs: seq![Attr { name: "role"@, value: spec_price_role_str(p1.role) }],
    }));
    assert(e2[0] == (XmlEvent::Start {
        name: "price"@,
        attrs: seq![Attr { name: "role"@, value: spec_price_role_str(p2.role) }],
    }));
    assert(spec_price_role_str(p1.role) == spec_price_role_str(p2.role)) by {
        assert(e1[0]->Start_attrs[0] == e2[0]->Start_attrs[0]);
    };
    reveal_strlit("pupil");
    reveal_strlit("student");
    reveal_strlit("employee");
    reveal_strlit("other");
    assert(("pupil"@).len() == 5);
    assert(("student"@).len() == 7);
    assert(("employee"@).len() == 8);
    assert(("other"@).len() == 5);
    assert(("pupil"@)[0] == 'p' && ("other"@)[0] == 'o');
}

/// The event form of a day carries its exact date text.
pub proof fn lemma_day_events_carry_date(d1: Day, d2: Day)
    requires
        events_of_day(d1) == events_of_day(d2),
    ensures
        d1.date@ == d2.date@,
{
    let e1 = events_of_day(d1);
    let e2 = events_of_day(d2);
    assert(e1[0] == (XmlEvent::Start {
        name: "day"@,
        attrs: seq![Attr { name: "date"@, value: d1.date@ }],
    }));
    assert(e2[0] == (XmlEvent::Start {
        name: "day"@,
        attrs: seq![Attr { name: "date"@, value: d2.date@ }],
    }));
    assert(e1[0]->Start_attrs[0] == e2[0]->Start_attrs[0]);
}

/// The event form of a meal carries its exact name text.
pub proof fn lemma_meal_events_carry_name(m1: Meal, m2: Meal)
    requires
        events_of_meal(m1) == events_of_meal(m2),
    ensures
        m1.name@ == m2.name@,
{
    let e1 = events_of_meal(m1);
    let e2 = events_of_meal(m2);
    assert(e1[2] == (XmlEvent::Text { text: m1.name@ }));
    assert(e2[2] == (XmlEvent::Text { text: m2.name@ }));
}

proof fn lemma_no_elem_one(e: XmlEvent, nm: Seq<char>)
    requires
        !elem_named(e, nm),
    ensures
        no_elem_named(seq![e], nm),
{
    assert forall|i: int| 0 <= i < seq![e].len() implies !elem_named(seq![e][i], nm) by {
        assert(seq![e][0] == e);
    }
}

proof fn lemma_no_elem_text(name: Seq<char>, text: Seq<char>, nm: Seq<char>)
    requires
        nm != name,
    ensures
        no_elem_named(events_text_elem(name, text), nm),
{
    let evs = events_text_elem(name, text);
    assert forall|i: int| 0 <= i < evs.len() implies !elem_named(evs[i], nm) by {
        assert(evs[0] == (XmlEvent::Start { name, attrs: Seq::<Attr>::empty() }));
        assert(evs[1] == (XmlEvent::Text { text }));
        assert(evs[2] == (XmlEvent::End { name }));
    }
}

proof fn lemma_no_elem_opt_text(name: Seq<char>, o: Option<String>, nm: Seq<char>)
    requires
        nm != name,
    ensures
        no_elem_named(events_opt_text_elem(name, o), nm),
{
    match o {
        Option::Some(s) => lemma_no_elem_text(name, s@, nm),
        Option::None => {},
    }
}

proof fn lemma_no_elem_prices(ps: Seq<Price>, nm: Seq<char>)
    requires
        nm != "price"@,
    ensures
        no_elem_named(events_of_prices(ps), nm),
    decreases ps.len(),
{
    if ps.len() > 0 {
        lemma_no_elem_prices(ps.drop_last(), nm);
        let p = ps.last();
        lemma_no_elem_one(
            XmlEvent::Start {
                name: "price"@,
                attrs: seq![Attr { name: "role"@, value: spec_price_role_str(p.role) }],
            },
            nm,
        );
        lemma_no_elem_one(XmlEvent::Text { text: p.value@ }, nm);
        lemma_no_elem_one(XmlEvent::End { name: "price"@ }, nm);
    }
}

proof fn lemma_no_elem_notes(notes: Seq<Seq<char>>, nm: Seq<char>)
    requires
        nm != "note"@,
    ensures
        no_elem_named(events_of_notes(notes), nm),
    decreases notes.len(),
{
    if notes.len() > 0 {
        lemma_no_elem_notes(notes.drop_last(), nm);
        lemma_no_elem_text("note"@, notes.last(), nm);
    }
}

proof fn lemma_no_elem_meals(ms: Seq<Meal>, nm: Seq<char>)
    requires
        nm != "meal"@,
        nm != "name"@,
        nm != "note"@,
        nm != "price"@,
    ensures
        no_elem_named(events_of_meals(ms), nm),
    decreases ms.len(),
{
    if ms.len() > 0 {
        lemma_no_elem_meals(ms.drop_last(), nm);
        let m = ms.last();
        lemma_no_elem_one(XmlEvent::Start { name: "meal"@, attrs: Seq::empty() }, nm);
        lemma_no_elem_text("name"@, m.name@, nm);
        lemma_no_elem_notes(m.notes.deep_view(), nm);
        lemma_no_elem_prices(m.prices@, nm);
        lemma_no_elem_one(XmlEvent::End { name: "meal"@ }, nm);
    }
}

proof fn lemma_no_elem_categories(cs: Seq<Category>, nm: Seq<char>)
    requires
        nm != "category"@,
        nm != "meal"@,
        nm != "name"@,
        nm != "note"@,
        nm != "price"@,
    ensures
        no_elem_named(events_of_categories(cs), nm),
    decreases cs.len(),
{
    if cs.len() > 0 {
        lemma_no_elem_categories(cs.drop_last(), nm);
        let c = cs.last();
        lemma_no_elem_one(
            XmlEvent::Start {
                name: "category"@,
                attrs: seq![Attr { name: "name"@, value: c.name@ }],
            },
            nm,
        );
        lemma_no_elem_meals(c.meal@, nm);
        lemma_no_elem_one(XmlEvent::End { name: "category"@ }, nm);
    }
}

/// A day's content is exclusive in the output as well as in the model: an
/// open day's events open no `closed` element, and a closed day's events
/// open no `category` element — so a serialized day never shows both.
pub proof fn lemma_day_choice_exclusive(d: Day)
    ensures
        d.content is Open ==> no_elem_named(events_of_day(d), "closed"@),
        d.content is Closed ==> no_elem_named(events_of_day(d), "category"@),
{
    reveal_strlit("day");
    reveal_strlit("closed");
    reveal_strlit("category");
    reveal_strlit("meal");
    reveal_strlit("name");
    reveal_strlit("note");
    reveal_strlit("price");
    assert(("day"@).len() == 3);
    assert(("closed"@).len() == 6);
    assert(("category"@).len() == 8);
    assert(("meal"@).len() == 4);
    assert(("name"@).len() == 4);
    assert(("note"@).len() == 4);
    assert(("price"@).len() == 5);
    let st = XmlEvent::Start { name: "day"@, attrs: seq![Attr { name: "date"@, value: d.date@ }] };
    let en = XmlEvent::End { name: "day"@ };
    match d.content {
        DayContent::Open { category } => {
            let nm = "closed"@;
            assert(nm != "day"@);
            lemma_no_elem_one(st, nm);
            lemma_no_elem_categories(category@, nm);
            lemma_no_elem_one(en, nm);
        },
        DayContent::Closed { .. } => {
            let nm = "category"@;
            assert(nm != "day"@);
            lemma_no_elem_one(st, nm);
            lemma_no_elem_one(XmlEvent::EmptyElem { name: "closed"@, attrs: Seq::empty() }, nm);
            lemma_no_elem_one(en, nm);
        },
    }
}

proof fn lemma_no_elem_days(ds: Seq<Day>, nm: Seq<char>)
    requires
        nm != "day"@,
        nm != "closed"@,
        nm != "category"@,
        nm != "meal"@,
        nm != "name"@,
        nm != "note"@,
        nm != "price"@,
    ensures
        no_elem_named(events_of_days(ds), nm),
    decreases ds.len(),
{
    if ds.len() > 0 {
        lemma_no_elem_days(ds.drop_last(), nm);
        let d = ds.last();
        lemma_no_elem_one(
            XmlEvent::Start { name: "day"@, attrs: seq![Attr { name: "date"@, value: d.date@ }] },
            nm,
        );
        match d.content {
            DayContent::Open { category } => {
                lemma_no_elem_categories(category@, nm);
            },
            DayContent::Closed { .. } => {
                lemma_no_elem_one(
                    XmlEvent::EmptyElem { name: "closed"@, attrs: Seq::empty() },
                    nm,
                );
            },
        }
        lemma_no_elem_one(XmlEvent::End { name: "day"@ }, nm);
    }
}

proof fn lemma_no_elem_feeds(fs: Seq<Feed>, nm: Seq<char>)
    requires
        nm != "feed"@,
        nm != "url"@,
        nm != "source"@,
        nm != "schedule"@,
    ensures
        no_elem_named(events_of_feeds(fs), nm),
    decreases fs.len(),
{
    if fs.len() > 0 {
        lemma_no_elem_feeds(fs.drop_last(), nm);
        let f = fs.last();
        lemma_no_elem_one(
            XmlEvent::Start {
                name: "feed"@,
                attrs: seq![Attr { name: "name"@, value: f.name@ }] + opt_attr_priority(
                    f.priority,
                ),
            },
            nm,
        );
        lemma_no_elem_text("url"@, f.url@, nm);
        lemma_no_elem_opt_text("source"@, f.source, nm);
        match f.schedule {
            Option::Some(s) => {
                lemma_no_elem_one(
                    XmlEvent::EmptyElem {
                        name: "schedule"@,
                        attrs: seq![Attr { name: "hour"@, value: s.hour@ }] + opt_attr(
                            "minute"@,
                            s.minute,
                        ) + opt_attr("dayOfWeek"@, s.day_of_week) + opt_attr(
                            "dayOfMonth"@,
                            s.day_of_month,
                        ) + opt_attr("month"@, s.month) + opt_attr("retry"@, s.retry),
                    },
                    nm,
                );
            },
            Option::None => {},
        }
        lemma_no_elem_one(XmlEvent::End { name: "feed"@ }, nm);
    }
}

proof fn lemma_no_elem_times(o: Option<Times>, nm: Seq<char>)
    requires
        nm != "times"@,
        nm != "monday"@,
        nm != "tuesday"@,
        nm != "wednesday"@,
        nm != "thursday"@,
        nm != "friday"@,
        nm != "saturday"@,
        nm != "sunday"@,
    ensures
        no_elem_named(events_of_opt_times(o), nm),
{
    match o {
        Option::Some(t) => {
            lemma_no_elem_one(
                XmlEvent::Start { name: "times"@, attrs: seq![Attr { name: "type"@, value: t.kind@ }] },
                nm,
            );
            lemma_no_elem_opt_weekday("monday"@, t.monday, nm);
            lemma_no_elem_opt_weekday("tuesday"@, t.tuesday, nm);
            lemma_no_elem_opt_weekday("wednesday"@, t.wednesday, nm);
            lemma_no_elem_opt_weekday("thursday"@, t.thursday, nm);
            lemma_no_elem_opt_weekday("friday"@, t.friday, nm);
            lemma_no_elem_opt_weekday("saturday"@, t.saturday, nm);
            lemma_no_elem_opt_weekday("sunday"@, t.sunday, nm);
            lemma_no_elem_one(XmlEvent::End { name: "times"@ }, nm);
        },
        Option::None => {},
    }
}

proof fn lemma_no_elem_opt_weekday(name: Seq<char>, o: Option<Weekday>, nm: Seq<char>)
    requires
        nm != name,
    ensures
        no_elem_named(events_of_opt_weekday(name, o), nm),
{
    match o {
        Option::Some(w) => {
            lemma_no_elem_one(
                XmlEvent::EmptyElem {
                    name,
                    attrs: opt_attr("open"@, w.open) + opt_attr_bool("closed"@, w.closed),
                },
                nm,
            );
        },
        Option::None => {},
    }
}

/// An absent optional field is omitted entirely: a canteen without an
/// address yields events that open no `address` element anywhere, so its
/// XML holds no `address` element.
pub proof fn lemma_address_omitted(c: Canteen)
    requires
        c.address is None,
    ensures
        no_elem_named(events_of_canteen(c), "address"@),
{
    let nm = "address"@;
    reveal_strlit("address");
    reveal_strlit("canteen");
    reveal_strlit("name");
    reveal_strlit("city");
    reveal_strlit("phone");
    reveal_strlit("email");
    reveal_strlit("location");
    reveal_strlit("availability");
    reveal_strlit("times");
    reveal_strlit("monday");
    reveal_strlit("tuesday");
    reveal_strlit("wednesday");
    reveal_strlit("thursday");
    reveal_strlit("friday");
    reveal_strlit("saturday");
    reveal_strlit("sunday");
    reveal_strlit("feed");
    reveal_strlit("url");
    reveal_strlit("source");
    reveal_strlit("schedule");
    reveal_strlit("day");
    reveal_strlit("closed");
    reveal_strlit("category");
    reveal_strlit("meal");
    reveal_strlit("note");
    reveal_strlit("price");
    assert(("address"@).len() == 7);
    assert(("canteen"@).len() == 7);
    assert(("name"@).len() == 4);
    assert(("city"@).len() == 4);
    assert(("phone"@).len() == 5);
    assert(("email"@).len() == 5);
    assert(("location"@).len() == 8);
    assert(("availability"@).len() == 12);
    assert(("times"@).len() == 5);
    assert(("monday"@).len() == 6);
    assert(("tuesday"@).len() == 7);
    assert(("wednesday"@).len() == 9);
    assert(("thursday"@).len() == 8);
    assert(("friday"@).len() == 6);
    assert(("saturday"@).len() == 8);
    assert(("sunday"@).len() == 6);
    assert(("feed"@).len() == 4);
    assert(("url"@).len() == 3);
    assert(("source"@).len() == 6);
    assert(("schedule"@).len() == 8);
    assert(("day"@).len() == 3);
    assert(("closed"@).len() == 6);
    assert(("category"@).len() == 8);
    assert(("meal"@).len() == 4);
    assert(("note"@).len() == 4);
    assert(("price"@).len() == 5);
    assert(("address"@)[0] == 'a' && ("canteen"@)[0] == 'c' && ("tuesday"@)[0] == 't');
    assert(nm != "canteen"@);
    assert(nm != "tuesday"@);
    lemma_no_elem_one(XmlEvent::Start { name: "canteen"@, attrs: Seq::empty() }, nm);
    lemma_no_elem_opt_text("name"@, c.name, nm);
    assert(events_opt_text_elem("address"@, c.address) =~= Seq::<XmlEvent>::empty());
    lemma_no_elem_opt_text("city"@, c.city, nm);
    lemma_no_elem_opt_text("phone"@, c.phone, nm);
    lemma_no_elem_opt_text("email"@, c.email, nm);
    match c.location {
        Option::Some(l) => {
            lemma_no_elem_one(
                XmlEvent::EmptyElem {
                    name: "location"@,
                    attrs: seq![
                        Attr { name: "latitude"@, value: l.latitude@ },
                        Attr { name: "longitude"@, value: l.longitude@ },
                    ],
                },
                nm,
            );
        },
        Option::None => {},
    }
    match c.availability {
        Option::Some(a) => {
            lemma_no_elem_text("availability"@, spec_availability_str(a), nm);
        },
        Option::None => {},
    }
    lemma_no_elem_times(c.times, nm);
    lemma_no_elem_feeds(c.feeds@, nm);
    lemma_no_elem_days(c.days@, nm);
    lemma_no_elem_one(XmlEvent::End { name: "canteen"@ }, nm);
}

/// A weekday with neither opening hours nor a closed mark is serialized as a
/// single empty element carrying no attributes at all.
pub proof fn lemma_weekday_empty(name: Seq<char>, w: Weekday)
    requires
        w.open is None,
        w.closed is None,
    ensures
        events_of_weekday(name, w) == seq![
            XmlEvent::EmptyElem { name, attrs: Seq::<Attr>::empty() },
        ],
{
    assert(opt_attr("open"@, w.open) + opt_attr_bool("closed"@, w.closed) =~= Seq::<Attr>::empty());
}


} // verus!
