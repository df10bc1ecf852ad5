use openmensa_feed::model::Availability;
use openmensa_feed::model::Canteen;
use openmensa_feed::model::Category;
use openmensa_feed::model::Day;
use openmensa_feed::model::DayContent;
use openmensa_feed::model::Empty;
use openmensa_feed::model::Feed;
use openmensa_feed::model::Location;
use openmensa_feed::model::Meal;
use openmensa_feed::model::OpenMensa;
use openmensa_feed::model::Price;
use openmensa_feed::model::PriceRole;
use openmensa_feed::model::Schedule;
use openmensa_feed::model::Times;
use openmensa_feed::model::Weekday;

fn empty_canteen() -> Canteen {
    Canteen::empty()
}

fn doc_with(canteen: Canteen) -> OpenMensa {
    OpenMensa { version: "2.1".to_string(), parser_version: None, canteen }
}

fn meal(name: &str) -> Meal {
    Meal {
        name: name.to_string(),
        notes: vec!["Vegan".to_string()],
        prices: vec![
            Price { value: "2.50".to_string(), role: PriceRole::Student },
            Price { value: "4.00".to_string(), role: PriceRole::Other },
        ],
    }
}

fn open_day(date: &str) -> Day {
    Day {
        date: date.to_string(),
        content: DayContent::Open {
            category: vec![Category { name: "Mensa".to_string(), meal: vec![meal("Eintopf")] }],
        },
    }
}

#[test]
fn root_element_carries_namespace_and_version() {
    let doc = doc_with(empty_canteen());
    let xml = doc.serialize_to_string();
    let expected = "<openmensa xmlns=\"http://openmensa.org/open-mensa-v2\" xmlns:xsi=\"http://www.w3.org/2001/XMLSchema-instance\" xsi:schemaLocation=\"http://openmensa.org/open-mensa-v2 http://openmensa.org/open-mensa-v2.xsd\" version=\"2.1\"><canteen></canteen></openmensa>";
    assert_eq!(xml, expected);
}

#[test]
fn absent_address_is_omitted_entirely() {
    let mut c = empty_canteen();
    c.name = Some("Mensa Mitte".to_string());
    let xml = doc_with(c).serialize_to_string();
    assert!(xml.contains("<name>Mensa Mitte</name>"));
    assert!(!xml.contains("address"));
}

#[test]
fn weekday_without_fields_is_a_bare_empty_element() {
    let mut c = empty_canteen();
    c.times = Some(Times {
        kind: "opening".to_string(),
        monday: Some(Weekday { open: None, closed: None }),
        tuesday: Some(Weekday { open: Some("09:00-15:00".to_string()), closed: None }),
        wednesday: Some(Weekday { open: None, closed: Some(true) }),
        thursday: None,
        friday: None,
        saturday: None,
        sunday: None,
    });
    let xml = doc_with(c).serialize_to_string();
    assert!(xml.contains("<times type=\"opening\">"));
    assert!(xml.contains("<monday/>"));
    assert!(xml.contains("<tuesday open=\"09:00-15:00\"/>"));
    assert!(xml.contains("<wednesday closed=\"true\"/>"));
    assert!(!xml.contains("thursday"));
}

#[test]
fn closed_day_has_marker_and_no_categories() {
    let mut c = empty_canteen();
    c.days = vec![Day { date: "2024-01-15".to_string(), content: DayContent::Closed { closed: Empty {} } }];
    let xml = doc_with(c).serialize_to_string();
    assert!(xml.contains("<day date=\"2024-01-15\"><closed/></day>"));
    assert!(!xml.contains("category"));
}

#[test]
fn open_day_has_categories_and_no_closed_marker() {
    let mut c = empty_canteen();
    c.days = vec![open_day("2024-01-15")];
    let xml = doc_with(c).serialize_to_string();
    assert!(xml.contains("<category name=\"Mensa\">"));
    assert!(xml.contains("<meal><name>Eintopf</name><note>Vegan</note>"));
    assert!(xml.contains("<price role=\"student\">2.50</price><price role=\"other\">4.00</price>"));
    assert!(!xml.contains("closed"));
}

#[test]
fn special_characters_are_escaped_in_text_and_attributes() {
    let mut c = empty_canteen();
    c.name = Some("Fish & <Chips>".to_string());
    c.feeds = vec![Feed {
        name: "say \"hi\" & 'bye'".to_string(),
        priority: None,
        url: "https://example.com/?a=1&b=2".to_string(),
        source: None,
        schedule: None,
    }];
    let xml = doc_with(c).serialize_to_string();
    assert!(xml.contains("<name>Fish &amp; &lt;Chips&gt;</name>"));
    assert!(xml.contains("name=\"say &quot;hi&quot; &amp; &apos;bye&apos;\""));
    assert!(xml.contains("<url>https://example.com/?a=1&amp;b=2</url>"));
}

#[test]
fn feed_with_schedule_renders_attributes_in_order() {
    let mut c = empty_canteen();
    c.feeds = vec![Feed {
        name: "full".to_string(),
        priority: Some(1),
        url: "https://example.com/feed/v2/1/full.xml".to_string(),
        source: None,
        schedule: Some(Schedule {
            hour: "4".to_string(),
            minute: None,
            day_of_week: Some("*".to_string()),
            day_of_month: Some("*".to_string()),
            month: None,
            retry: Some("60 5 1440".to_string()),
        }),
    }];
    let xml = doc_with(c).serialize_to_string();
    assert!(xml.contains("<feed name=\"full\" priority=\"1\">"));
    assert!(xml.contains("<url>https://example.com/feed/v2/1/full.xml</url>"));
    assert!(xml.contains("<schedule hour=\"4\" dayOfWeek=\"*\" dayOfMonth=\"*\" retry=\"60 5 1440\"/>"));
}

#[test]
fn negative_priority_renders_with_sign() {
    let mut c = empty_canteen();
    c.feeds = vec![Feed {
        name: "aux".to_string(),
        priority: Some(-12),
        url: "u".to_string(),
        source: Some("s".to_string()),
        schedule: None,
    }];
    let xml = doc_with(c).serialize_to_string();
    assert!(xml.contains("<feed name=\"aux\" priority=\"-12\"><url>u</url><source>s</source></feed>"));
}

fn collect_events(xml: &str) -> Vec<(String, String, Vec<(String, String)>)> {
    let mut reader = quick_xml::Reader::from_str(xml);
    let mut out = Vec::new();
    loop {
        match reader.read_event().expect("parse error") {
            quick_xml::events::Event::Start(e) => {
                let name = e.name().as_ref().to_string();
                let attrs = e
                    .attributes()
                    .map(|a| {
                        let a = a.unwrap();
                        (
                            a.key.as_ref().to_string(),
                            a.unescape_value().unwrap().into_owned(),
                        )
                    })
                    .collect();
                out.push(("start".to_string(), name, attrs));
            },
            quick_xml::events::Event::Empty(e) => {
                let name = e.name().as_ref().to_string();
                let attrs = e
                    .attributes()
                    .map(|a| {
                        let a = a.unwrap();
                        (
                            a.key.as_ref().to_string(),
                            a.unescape_value().unwrap().into_owned(),
                        )
                    })
                    .collect();
                out.push(("empty".to_string(), name, attrs));
            },
            quick_xml::events::Event::End(e) => {
                let name = e.name().as_ref().to_string();
                out.push(("end".to_string(), name, Vec::new()));
            },
            quick_xml::events::Event::Text(e) => {
                let text = e.as_ref().to_string();
                out.push(("text".to_string(), text, Vec::new()));
            },
            quick_xml::events::Event::Eof => break,
            _ => {},
        }
    }
    out
}

#[test]
fn reparsing_a_populated_document_recovers_its_structure() {
    let mut c = empty_canteen();
    c.name = Some("Mensa Mitte".to_string());
    c.city = Some("Darmstadt".to_string());
    c.location = Some(Location { latitude: "49.87".to_string(), longitude: "8.65".to_string() });
    c.availability = Some(Availability::Public);
    c.feeds = vec![Feed {
        name: "today".to_string(),
        priority: Some(0),
        url: "https://example.com/today.xml".to_string(),
        source: None,
        schedule: Some(Schedule {
            hour: "6-16".to_string(),
            minute: None,
            day_of_week: None,
            day_of_month: None,
            month: None,
            retry: Some("30 1".to_string()),
        }),
    }];
    c.days = vec![
        open_day("2024-01-15"),
        Day { date: "2024-01-16".to_string(), content: DayContent::Closed { closed: Empty {} } },
    ];
    let doc = OpenMensa {
        version: "2.1".to_string(),
        parser_version: Some("0.9.0".to_string()),
        canteen: c,
    };
    let xml = doc.serialize_to_string();
    let events = collect_events(&xml);
    let expected: Vec<(String, String, Vec<(String, String)>)> = vec![
        ("start", "openmensa", vec![
            ("xmlns", "http://openmensa.org/open-mensa-v2"),
            ("xmlns:xsi", "http://www.w3.org/2001/XMLSchema-instance"),
            ("xsi:schemaLocation", "http://openmensa.org/open-mensa-v2 http://openmensa.org/open-mensa-v2.xsd"),
            ("version", "2.1"),
        ]),
        ("start", "version", vec![]),
        ("text", "0.9.0", vec![]),
        ("end", "version", vec![]),
        ("start", "canteen", vec![]),
        ("start", "name", vec![]),
        ("text", "Mensa Mitte", vec![]),
        ("end", "name", vec![]),
        ("start", "city", vec![]),
        ("text", "Darmstadt", vec![]),
        ("end", "city", vec![]),
        ("empty", "location", vec![("latitude", "49.87"), ("longitude", "8.65")]),
        ("start", "availability", vec![]),
        ("text", "public", vec![]),
        ("end", "availability", vec![]),
        ("start", "feed", vec![("name", "today"), ("priority", "0")]),
        ("start", "url", vec![]),
        ("text", "https://example.com/today.xml", vec![]),
        ("end", "url", vec![]),
        ("empty", "schedule", vec![("hour", "6-16"), ("retry", "30 1")]),
        ("end", "feed", vec![]),
        ("start", "day", vec![("date", "2024-01-15")]),
        ("start", "category", vec![("name", "Mensa")]),
        ("start", "meal", vec![]),
        ("start", "name", vec![]),
        ("text", "Eintopf", vec![]),
        ("end", "name", vec![]),
        ("start", "note", vec![]),
        ("text", "Vegan", vec![]),
        ("end", "note", vec![]),
        ("start", "price", vec![("role", "student")]),
        ("text", "2.50", vec![]),
        ("end", "price", vec![]),
        ("start", "price", vec![("role", "other")]),
        ("text", "4.00", vec![]),
        ("end", "price", vec![]),
        ("end", "meal", vec![]),
        ("end", "category", vec![]),
        ("end", "day", vec![]),
        ("start", "day", vec![("date", "2024-01-16")]),
        ("empty", "closed", vec![]),
        ("end", "day", vec![]),
        ("end", "canteen", vec![]),
        ("end", "openmensa", vec![]),
    ]
    .into_iter()
    .map(|(k, n, attrs): (&str, &str, Vec<(&str, &str)>)| {
        (
            k.to_string(),
            n.to_string(),
            attrs.into_iter().map(|(a, v)| (a.to_string(), v.to_string())).collect(),
        )
    })
    .collect();
    assert_eq!(events, expected);
}
