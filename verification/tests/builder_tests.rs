use openmensa_feed::aggregate::RawDish;
use openmensa_feed::aggregate::RawMenuItem;
use openmensa_feed::builder::DateDecodeError;
use openmensa_feed::builder::build_openmensa;
use openmensa_feed::model::DayContent;
use openmensa_feed::model::PriceRole;
use openmensa_feed::tables::DishType;

const TS_2024_01_15: i64 = 1705276800;
const TS_2024_01_16: i64 = 1705363200;

fn dish(name: &str, student: &str, guest: &str) -> RawDish {
    RawDish {
        name: name.to_string(),
        dish_type: DishType::Other,
        allergics: Vec::new(),
        specific_allergics: None,
        additionals: Vec::new(),
        student_price: student.to_string(),
        guest_price: guest.to_string(),
    }
}

fn item(ts: i64, name: &str, student: &str, guest: &str) -> RawMenuItem {
    RawMenuItem { date: ts, dish: dish(name, student, guest) }
}

#[test]
fn meal_carries_exactly_student_and_guest_price() {
    let items = vec![item(TS_2024_01_15, "Eintopf", "2.95", "4.75")];
    let doc = build_openmensa(items, None).unwrap();
    assert_eq!(doc.canteen.days.len(), 1);
    match &doc.canteen.days[0].content {
        DayContent::Open { category } => {
            assert_eq!(category.len(), 1);
            assert_eq!(category[0].name, "Mensa");
            assert_eq!(category[0].meal.len(), 1);
            let meal = &category[0].meal[0];
            assert_eq!(meal.name, "Eintopf");
            assert_eq!(meal.prices.len(), 2);
            assert_eq!(meal.prices[0].role, PriceRole::Student);
            assert_eq!(meal.prices[0].value, "2.95");
            assert_eq!(meal.prices[1].role, PriceRole::Other);
            assert_eq!(meal.prices[1].value, "4.75");
        },
        DayContent::Closed { .. } => panic!("expected an open day"),
    }
}

#[test]
fn two_days_in_date_order_with_their_meal_counts() {
    let items = vec![
        item(TS_2024_01_15, "A", "1.00", "2.00"),
        item(TS_2024_01_15 + 3600, "B", "1.10", "2.20"),
        item(TS_2024_01_16, "C", "1.20", "2.40"),
    ];
    let doc = build_openmensa(items, None).unwrap();
    assert_eq!(doc.version, "2.1");
    assert_eq!(doc.canteen.days.len(), 2);
    assert_eq!(doc.canteen.days[0].date, "2024-01-15");
    assert_eq!(doc.canteen.days[1].date, "2024-01-16");
    match &doc.canteen.days[0].content {
        DayContent::Open { category } => {
            assert_eq!(category[0].meal.len(), 2);
            assert_eq!(category[0].meal[0].name, "A");
            assert_eq!(category[0].meal[1].name, "B");
        },
        DayContent::Closed { .. } => panic!("expected an open day"),
    }
    match &doc.canteen.days[1].content {
        DayContent::Open { category } => {
            assert_eq!(category[0].meal.len(), 1);
            assert_eq!(category[0].meal[0].name, "C");
        },
        DayContent::Closed { .. } => panic!("expected an open day"),
    }
    let xml = doc.serialize_to_string();
    let first = xml.find("<day date=\"2024-01-15\">").expect("first day missing");
    let second = xml.find("<day date=\"2024-01-16\">").expect("second day missing");
    assert!(first < second);
}

#[test]
fn undecodable_timestamp_aborts_the_build() {
    let items = vec![
        item(TS_2024_01_15, "ok", "1.00", "2.00"),
        item(i64::MIN, "bad", "1.00", "2.00"),
    ];
    let r = build_openmensa(items, None);
    assert_eq!(r.err(), Some(DateDecodeError));
}

#[test]
fn builder_leaves_canteen_metadata_absent() {
    let doc = build_openmensa(Vec::new(), None).unwrap();
    assert!(doc.canteen.name.is_none());
    assert!(doc.canteen.address.is_none());
    assert!(doc.canteen.city.is_none());
    assert!(doc.canteen.phone.is_none());
    assert!(doc.canteen.email.is_none());
    assert!(doc.canteen.location.is_none());
    assert!(doc.canteen.availability.is_none());
    assert!(doc.canteen.times.is_none());
    assert!(doc.canteen.feeds.is_empty());
    assert!(doc.canteen.days.is_empty());
}

#[test]
fn parser_version_element_present_only_when_given() {
    let with = build_openmensa(Vec::new(), Some("1.2.3".to_string())).unwrap();
    let xml = with.serialize_to_string();
    assert!(xml.contains("<version>1.2.3</version>"));
    let without = build_openmensa(Vec::new(), None).unwrap();
    let xml2 = without.serialize_to_string();
    assert!(!xml2.contains("<version>"));
}
