use openmensa_feed::aggregate::RawDish;
use openmensa_feed::aggregate::RawMenuItem;
use openmensa_feed::aggregate::day_of_timestamp;
use openmensa_feed::aggregate::group_by_day;
use openmensa_feed::aggregate::notes_for_dish;
use openmensa_feed::tables::DishType;

fn dish(name: &str) -> RawDish {
    RawDish {
        name: name.to_string(),
        dish_type: DishType::Other,
        allergics: Vec::new(),
        specific_allergics: None,
        additionals: Vec::new(),
        student_price: "2.50".to_string(),
        guest_price: "4.00".to_string(),
    }
}

fn item(ts: i64, name: &str) -> RawMenuItem {
    RawMenuItem { date: ts, dish: dish(name) }
}

const DAY: i64 = 86400;

#[test]
fn grouping_sorts_days_ascending_without_duplicates() {
    let items = vec![
        item(3 * DAY + 100, "c"),
        item(1 * DAY, "a1"),
        item(2 * DAY + 5, "b"),
        item(1 * DAY + 999, "a2"),
    ];
    let groups = group_by_day(items);
    let days: Vec<i64> = groups.iter().map(|g| g.day).collect();
    assert_eq!(days, vec![1, 2, 3]);
    let names: Vec<&str> = groups[0].items.iter().map(|it| it.dish.name.as_str()).collect();
    assert_eq!(names, vec!["a1", "a2"]);
    assert_eq!(groups[1].items.len(), 1);
    assert_eq!(groups[2].items.len(), 1);
}

#[test]
fn grouping_keeps_insertion_order_within_a_day() {
    let items = vec![
        item(5 * DAY + 7200, "first"),
        item(5 * DAY + 3600, "second"),
        item(5 * DAY, "third"),
    ];
    let groups = group_by_day(items);
    assert_eq!(groups.len(), 1);
    let names: Vec<&str> = groups[0].items.iter().map(|it| it.dish.name.as_str()).collect();
    assert_eq!(names, vec!["first", "second", "third"]);
}

#[test]
fn day_of_timestamp_rounds_towards_negative_infinity() {
    assert_eq!(day_of_timestamp(0), 0);
    assert_eq!(day_of_timestamp(86399), 0);
    assert_eq!(day_of_timestamp(86400), 1);
    assert_eq!(day_of_timestamp(-1), -1);
    assert_eq!(day_of_timestamp(-86400), -1);
    assert_eq!(day_of_timestamp(-86401), -2);
}

#[test]
fn allergen_note_with_matching_specifics() {
    let d = RawDish {
        name: "Brot".to_string(),
        dish_type: DishType::Other,
        allergics: vec!["A".to_string()],
        specific_allergics: Some(vec!["A1".to_string(), "A2".to_string(), "B1".to_string()]),
        additionals: Vec::new(),
        student_price: "1.00".to_string(),
        guest_price: "2.00".to_string(),
    };
    let notes = notes_for_dish(&d);
    assert_eq!(notes, vec!["Glutenhaltiges Getreide (Weizen, Dinkel)".to_string()]);
}

#[test]
fn allergen_note_without_matching_specifics() {
    let d = RawDish {
        name: "Suppe".to_string(),
        dish_type: DishType::Other,
        allergics: vec!["C".to_string()],
        specific_allergics: Some(vec!["A1".to_string()]),
        additionals: Vec::new(),
        student_price: "1.00".to_string(),
        guest_price: "2.00".to_string(),
    };
    let notes = notes_for_dish(&d);
    assert_eq!(notes, vec!["Eier und Eiererzeugnisse".to_string()]);
}

#[test]
fn notes_order_type_then_allergens_then_additives() {
    let d = RawDish {
        name: "Auflauf".to_string(),
        dish_type: DishType::Vegan,
        allergics: vec!["C".to_string(), "G".to_string()],
        specific_allergics: None,
        additionals: vec!["1".to_string(), "9".to_string()],
        student_price: "3.10".to_string(),
        guest_price: "5.20".to_string(),
    };
    let notes = notes_for_dish(&d);
    assert_eq!(
        notes,
        vec![
            "Vegan".to_string(),
            "Eier und Eiererzeugnisse".to_string(),
            "Milch und Milcherzeugnisse".to_string(),
            "Lebensmittelfarbe".to_string(),
            "Süßungsmittel".to_string(),
        ]
    );
}

#[test]
fn unknown_codes_degrade_to_empty_notes() {
    let d = RawDish {
        name: "Pasta".to_string(),
        dish_type: DishType::Other,
        allergics: vec!["Z9".to_string()],
        specific_allergics: None,
        additionals: vec!["42".to_string()],
        student_price: "3.10".to_string(),
        guest_price: "5.20".to_string(),
    };
    let notes = notes_for_dish(&d);
    assert_eq!(notes, vec!["".to_string(), "".to_string()]);
}
