use openmensa_feed::tables::DishType;
use openmensa_feed::tables::additive_descriptive;
use openmensa_feed::tables::allergic_descriptive;
use openmensa_feed::tables::type_descriptive;

#[test]
fn known_allergen_codes() {
    assert_eq!(allergic_descriptive("A"), "Glutenhaltiges Getreide");
    assert_eq!(allergic_descriptive("A1"), "Weizen");
    assert_eq!(allergic_descriptive("A5"), "Hafer");
    assert_eq!(allergic_descriptive("B"), "Krebstiere und Krebstiererzeugnisse");
    assert_eq!(allergic_descriptive("G"), "Milch und Milcherzeugnisse");
    assert_eq!(allergic_descriptive("H"), "Schalenfrüchte");
    assert_eq!(allergic_descriptive("H8"), "Macadamianüsse");
    assert_eq!(allergic_descriptive("L"), "Schwefeloxid und Sulfite");
    assert_eq!(allergic_descriptive("N"), "Weichtiere (Mollusken)");
}

#[test]
fn unknown_allergen_code_is_empty() {
    assert_eq!(allergic_descriptive("Z9"), "");
    assert_eq!(allergic_descriptive(""), "");
    assert_eq!(allergic_descriptive("a"), "");
}

#[test]
fn additive_codes() {
    assert_eq!(additive_descriptive("1"), "Lebensmittelfarbe");
    assert_eq!(additive_descriptive("2"), "Konservierungsstoffe");
    assert_eq!(additive_descriptive("3"), "Antioxidationsmittel");
    assert_eq!(additive_descriptive("4"), "Geschmacksverstärker");
    assert_eq!(additive_descriptive("5"), "Geschwefelt");
    assert_eq!(additive_descriptive("6"), "Geschwärzt");
    assert_eq!(additive_descriptive("7"), "Gewachst");
    assert_eq!(additive_descriptive("8"), "Phosphat");
    assert_eq!(additive_descriptive("9"), "Süßungsmittel");
    assert_eq!(additive_descriptive("10"), "Phenylalaninquelle");
}

#[test]
fn unknown_additive_code_is_empty() {
    assert_eq!(additive_descriptive("11"), "");
    assert_eq!(additive_descriptive("0"), "");
    assert_eq!(additive_descriptive(""), "");
}

#[test]
fn dish_type_labels() {
    assert_eq!(type_descriptive(&DishType::Vegan), Some("Vegan".to_string()));
    assert_eq!(type_descriptive(&DishType::Meatless), Some("Vegetarisch".to_string()));
    assert_eq!(type_descriptive(&DishType::Pork), Some("Schweinefleisch".to_string()));
    assert_eq!(type_descriptive(&DishType::Poultry), Some("Geflügel".to_string()));
    assert_eq!(type_descriptive(&DishType::Fish), Some("Fisch".to_string()));
    assert_eq!(type_descriptive(&DishType::Beef), Some("Rind".to_string()));
    assert_eq!(type_descriptive(&DishType::Other), None);
}
