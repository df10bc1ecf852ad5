//! Descriptive-code tables: fixed lookups from allergen codes, additive codes
//! and dish-type codes to human-readable German labels. Unknown allergen and
//! additive codes degrade to an empty label; a dish type outside the six
//! recognized ones yields no label.
use crate::strutil::str_eq;
use vstd::prelude::*;

verus! {

/// The dish type reported by the menu-data source. `Other` stands for any
/// value outside the six recognized kinds.
#[derive(Clone, Copy, PartialEq, Eq, Structural, Debug)]
pub enum DishType {
    Vegan,
    Meatless,
    Pork,
    Poultry,
    Fish,
    Beef,
    Other,
}

pub open spec fn spec_allergic_descriptive(code: Seq<char>) -> Seq<char> {
    if code == "A"@ {
        "Glutenhaltiges Getreide"@
    } else if code == "A1"@ {
        "Weizen"@
    } else if code == "A2"@ {
        "Dinkel"@
    } else if code == "A3"@ {
        "Roggen"@
    } else if code == "A4"@ {
        "Gerste"@
    } else if code == "A5"@ {
        "Hafer"@
    } else if code == "B"@ {
        "Krebstiere und Krebstiererzeugnisse"@
    } else if code == "C"@ {
        "Eier und Eiererzeugnisse"@
    } else if code == "D"@ {
        "Fisch und Fischerzeugnisse"@
    } else if code == "E"@ {
        "Erdnüsse und Erdnusserzeugnisse"@
    } else if code == "F"@ {
        "Soja und Sojaerzeugnisse"@
    } else if code == "G"@ {
        "Milch und Milcherzeugnisse"@
    } else if code == "H"@ {
        "Schalenfrüchte"@
    } else if code == "H1"@ {
        "Mandeln"@
    } else if code == "H2"@ {
        "Haselnüsse"@
    } else if code == "H3"@ {
        "Walnüsse"@
    } else if code == "H4"@ {
        "Cashewnüsse"@
    } else if code == "H5"@ {
        "Pekannüsse"@
    } else if code == "H6"@ {
        "Paranüsse"@
    } else if code == "H7"@ {
        "Pistazien"@
    } else if code == "H8"@ {
        "Macadamianüsse"@
    } else if code == "I"@ {
        "Sellerie und Sellerieerzeugnisse"@
    } else if code == "J"@ {
        "Senf und Senferzeugnisse"@
    } else if code == "K"@ {
        "Sesamsamen und Sesamsamenerzeugnisse"@
    } else if code == "L"@ {
        "Schwefeloxid und Sulfite"@
    } else if code == "M"@ {
        "Lupine und Lupinenerzeugnisse"@
    } else if code == "N"@ {
        "Weichtiere (Mollusken)"@
    } else {
        ""@
    }
}

pub open spec fn spec_additive_descriptive(code: Seq<char>) -> Seq<char> {
    if code == "1"@ {
        "Lebensmittelfarbe"@
    } else if code == "2"@ {
        "Konservierungsstoffe"@
    } else if code == "3"@ {
        "Antioxidationsmittel"@
    } else if code == "4"@ {
        "Geschmacksverstärker"@
    } else if code == "5"@ {
        "Geschwefelt"@
    } else if code == "6"@ {
        "Geschwärzt"@
    } else if code == "7"@ {
        "Gewachst"@
    } else if code == "8"@ {
        "Phosphat"@
    } else if code == "9"@ {
        "Süßungsmittel"@
    } else if code == "10"@ {
        "Phenylalaninquelle"@
    } else {
        ""@
    }
}

pub open spec fn spec_type_descriptive(t: DishType) -> Option<Seq<char>> {
    match t {
        DishType::Vegan => Some("Vegan"@),
        DishType::Meatless => Some("Vegetarisch"@),
        DishType::Pork => Some("Schweinefleisch"@),
        DishType::Poultry => Some("Geflügel"@),
        DishType::Fish => Some("Fisch"@),
        DishType::Beef => Some("Rind"@),
        DishType::Other => None,
    }
}

/// Human-readable label of an allergen code; an unknown code yields the empty
/// string rather than an error.
pub fn allergic_descriptive(allergic: &str) -> (r: &str)
    ensures
        r@ == spec_allergic_descriptive(allergic@),
{
    if str_eq(allergic, "A") {
        "Glutenhaltiges Getreide"
    } else if str_eq(allergic, "A1") {
        "Weizen"
    } else if str_eq(allergic, "A2") {
        "Dinkel"
    } else if str_eq(allergic, "A3") {
        "Roggen"
    } else if str_eq(allergic, "A4") {
        "Gerste"
    } else if str_eq(allergic, "A5") {
        "Hafer"
    } else if str_eq(allergic, "B") {
        "Krebstiere und Krebstiererzeugnisse"
    } else if str_eq(allergic, "C") {
        "Eier und Eiererzeugnisse"
    } else if str_eq(allergic, "D") {
        "Fisch und Fischerzeugnisse"
    } else if str_eq(allergic, "E") {
        "Erdnüsse und Erdnusserzeugnisse"
    } else if str_eq(allergic, "F") {
        "Soja und Sojaerzeugnisse"
    } else if str_eq(allergic, "G") {
        "Milch und Milcherzeugnisse"
    } else if str_eq(allergic, "H") {
        "Schalenfrüchte"
    } else if str_eq(allergic, "H1") {
        "Mandeln"
    } else if str_eq(allergic, "H2") {
        "Haselnüsse"
    } else if str_eq(allergic, "H3") {
        "Walnüsse"
    } else if str_eq(allergic, "H4") {
        "Cashewnüsse"
    } else if str_eq(allergic, "H5") {
        "Pekannüsse"
    } else if str_eq(allergic, "H6") {
        "Paranüsse"
    } else if str_eq(allergic, "H7") {
        "Pistazien"
    } else if str_eq(allergic, "H8") {
        "Macadamianüsse"
    } else if str_eq(allergic, "I") {
        "Sellerie und Sellerieerzeugnisse"
    } else if str_eq(allergic, "J") {
        "Senf und Senferzeugnisse"
    } else if str_eq(allergic, "K") {
        "Sesamsamen und Sesamsamenerzeugnisse"
    } else if str_eq(allergic, "L") {
        "Schwefeloxid und Sulfite"
    } else if str_eq(allergic, "M") {
        "Lupine und Lupinenerzeugnisse"
    } else if str_eq(allergic, "N") {
        "Weichtiere (Mollusken)"
    } else {
        ""
    }
}

/// Human-readable label of an additive code; an unknown code yields the empty
/// string rather than an error.
pub fn additive_descriptive(additive: &str) -> (r: &str)
    ensures
        r@ == spec_additive_descriptive(additive@),
{
    if str_eq(additive, "1") {
        "Lebensmittelfarbe"
    } else if str_eq(additive, "2") {
        "Konservierungsstoffe"
    } else if str_eq(additive, "3") {
        "Antioxidationsmittel"
    } else if str_eq(additive, "4") {
        "Geschmacksverstärker"
    } else if str_eq(additive, "5") {
        "Geschwefelt"
    } else if str_eq(additive, "6") {
        "Geschwärzt"
    } else if str_eq(additive, "7") {
        "Gewachst"
    } else if str_eq(additive, "8") {
        "Phosphat"
    } else if str_eq(additive, "9") {
        "Süßungsmittel"
    } else if str_eq(additive, "10") {
        "Phenylalaninquelle"
    } else {
        ""
    }
}

/// Label of a recognized dish type; `None` for anything else.
pub fn type_descriptive(t: &DishType) -> (r: Option<String>)
    ensures
        r.deep_view() == spec_type_descriptive(*t),
{
    match t {
        DishType::Vegan => Some("Vegan".to_owned()),
        DishType::Meatless => Some("Vegetarisch".to_owned()),
        DishType::Pork => Some("Schweinefleisch".to_owned()),
        DishType::Poultry => Some("Geflügel".to_owned()),
        DishType::Fish => Some("Fisch".to_owned()),
        DishType::Beef => Some("Rind".to_owned()),
        DishType::Other => None,
    }
}

} // verus!
