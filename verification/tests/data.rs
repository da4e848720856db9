use playground_rocket::data::{
    map_to_food_nutrients, parse_decimal_places, FoodNutrients, NutrientEntry,
};
use playground_rocket::models::{Amount, FoodAndNutrients};
use std::collections::HashMap;

fn amount(value: f32) -> Amount {
    Amount::from_bits(value.to_bits())
}

fn row(
    food_id: i32,
    nutrient_id: i32,
    name: &str,
    value: f32,
    units: &str,
    places: &str,
) -> FoodAndNutrients {
    FoodAndNutrients {
        food_id,
        short_desc: format!("food{}", food_id),
        long_desc: format!("food{}_long", food_id),
        nutrient_id,
        name: name.to_string(),
        amount: amount(value),
        units: units.to_string(),
        num_decimal_places: places.to_string(),
    }
}

#[test]
fn test_nutrient_array_to_hash() {
    let array = vec![
        FoodAndNutrients {
            food_id: 1,
            short_desc: "food1".to_string(),
            long_desc: "food1_long".to_string(),
            nutrient_id: 100,
            name: "nutrient100".to_string(),
            amount: amount(125.0),
            units: "g".to_string(),
            num_decimal_places: "2".to_string(),
        },
        FoodAndNutrients {
            food_id: 1,
            short_desc: "food1".to_string(),
            long_desc: "food1_long".to_string(),
            nutrient_id: 101,
            name: "nutrient101".to_string(),
            amount: amount(25.0),
            units: "g".to_string(),
            num_decimal_places: "2".to_string(),
        },
        FoodAndNutrients {
            food_id: 1,
            short_desc: "food1".to_string(),
            long_desc: "food1_long".to_string(),
            nutrient_id: 105,
            name: "nutrient105".to_string(),
            amount: amount(10.0),
            units: "mg".to_string(),
            num_decimal_places: "2".to_string(),
        },
    ];

    let mut expected = FoodNutrients {
        food_id: 1,
        short_desc: "food1".to_string(),
        long_desc: "food1_long".to_string(),
        nutrients: HashMap::new(),
    };

    expected.nutrients.insert(
        100,
        NutrientEntry {
            nutrient_id: 100,
            name: "nutrient100".to_string(),
            amount: amount(125.0),
            units: "g".to_string(),
            num_decimal_places: 2,
        },
    );

    expected.nutrients.insert(
        101,
        NutrientEntry {
            nutrient_id: 101,
            name: "nutrient101".to_string(),
            amount: amount(25.0),
            units: "g".to_string(),
            num_decimal_places: 2,
        },
    );
    expected.nutrients.insert(
        105,
        NutrientEntry {
            nutrient_id: 105,
            name: "nutrient105".to_string(),
            amount: amount(10.0),
            units: "mg".to_string(),
            num_decimal_places: 2,
        },
    );

    assert_eq!(expected, map_to_food_nutrients(&array).unwrap());
}

#[test]
fn test_nutrient_array_to_hash_empty_array() {
    let result = map_to_food_nutrients(&vec![]);
    assert!(result.is_none())
}

#[test]
fn aggregate_has_exactly_the_nutrients_of_the_rows() {
    let rows = vec![
        row(1, 100, "nutrient100", 125.0, "g", "2"),
        row(1, 101, "nutrient101", 25.0, "g", "2"),
        row(1, 105, "nutrient105", 10.0, "mg", "2"),
    ];
    let aggregated = map_to_food_nutrients(&rows).unwrap();
    assert_eq!(aggregated.nutrients.len(), 3);
    let mut keys: Vec<i32> = aggregated.nutrients.keys().copied().collect();
    keys.sort();
    assert_eq!(keys, vec![100, 101, 105]);
    for entry in aggregated.nutrients.values() {
        assert_eq!(entry.num_decimal_places, 2);
    }
    assert_eq!(aggregated.food_id, rows[0].food_id);
    assert_eq!(aggregated.short_desc, rows[0].short_desc);
    assert_eq!(aggregated.long_desc, rows[0].long_desc);
    assert_eq!(f32::from_bits(aggregated.nutrients[&105].amount.to_bits()), 10.0);
    assert_eq!(aggregated.nutrients[&105].units, "mg");
    assert_eq!(aggregated.nutrients[&100].name, "nutrient100");
}

#[test]
fn aggregate_takes_the_food_from_the_first_row() {
    let mut rows = vec![
        row(7, 1, "a", 1.0, "g", "0"),
        row(8, 2, "b", 2.0, "g", "1"),
    ];
    rows[1].short_desc = "other".to_string();
    let aggregated = map_to_food_nutrients(&rows).unwrap();
    assert_eq!(aggregated.food_id, 7);
    assert_eq!(aggregated.short_desc, "food7");
    assert_eq!(aggregated.long_desc, "food7_long");
    assert_eq!(aggregated.nutrients.len(), 2);
}

#[test]
fn aggregate_keeps_the_last_row_of_a_repeated_nutrient() {
    let rows = vec![
        row(1, 100, "first", 1.0, "g", "1"),
        row(1, 200, "other", 5.0, "mg", "0"),
        row(1, 100, "second", 2.0, "kg", "3"),
    ];
    let aggregated = map_to_food_nutrients(&rows).unwrap();
    assert_eq!(aggregated.nutrients.len(), 2);
    assert_eq!(
        aggregated.nutrients[&100],
        NutrientEntry {
            nutrient_id: 100,
            name: "second".to_string(),
            amount: amount(2.0),
            units: "kg".to_string(),
            num_decimal_places: 3,
        }
    );
    assert_eq!(aggregated.nutrients[&200].name, "other");
}

#[test]
fn aggregate_reads_a_malformed_hint_as_zero() {
    let rows = vec![row(1, 100, "n", 1.5, "g", "abc"), row(1, 101, "m", 2.5, "g", "3")];
    let aggregated = map_to_food_nutrients(&rows).unwrap();
    assert_eq!(aggregated.nutrients[&100].num_decimal_places, 0);
    assert_eq!(aggregated.nutrients[&101].num_decimal_places, 3);
}

#[test]
fn aggregate_of_the_same_rows_is_the_same() {
    let rows = vec![row(1, 100, "n", 1.5, "g", "2"), row(1, 101, "m", 2.5, "g", "3")];
    assert_eq!(map_to_food_nutrients(&rows), map_to_food_nutrients(&rows));
}

#[test]
fn decimal_places_of_text_and_of_a_digit() {
    assert_eq!(parse_decimal_places("abc"), 0);
    assert_eq!(parse_decimal_places("3"), 3);
}

#[test]
fn decimal_places_edge_cases() {
    assert_eq!(parse_decimal_places(""), 0);
    assert_eq!(parse_decimal_places("+"), 0);
    assert_eq!(parse_decimal_places("-"), 0);
    assert_eq!(parse_decimal_places("0"), 0);
    assert_eq!(parse_decimal_places("+7"), 7);
    assert_eq!(parse_decimal_places("++7"), 0);
    assert_eq!(parse_decimal_places("-7"), 0);
    assert_eq!(parse_decimal_places("-0"), 0);
    assert_eq!(parse_decimal_places("255"), 255);
    assert_eq!(parse_decimal_places("256"), 0);
    assert_eq!(parse_decimal_places("0000255"), 255);
    assert_eq!(parse_decimal_places("+000"), 0);
    assert_eq!(parse_decimal_places("99999999999999999999999"), 0);
    assert_eq!(parse_decimal_places(" 2"), 0);
    assert_eq!(parse_decimal_places("2 "), 0);
    assert_eq!(parse_decimal_places("2.0"), 0);
    assert_eq!(parse_decimal_places("1_0"), 0);
    assert_eq!(parse_decimal_places("1e1"), 0);
    assert_eq!(parse_decimal_places("0x10"), 0);
    assert_eq!(parse_decimal_places("\u{ff12}"), 0);
    assert_eq!(parse_decimal_places("\u{0662}"), 0);
    assert_eq!(parse_decimal_places("12"), 12);
    assert_eq!(parse_decimal_places("1+2"), 0);
}

#[test]
fn decimal_places_agree_with_the_standard_parser() {
    for number in 0..=1000u32 {
        for text in [
            format!("{}", number),
            format!("+{}", number),
            format!("-{}", number),
            format!("0{}", number),
            format!("{}0", number),
            format!("{}a", number),
            format!("a{}", number),
            format!(" {}", number),
        ] {
            assert_eq!(parse_decimal_places(&text), text.parse::<u8>().unwrap_or(0), "{:?}", text);
        }
    }
    for text in ["", "+", "-", "++", "+-1", "٣", "½", "１", "2\n", "\t2", "+0255", "+256"] {
        assert_eq!(parse_decimal_places(text), text.parse::<u8>().unwrap_or(0), "{:?}", text);
    }
}

#[test]
fn new_aggregate_is_empty() {
    let empty = FoodNutrients::new();
    assert_eq!(empty.food_id, 0);
    assert_eq!(empty.short_desc, "");
    assert_eq!(empty.long_desc, "");
    assert!(empty.nutrients.is_empty());
}

#[test]
fn amount_keeps_its_bits() {
    for value in [0.0f32, -0.0, 125.0, 25.0, 10.0, 0.1, f32::MAX, f32::MIN_POSITIVE, f32::INFINITY] {
        let carried = Amount::from_bits(value.to_bits());
        assert_eq!(carried.to_bits(), value.to_bits());
        assert_eq!(f32::from_bits(carried.to_bits()), value);
    }
    assert_eq!(Amount::from_bits(0x42fa_0000).to_bits(), 0x42fa_0000);
    assert_eq!(amount(125.0).bits, 0x42fa_0000);
}

#[test]
fn clones_are_equal_to_what_they_copy() {
    let rows = vec![row(1, 100, "n", 1.5, "g", "2"), row(1, 101, "m", 2.5, "g", "x")];
    assert_eq!(rows[0].clone(), rows[0]);
    let aggregated = map_to_food_nutrients(&rows).unwrap();
    assert_eq!(aggregated.clone(), aggregated);
    assert_eq!(aggregated.nutrients[&101].clone(), aggregated.nutrients[&101]);
}
