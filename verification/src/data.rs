//! The nested, per-food view of nutrient measurements, and the aggregation
//! that builds it from flat rows.

use crate::models::{Amount, FoodAndNutrients, FoodAndNutrientsView};
use std::collections::HashMap;
use vstd::prelude::*;

verus! {

broadcast use {vstd::std_specs::hash::group_hash_axioms, vstd::string::group_string_axioms};

/// Whether `c` is one of the ten ASCII digits.
pub open spec fn is_decimal_digit(c: char) -> bool {
    '0' <= c && c <= '9'
}

/// The number a digit stands for; zero for any other character.
pub open spec fn digit_value(c: char) -> nat {
    if is_decimal_digit(c) {
        (c as int - '0' as int) as nat
    } else {
        0
    }
}

/// The number that a run of digits writes in base ten. The empty run writes
/// zero.
pub open spec fn decimal_value(digits: Seq<char>) -> nat
    decreases digits.len(),
{
    if digits.len() == 0 {
        0
    } else {
        10 * decimal_value(digits.drop_last()) + digit_value(digits.last())
    }
}

/// The text without one leading plus sign, if it has one.
pub open spec fn unsigned_part(text: Seq<char>) -> Seq<char> {
    if text.len() > 0 && text[0] == '+' {
        text.skip(1)
    } else {
        text
    }
}

/// Whether every character of `digits` is a decimal digit.
pub open spec fn all_decimal_digits(digits: Seq<char>) -> bool {
    forall|i: int| 0 <= i < digits.len() ==> is_decimal_digit(#[trigger] digits[i])
}

/// The small unsigned integer that `text` writes, if it writes one: an
/// optional plus sign, then at least one decimal digit and nothing else, with
/// a value of at most 255. Leading zeros are allowed.
pub open spec fn parsed_decimal_places(text: Seq<char>) -> Option<u8> {
    let digits = unsigned_part(text);
    if digits.len() > 0 && all_decimal_digits(digits) && decimal_value(digits) <= u8::MAX {
        Some(decimal_value(digits) as u8)
    } else {
        None
    }
}

/// The decimal-places count that a free-form hint gives: the number it
/// writes, and zero where it writes none.
pub open spec fn decimal_places(text: Seq<char>) -> u8 {
    match parsed_decimal_places(text) {
        Some(places) => places,
        None => 0,
    }
}

/// A run of digits is worth at least as much as any of its prefixes.
pub proof fn lemma_decimal_value_prefix(digits: Seq<char>, n: int)
    requires
        0 <= n <= digits.len(),
    ensures
        decimal_value(digits.take(n)) <= decimal_value(digits),
    decreases digits.len(),
{
    if n == digits.len() {
        assert(digits.take(n) =~= digits);
    } else {
        lemma_decimal_value_prefix(digits.drop_last(), n);
        assert(digits.drop_last().take(n) =~= digits.take(n));
    }
}

/// Reads a decimal-places hint. A hint that does not write a number between
/// 0 and 255 counts as zero; no hint is an error.
pub fn parse_decimal_places(text: &str) -> (places: u8)
    ensures
        places == decimal_places(text@),
{
    let ghost digits = unsigned_part(text@);
    let ghost offset = text@.len() - digits.len();
    let mut value: u16 = 0;
    let mut at_start = true;
    let mut any_digit = false;
    for c in it: text.chars()
        invariant
            it.seq() == text@,
            digits == unsigned_part(text@),
            offset == text@.len() - digits.len(),
            at_start <==> it.index() == 0,
            it.index() >= offset ==> {
                &&& all_decimal_digits(digits.take(it.index() - offset))
                &&& value == decimal_value(digits.take(it.index() - offset))
                &&& (any_digit <==> it.index() - offset > 0)
            },
            it.index() < offset ==> value == 0 && !any_digit,
            value <= u8::MAX,
    {
        let ghost k = it.index() - offset;
        if at_start && c == '+' {
            at_start = false;
            assert(digits.take(0) =~= Seq::<char>::empty());
        } else {
            at_start = false;
            assert(c == digits[k]);
            if !(c >= '0' && c <= '9') {
                assert(!is_decimal_digit(digits[k]));
                return 0;
            }
            let digit: u16 = (c as u32 - '0' as u32) as u16;
            let next: u16 = value * 10 + digit;
            assert(digits.take(k + 1).drop_last() =~= digits.take(k));
            assert(digits.take(k + 1).last() == c);
            assert(next == decimal_value(digits.take(k + 1)));
            if next > 255 {
                proof {
                    lemma_decimal_value_prefix(digits, k + 1);
                }
                return 0;
            }
            assert forall|i: int| 0 <= i < digits.take(k + 1).len() implies is_decimal_digit(
                #[trigger] digits.take(k + 1)[i],
            ) by {
                if i < k {
                    assert(digits.take(k + 1)[i] == digits.take(k)[i]);
                }
            }
            value = next;
            any_digit = true;
        }
    }
    assert(digits.take(digits.len() as int) =~= digits);
    if any_digit {
        value as u8
    } else {
        0
    }
}

/// One nutrient's measurement inside an aggregated view.
#[derive(Debug, PartialEq)]
pub struct NutrientEntry {
    pub nutrient_id: i32,
    pub name: String,
    pub amount: Amount,
    pub units: String,
    pub num_decimal_places: u8,
}

/// What a [`NutrientEntry`] says.
pub struct NutrientEntryView {
    pub nutrient_id: i32,
    pub name: Seq<char>,
    pub amount: Amount,
    pub units: Seq<char>,
    pub num_decimal_places: u8,
}

impl View for NutrientEntry {
    type V = NutrientEntryView;

    open spec fn view(&self) -> NutrientEntryView {
        NutrientEntryView {
            nutrient_id: self.nutrient_id,
            name: self.name@,
            amount: self.amount,
            units: self.units@,
            num_decimal_places: self.num_decimal_places,
        }
    }
}

impl DeepView for NutrientEntry {
    type V = NutrientEntryView;

    open spec fn deep_view(&self) -> NutrientEntryView {
        self@
    }
}

impl Clone for NutrientEntry {
    fn clone(&self) -> (copy: NutrientEntry)
        ensures
            copy == *self,
    {
        NutrientEntry {
            nutrient_id: self.nutrient_id,
            name: self.name.clone(),
            amount: self.amount,
            units: self.units.clone(),
            num_decimal_places: self.num_decimal_places,
        }
    }
}

/// All the measurements of one food, keyed by nutrient identifier, under the
/// food's identifier and descriptions.
#[derive(Debug, PartialEq)]
pub struct FoodNutrients {
    pub food_id: i32,
    pub short_desc: String,
    pub long_desc: String,
    pub nutrients: HashMap<i32, NutrientEntry>,
}

/// What a [`FoodNutrients`] says.
pub struct FoodNutrientsView {
    pub food_id: i32,
    pub short_desc: Seq<char>,
    pub long_desc: Seq<char>,
    pub nutrients: Map<i32, NutrientEntryView>,
}

impl View for FoodNutrients {
    type V = FoodNutrientsView;

    open spec fn view(&self) -> FoodNutrientsView {
        FoodNutrientsView {
            food_id: self.food_id,
            short_desc: self.short_desc@,
            long_desc: self.long_desc@,
            nutrients: self.nutrients@.map_values(|entry: NutrientEntry| entry@),
        }
    }
}

impl DeepView for FoodNutrients {
    type V = FoodNutrientsView;

    open spec fn deep_view(&self) -> FoodNutrientsView {
        self@
    }
}

impl Clone for FoodNutrients {
    fn clone(&self) -> (copy: FoodNutrients)
        ensures
            copy@ == self@,
    {
        FoodNutrients {
            food_id: self.food_id,
            short_desc: self.short_desc.clone(),
            long_desc: self.long_desc.clone(),
            nutrients: self.nutrients.clone(),
        }
    }
}

impl FoodNutrients {
    /// An aggregate of no food: identifier zero, empty descriptions, no
    /// nutrients.
    pub fn new() -> (empty: FoodNutrients)
        ensures
            empty@ == (FoodNutrientsView {
                food_id: 0,
                short_desc: Seq::<char>::empty(),
                long_desc: Seq::<char>::empty(),
                nutrients: Map::<i32, NutrientEntryView>::empty(),
            }),
    {
        let empty = FoodNutrients {
            food_id: 0,
            short_desc: String::new(),
            long_desc: String::new(),
            nutrients: HashMap::new(),
        };
        assert(empty@.nutrients =~= Map::<i32, NutrientEntryView>::empty());
        empty
    }
}

/// The entry that one row contributes: the row's nutrient, with its
/// decimal-places hint read as a number.
pub open spec fn entry_of(row: FoodAndNutrientsView) -> NutrientEntryView {
    NutrientEntryView {
        nutrient_id: row.nutrient_id,
        name: row.name,
        amount: row.amount,
        units: row.units,
        num_decimal_places: decimal_places(row.num_decimal_places),
    }
}

/// Whether some row of `rows` measures the nutrient `nutrient_id`.
pub open spec fn has_nutrient(rows: Seq<FoodAndNutrientsView>, nutrient_id: i32) -> bool {
    exists|i: int| 0 <= i < rows.len() && #[trigger] rows[i].nutrient_id == nutrient_id
}

/// Whether row `i` measures `nutrient_id` and no later row does.
pub open spec fn is_last_with_nutrient(
    rows: Seq<FoodAndNutrientsView>,
    nutrient_id: i32,
    i: int,
) -> bool {
    &&& 0 <= i < rows.len()
    &&& rows[i].nutrient_id == nutrient_id
    &&& forall|j: int| i < j < rows.len() ==> #[trigger] rows[j].nutrient_id != nutrient_id
}

/// The position of the last row that measures `nutrient_id`.
pub open spec fn last_with_nutrient(rows: Seq<FoodAndNutrientsView>, nutrient_id: i32) -> int {
    choose|i: int| is_last_with_nutrient(rows, nutrient_id, i)
}

/// The nutrient mapping of an aggregate: one entry for each nutrient that
/// occurs in `rows`, taken from the last row that measures it.
pub open spec fn nutrient_entries(rows: Seq<FoodAndNutrientsView>) -> Map<i32, NutrientEntryView> {
    Map::new(
        |nutrient_id: i32| has_nutrient(rows, nutrient_id),
        |nutrient_id: i32| entry_of(rows[last_with_nutrient(rows, nutrient_id)]),
    )
}

/// The aggregate of the rows of one food: nothing for no rows; otherwise the
/// first row's food identifier and descriptions over the nutrient mapping of
/// all the rows.
pub open spec fn aggregate(rows: Seq<FoodAndNutrientsView>) -> Option<FoodNutrientsView> {
    if rows.len() == 0 {
        None
    } else {
        Some(
            FoodNutrientsView {
                food_id: rows[0].food_id,
                short_desc: rows[0].short_desc,
                long_desc: rows[0].long_desc,
                nutrients: nutrient_entries(rows),
            },
        )
    }
}

/// A nutrient that occurs in `rows` has a last row, and only one.
pub proof fn lemma_last_with_nutrient(rows: Seq<FoodAndNutrientsView>, nutrient_id: i32)
    requires
        has_nutrient(rows, nutrient_id),
    ensures
        is_last_with_nutrient(rows, nutrient_id, last_with_nutrient(rows, nutrient_id)),
        forall|i: int|
            is_last_with_nutrient(rows, nutrient_id, i) ==> i == last_with_nutrient(
                rows,
                nutrient_id,
            ),
    decreases rows.len(),
{
    let last = rows.len() - 1;
    if rows[last].nutrient_id == nutrient_id {
        assert(is_last_with_nutrient(rows, nutrient_id, last));
    } else {
        let shorter = rows.drop_last();
        let i = choose|i: int| 0 <= i < rows.len() && #[trigger] rows[i].nutrient_id == nutrient_id;
        assert(shorter[i].nutrient_id == nutrient_id);
        lemma_last_with_nutrient(shorter, nutrient_id);
        let found = last_with_nutrient(shorter, nutrient_id);
        assert forall|j: int| found < j < rows.len() implies #[trigger] rows[j].nutrient_id
            != nutrient_id by {
            if j < last {
                assert(shorter[j].nutrient_id != nutrient_id);
            }
        }
        assert(is_last_with_nutrient(rows, nutrient_id, found));
    }
    let chosen = last_with_nutrient(rows, nutrient_id);
    assert forall|i: int| is_last_with_nutrient(rows, nutrient_id, i) implies i == chosen by {
        if i < chosen {
            assert(rows[chosen].nutrient_id != nutrient_id);
        } else if chosen < i {
            assert(rows[i].nutrient_id != nutrient_id);
        }
    }
}

/// One more row adds its entry to the mapping, replacing the entry of an
/// earlier row with the same nutrient.
pub proof fn lemma_nutrient_entries_push(rows: Seq<FoodAndNutrientsView>, row: FoodAndNutrientsView)
    ensures
        nutrient_entries(rows.push(row)) == nutrient_entries(rows).insert(
            row.nutrient_id,
            entry_of(row),
        ),
{
    let longer = rows.push(row);
    let before = nutrient_entries(rows).insert(row.nutrient_id, entry_of(row));
    let after = nutrient_entries(longer);
    assert(longer[rows.len() as int].nutrient_id == row.nutrient_id);
    assert forall|nutrient_id: i32| #[trigger]
        after.contains_key(nutrient_id) implies before.contains_key(nutrient_id) by {
        let i = choose|i: int|
            0 <= i < longer.len() && #[trigger] longer[i].nutrient_id == nutrient_id;
        if i < rows.len() {
            assert(rows[i].nutrient_id == nutrient_id);
        }
    }
    assert forall|nutrient_id: i32| #[trigger]
        before.contains_key(nutrient_id) implies after.contains_key(nutrient_id)
        && after[nutrient_id] == before[nutrient_id] by {
        if nutrient_id == row.nutrient_id {
            assert(is_last_with_nutrient(longer, nutrient_id, rows.len() as int));
            lemma_last_with_nutrient(longer, nutrient_id);
        } else {
            lemma_last_with_nutrient(rows, nutrient_id);
            let found = last_with_nutrient(rows, nutrient_id);
            assert(longer[found].nutrient_id == nutrient_id);
            assert forall|j: int| found < j < longer.len() implies #[trigger] longer[j].nutrient_id
                != nutrient_id by {
                if j < rows.len() {
                    assert(rows[j].nutrient_id != nutrient_id);
                }
            }
            assert(is_last_with_nutrient(longer, nutrient_id, found));
            lemma_last_with_nutrient(longer, nutrient_id);
        }
    }
    assert(after =~= before);
}

/// Where several rows measure one nutrient, the last of them decides: the
/// mapping holds the entry of a row that no later row with the same nutrient
/// follows.
pub proof fn lemma_last_row_wins(rows: Seq<FoodAndNutrientsView>, i: int)
    requires
        is_last_with_nutrient(rows, rows[i].nutrient_id, i),
    ensures
        nutrient_entries(rows).contains_key(rows[i].nutrient_id),
        nutrient_entries(rows)[rows[i].nutrient_id] == entry_of(rows[i]),
{
    lemma_last_with_nutrient(rows, rows[i].nutrient_id);
}

/// Builds the entry that a row contributes.
fn entry_from_row(row: &FoodAndNutrients) -> (entry: NutrientEntry)
    ensures
        entry@ == entry_of(row@),
{
    NutrientEntry {
        nutrient_id: row.nutrient_id,
        name: row.name.clone(),
        amount: row.amount,
        units: row.units.clone(),
        num_decimal_places: parse_decimal_places(row.num_decimal_places.as_str()),
    }
}

/// Aggregates the flat rows of one food into its nested view.
///
/// No rows give no aggregate. Otherwise the aggregate takes the food's
/// identifier and descriptions from the first row, and holds one entry for
/// each nutrient that occurs; where several rows measure one nutrient, the
/// last of them wins.
pub fn map_to_food_nutrients(nutrient_array: &Vec<FoodAndNutrients>) -> (result: Option<
    FoodNutrients,
>)
    ensures
        result.deep_view() == aggregate(nutrient_array.deep_view()),
        result is None <==> nutrient_array.len() == 0,
{
    if nutrient_array.len() == 0 {
        return None;
    }
    let ghost rows = nutrient_array.deep_view();
    let first = &nutrient_array[0];
    let mut nutrients: HashMap<i32, NutrientEntry> = HashMap::new();
    assert(nutrients@.map_values(|entry: NutrientEntry| entry@) =~= nutrient_entries(rows.take(0)));
    for i in 0..nutrient_array.len()
        invariant
            rows == nutrient_array.deep_view(),
            nutrients@.map_values(|entry: NutrientEntry| entry@) == nutrient_entries(
                rows.take(i as int),
            ),
    {
        let row = &nutrient_array[i];
        let entry = entry_from_row(row);
        let ghost before = nutrients@;
        nutrients.insert(row.nutrient_id, entry);
        proof {
            assert(rows[i as int] == row@);
            assert(rows.take(i + 1) =~= rows.take(i as int).push(row@));
            lemma_nutrient_entries_push(rows.take(i as int), row@);
            assert(nutrients@.map_values(|entry: NutrientEntry| entry@) =~= before.map_values(
                |entry: NutrientEntry| entry@,
            ).insert(row.nutrient_id, entry@));
        }
    }
    assert(rows.take(rows.len() as int) =~= rows);
    Some(
        FoodNutrients {
            food_id: first.food_id,
            short_desc: first.short_desc.clone(),
            long_desc: first.long_desc.clone(),
            nutrients,
        },
    )
}

} // verus!
