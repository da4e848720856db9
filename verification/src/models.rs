//! The records of the dataset and their mathematical views.
//!
//! A record holds text in `String` fields; its view holds the same text as
//! sequences of characters, so that contracts can speak of what a record
//! says rather than of where its bytes live.

use vstd::prelude::*;

verus! {

/// A measured quantity, carried as the bit pattern of a single-precision
/// IEEE-754 number. The library never computes with an amount: it moves it
/// from a row into an entry, bit for bit.
#[derive(Clone, Copy, Debug, PartialEq, Eq, Hash, Structural)]
pub struct Amount {
    pub bits: u32,
}

impl Amount {
    /// Wraps a bit pattern.
    pub fn from_bits(bits: u32) -> (amount: Amount)
        ensures
            amount.bits == bits,
    {
        Amount { bits }
    }

    /// The bit pattern that was wrapped.
    pub fn to_bits(&self) -> (bits: u32)
        ensures
            bits == self.bits,
    {
        self.bits
    }
}

/// A food item: its identifier, the group it belongs to, and two descriptions.
#[derive(Debug, PartialEq)]
pub struct Food {
    pub id: i32,
    pub food_group_id: i32,
    pub short_desc: String,
    pub long_desc: String,
}

/// What a [`Food`] says.
pub struct FoodView {
    pub id: i32,
    pub food_group_id: i32,
    pub short_desc: Seq<char>,
    pub long_desc: Seq<char>,
}

impl View for Food {
    type V = FoodView;

    open spec fn view(&self) -> FoodView {
        FoodView {
            id: self.id,
            food_group_id: self.food_group_id,
            short_desc: self.short_desc@,
            long_desc: self.long_desc@,
        }
    }
}

impl DeepView for Food {
    type V = FoodView;

    open spec fn deep_view(&self) -> FoodView {
        self@
    }
}

impl Clone for Food {
    fn clone(&self) -> (copy: Food)
        ensures
            copy == *self,
    {
        Food {
            id: self.id,
            food_group_id: self.food_group_id,
            short_desc: self.short_desc.clone(),
            long_desc: self.long_desc.clone(),
        }
    }
}

/// One flat (food, nutrient) measurement, as a join over the food, nutrition
/// and nutrient tables yields it. The food's descriptions are repeated on
/// every row of that food; the decimal-places hint is free text.
#[derive(Debug, PartialEq)]
pub struct FoodAndNutrients {
    pub food_id: i32,
    pub short_desc: String,
    pub long_desc: String,
    pub nutrient_id: i32,
    pub name: String,
    pub amount: Amount,
    pub units: String,
    pub num_decimal_places: String,
}

/// What a [`FoodAndNutrients`] row says.
pub struct FoodAndNutrientsView {
    pub food_id: i32,
    pub short_desc: Seq<char>,
    pub long_desc: Seq<char>,
    pub nutrient_id: i32,
    pub name: Seq<char>,
    pub amount: Amount,
    pub units: Seq<char>,
    pub num_decimal_places: Seq<char>,
}

impl View for FoodAndNutrients {
    type V = FoodAndNutrientsView;

    open spec fn view(&self) -> FoodAndNutrientsView {
        FoodAndNutrientsView {
            food_id: self.food_id,
            short_desc: self.short_desc@,
            long_desc: self.long_desc@,
            nutrient_id: self.nutrient_id,
            name: self.name@,
            amount: self.amount,
            units: self.units@,
            num_decimal_places: self.num_decimal_places@,
        }
    }
}

impl DeepView for FoodAndNutrients {
    type V = FoodAndNutrientsView;

    open spec fn deep_view(&self) -> FoodAndNutrientsView {
        self@
    }
}

impl Clone for FoodAndNutrients {
    fn clone(&self) -> (copy: FoodAndNutrients)
        ensures
            copy == *self,
    {
        FoodAndNutrients {
            food_id: self.food_id,
            short_desc: self.short_desc.clone(),
            long_desc: self.long_desc.clone(),
            nutrient_id: self.nutrient_id,
            name: self.name.clone(),
            amount: self.amount,
            units: self.units.clone(),
            num_decimal_places: self.num_decimal_places.clone(),
        }
    }
}

} // verus!
