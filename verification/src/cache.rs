//! The dataset index and the lookups it answers.
//!
//! The index is built once, from the two flat sequences that a loader has
//! fetched, and is never changed afterwards: every lookup takes it by shared
//! reference and returns an independent copy of what it found.

use crate::data::{aggregate, map_to_food_nutrients, FoodNutrients, FoodNutrientsView};
use crate::models::{Food, FoodAndNutrients, FoodAndNutrientsView, FoodView};
use std::collections::hash_map::Entry;
use std::collections::HashMap;
use vstd::prelude::*;

verus! {

broadcast use vstd::std_specs::hash::group_hash_axioms;

/// Whether some row of `rows` belongs to the food `food_id`.
pub open spec fn has_food(rows: Seq<FoodAndNutrientsView>, food_id: i32) -> bool {
    exists|i: int| 0 <= i < rows.len() && #[trigger] rows[i].food_id == food_id
}

/// The rows of `rows` that belong to the food `food_id`, in the order in which
/// they stand in `rows`.
pub open spec fn rows_of_food(rows: Seq<FoodAndNutrientsView>, food_id: i32) -> Seq<
    FoodAndNutrientsView,
> {
    rows.filter(|row: FoodAndNutrientsView| row.food_id == food_id)
}

/// The grouping of flat rows by food: one key for each food identifier that
/// occurs in `rows`, mapped to the rows of that food in the order in which
/// they stand in `rows`.
pub open spec fn group_by_food(rows: Seq<FoodAndNutrientsView>) -> Map<
    i32,
    Seq<FoodAndNutrientsView>,
> {
    Map::new(
        |food_id: i32| has_food(rows, food_id),
        |food_id: i32| rows_of_food(rows, food_id),
    )
}

/// What a grouping held in memory says: each list of rows by its view.
pub open spec fn groups_view(groups: Map<i32, Vec<FoodAndNutrients>>) -> Map<
    i32,
    Seq<FoodAndNutrientsView>,
> {
    groups.map_values(|rows: Vec<FoodAndNutrients>| rows.deep_view())
}

/// Whether `rows` can stand under the key `food_id` in a grouping: there is
/// at least one row, and every row belongs to that food.
pub open spec fn is_group_of(rows: Seq<FoodAndNutrientsView>, food_id: i32) -> bool {
    &&& rows.len() > 0
    &&& forall|i: int| 0 <= i < rows.len() ==> (#[trigger] rows[i]).food_id == food_id
}

/// A food has rows among `rows` exactly if it occurs there.
pub proof fn lemma_rows_of_food_len(rows: Seq<FoodAndNutrientsView>, food_id: i32)
    ensures
        has_food(rows, food_id) <==> rows_of_food(rows, food_id).len() > 0,
    decreases rows.len(),
{
    reveal(Seq::filter);
    if rows.len() > 0 {
        let shorter = rows.drop_last();
        lemma_rows_of_food_len(shorter, food_id);
        if has_food(rows, food_id) && rows.last().food_id != food_id {
            let i = choose|i: int| 0 <= i < rows.len() && #[trigger] rows[i].food_id == food_id;
            assert(shorter[i].food_id == food_id);
        }
        if has_food(shorter, food_id) {
            let i = choose|i: int|
                0 <= i < shorter.len() && #[trigger] shorter[i].food_id == food_id;
            assert(rows[i].food_id == food_id);
        }
        if rows.last().food_id == food_id {
            assert(rows[rows.len() - 1].food_id == food_id);
        }
    }
}

/// Every row in the group of a food belongs to that food.
pub proof fn lemma_rows_of_food_members(rows: Seq<FoodAndNutrientsView>, food_id: i32)
    ensures
        forall|i: int|
            0 <= i < rows_of_food(rows, food_id).len() ==> (#[trigger] rows_of_food(
                rows,
                food_id,
            )[i]).food_id == food_id,
{
    let belongs = |row: FoodAndNutrientsView| row.food_id == food_id;
    assert forall|i: int| 0 <= i < rows_of_food(rows, food_id).len() implies (
    #[trigger] rows_of_food(rows, food_id)[i]).food_id == food_id by {
        rows.lemma_filter_pred(belongs, i);
    }
}

/// One more row joins the group of its food and leaves every other group as
/// it was.
pub proof fn lemma_group_by_food_push(rows: Seq<FoodAndNutrientsView>, row: FoodAndNutrientsView)
    ensures
        group_by_food(rows.push(row)) == group_by_food(rows).insert(
            row.food_id,
            rows_of_food(rows, row.food_id).push(row),
        ),
{
    let longer = rows.push(row);
    let before = group_by_food(rows).insert(
        row.food_id,
        rows_of_food(rows, row.food_id).push(row),
    );
    let after = group_by_food(longer);
    assert(longer[rows.len() as int].food_id == row.food_id);
    assert forall|food_id: i32| #[trigger] after.contains_key(food_id) implies before.contains_key(
        food_id,
    ) by {
        let i = choose|i: int| 0 <= i < longer.len() && #[trigger] longer[i].food_id == food_id;
        if i < rows.len() {
            assert(rows[i].food_id == food_id);
        }
    }
    assert forall|food_id: i32| #[trigger] before.contains_key(food_id) implies after.contains_key(
        food_id,
    ) && after[food_id] == before[food_id] by {
        rows.lemma_filter_push(row, |other: FoodAndNutrientsView| other.food_id == food_id);
        if food_id != row.food_id {
            let i = choose|i: int| 0 <= i < rows.len() && #[trigger] rows[i].food_id == food_id;
            assert(longer[i].food_id == food_id);
        }
    }
    assert(after =~= before);
}

/// Groups flat rows by the food they belong to, in one pass.
///
/// The result has one key for each food identifier that occurs in `rows`;
/// under it stand copies of the rows of that food, in the order in which they
/// came. A food without rows has no key.
pub fn group_nutrients(rows: &Vec<FoodAndNutrients>) -> (groups: HashMap<
    i32,
    Vec<FoodAndNutrients>,
>)
    ensures
        groups_view(groups@) == group_by_food(rows.deep_view()),
{
    let ghost all = rows.deep_view();
    let mut groups: HashMap<i32, Vec<FoodAndNutrients>> = HashMap::with_capacity(rows.len());
    assert(groups_view(groups@) =~= group_by_food(all.take(0)));
    for i in 0..rows.len()
        invariant
            all == rows.deep_view(),
            groups_view(groups@) == group_by_food(all.take(i as int)),
    {
        let row = &rows[i];
        let ghost seen = all.take(i as int);
        let ghost before = groups@;
        proof {
            assert(all[i as int] == row@);
            assert(all.take(i + 1) =~= seen.push(row@));
            lemma_group_by_food_push(seen, row@);
            lemma_rows_of_food_len(seen, row.food_id);
            assert(before.contains_key(row.food_id) <==> groups_view(before).contains_key(
                row.food_id,
            ));
        }
        match groups.entry(row.food_id) {
            Entry::Occupied(mut occupied) => {
                let group = occupied.get_mut();
                let ghost earlier = group.deep_view();
                assert(earlier == groups_view(before)[row.food_id]);
                group.push(row.clone());
                assert(group.deep_view() =~= earlier.push(row@));
            },
            Entry::Vacant(vacant) => {
                let mut group: Vec<FoodAndNutrients> = Vec::new();
                group.push(row.clone());
                assert(rows_of_food(seen, row.food_id) =~= Seq::<FoodAndNutrientsView>::empty());
                assert(group.deep_view() =~= Seq::<FoodAndNutrientsView>::empty().push(row@));
                vacant.insert(group);
            },
        }
        assert(groups_view(groups@) =~= groups_view(before).insert(
            row.food_id,
            rows_of_food(seen, row.food_id).push(row@),
        ));
    }
    assert(all.take(rows.len() as int) =~= all);
    groups
}

/// Whether some food of `foods` has the identifier `food_id`.
pub open spec fn has_food_id(foods: Seq<FoodView>, food_id: i32) -> bool {
    exists|i: int| 0 <= i < foods.len() && #[trigger] foods[i].id == food_id
}

/// Whether food `i` has the identifier `food_id` and no earlier food has it.
pub open spec fn is_first_with_id(foods: Seq<FoodView>, food_id: i32, i: int) -> bool {
    &&& 0 <= i < foods.len()
    &&& foods[i].id == food_id
    &&& forall|j: int| 0 <= j < i ==> #[trigger] foods[j].id != food_id
}

/// The position of the first food that has the identifier `food_id`.
pub open spec fn first_with_id(foods: Seq<FoodView>, food_id: i32) -> int {
    choose|i: int| is_first_with_id(foods, food_id, i)
}

/// The food that a lookup by identifier finds in `foods`: the first one with
/// that identifier, and none where no food has it.
pub open spec fn food_by_id(foods: Seq<FoodView>, food_id: i32) -> Option<FoodView> {
    if has_food_id(foods, food_id) {
        Some(foods[first_with_id(foods, food_id)])
    } else {
        None
    }
}

/// The rows that a lookup by identifier finds in a grouping: the group under
/// that identifier, and none where the food has no key.
pub open spec fn rows_by_id(
    groups: Map<i32, Seq<FoodAndNutrientsView>>,
    food_id: i32,
) -> Option<Seq<FoodAndNutrientsView>> {
    if groups.contains_key(food_id) {
        Some(groups[food_id])
    } else {
        None
    }
}

/// The aggregate that a lookup by identifier finds in a grouping: the
/// aggregate of the food's rows, and none where the food has no key.
pub open spec fn aggregate_by_id(
    groups: Map<i32, Seq<FoodAndNutrientsView>>,
    food_id: i32,
) -> Option<FoodNutrientsView> {
    if groups.contains_key(food_id) {
        aggregate(groups[food_id])
    } else {
        None
    }
}

/// Whether `positions` maps each identifier that occurs in `foods`, and no
/// other, to the position of the first food that has it.
pub open spec fn positions_match(foods: Seq<FoodView>, positions: Map<i32, usize>) -> bool {
    &&& forall|food_id: i32| #[trigger]
        positions.contains_key(food_id) <==> has_food_id(foods, food_id)
    &&& forall|food_id: i32| #[trigger]
        positions.contains_key(food_id) ==> is_first_with_id(
            foods,
            food_id,
            positions[food_id] as int,
        )
}

/// An identifier that occurs in `foods` has a first food, and only one.
pub proof fn lemma_first_with_id(foods: Seq<FoodView>, food_id: i32, i: int)
    requires
        is_first_with_id(foods, food_id, i),
    ensures
        has_food_id(foods, food_id),
        first_with_id(foods, food_id) == i,
        food_by_id(foods, food_id) == Some(foods[i]),
{
    let chosen = first_with_id(foods, food_id);
    assert(is_first_with_id(foods, food_id, chosen));
    if i < chosen {
        assert(foods[i].id != food_id);
    } else if chosen < i {
        assert(foods[chosen].id != food_id);
    }
}

/// Maps each identifier that occurs in `foods` to the position of the first
/// food that has it.
fn index_foods(foods: &Vec<Food>) -> (positions: HashMap<i32, usize>)
    ensures
        positions_match(foods.deep_view(), positions@),
{
    let ghost all = foods.deep_view();
    let mut positions: HashMap<i32, usize> = HashMap::with_capacity(foods.len());
    for i in 0..foods.len()
        invariant
            all == foods.deep_view(),
            positions_match(all.take(i as int), positions@),
    {
        let food_id = foods[i].id;
        let ghost seen = all.take(i as int);
        let ghost longer = all.take(i + 1);
        let ghost before = positions@;
        positions.entry(food_id).or_insert(i);
        proof {
            assert(all[i as int] == foods[i as int]@);
            assert(longer[i as int].id == food_id);
            assert forall|other: i32| #[trigger]
                positions@.contains_key(other) implies has_food_id(longer, other)
                && is_first_with_id(longer, other, positions@[other] as int) by {
                if before.contains_key(other) {
                    let at = before[other] as int;
                    assert(is_first_with_id(seen, other, at));
                    assert(longer[at].id == other);
                    assert forall|j: int| 0 <= j < at implies #[trigger] longer[j].id != other by {
                        assert(seen[j].id != other);
                    }
                } else {
                    assert forall|j: int| 0 <= j < i implies #[trigger] longer[j].id != other by {
                        if longer[j].id == other {
                            assert(seen[j].id == other);
                        }
                    }
                }
            }
            assert forall|other: i32| has_food_id(longer, other) implies #[trigger]
                positions@.contains_key(other) by {
                let j = choose|j: int| 0 <= j < longer.len() && #[trigger] longer[j].id == other;
                if j < i {
                    assert(seen[j].id == other);
                }
            }
        }
    }
    assert(all.take(foods.len() as int) =~= all);
    positions
}

/// The dataset index: the foods in the order in which they were loaded, and
/// the nutrient rows grouped by food.
///
/// An index is built once by [`CachesState::new`] and only read afterwards.
pub struct CachesState {
    foods: Vec<Food>,
    food_positions: HashMap<i32, usize>,
    foods_and_nutrients: HashMap<i32, Vec<FoodAndNutrients>>,
}

impl CachesState {
    #[verifier::type_invariant]
    spec fn well_formed(&self) -> bool {
        &&& positions_match(self.foods.deep_view(), self.food_positions@)
        &&& forall|food_id: i32| #[trigger]
            self.foods_and_nutrients@.contains_key(food_id) ==> is_group_of(
                self.foods_and_nutrients@[food_id].deep_view(),
                food_id,
            )
    }

    /// The foods of the index, in the order in which they were loaded.
    pub closed spec fn foods(&self) -> Seq<FoodView> {
        self.foods.deep_view()
    }

    /// The nutrient rows of the index, grouped by food.
    pub closed spec fn nutrients(&self) -> Map<i32, Seq<FoodAndNutrientsView>> {
        groups_view(self.foods_and_nutrients@)
    }

    /// Builds the index from the two sequences that a loader fetched: all the
    /// foods, and all the food/nutrient rows.
    ///
    /// The foods are kept as they come, in their order. The rows are grouped
    /// by food in one pass.
    pub fn new(foods: Vec<Food>, nutrients: &Vec<FoodAndNutrients>) -> (state: CachesState)
        ensures
            state.foods() == foods.deep_view(),
            state.nutrients() == group_by_food(nutrients.deep_view()),
    {
        let food_positions = index_foods(&foods);
        let foods_and_nutrients = group_nutrients(nutrients);
        proof {
            let rows = nutrients.deep_view();
            assert forall|food_id: i32| #[trigger]
                foods_and_nutrients@.contains_key(food_id) implies is_group_of(
                foods_and_nutrients@[food_id].deep_view(),
                food_id,
            ) by {
                assert(groups_view(foods_and_nutrients@).contains_key(food_id));
                assert(groups_view(foods_and_nutrients@)[food_id]
                    == foods_and_nutrients@[food_id].deep_view());
                lemma_rows_of_food_len(rows, food_id);
                lemma_rows_of_food_members(rows, food_id);
            }
        }
        CachesState { foods, food_positions, foods_and_nutrients }
    }

    /// All the foods, in the order in which they were loaded.
    pub fn get_all_foods(&self) -> (foods: Vec<Food>)
        ensures
            foods.deep_view() == self.foods(),
    {
        let foods = self.foods.clone();
        assert(foods.deep_view() =~= self.foods.deep_view());
        foods
    }

    /// The food with the identifier `food_id`, or nothing where no food of the
    /// index has it. Where several foods have it, the first of them.
    pub fn get_food_by_id(&self, food_id: i32) -> (food: Option<Food>)
        ensures
            food.deep_view() == food_by_id(self.foods(), food_id),
            food is Some <==> has_food_id(self.foods(), food_id),
    {
        proof {
            use_type_invariant(self);
        }
        match self.food_positions.get(&food_id) {
            Some(position) => {
                proof {
                    lemma_first_with_id(self.foods.deep_view(), food_id, *position as int);
                }
                Some(self.foods[*position].clone())
            },
            None => None,
        }
    }

    /// The flat nutrient rows of the food `food_id`, in the order in which
    /// they were loaded, or nothing where the food has no rows.
    pub fn get_nutrients(&self, food_id: i32) -> (rows: Option<Vec<FoodAndNutrients>>)
        ensures
            rows.deep_view() == rows_by_id(self.nutrients(), food_id),
            rows matches Some(found) ==> is_group_of(found.deep_view(), food_id),
    {
        proof {
            use_type_invariant(self);
        }
        match self.foods_and_nutrients.get(&food_id) {
            Some(found) => {
                let rows = found.clone();
                assert(rows.deep_view() =~= found.deep_view());
                Some(rows)
            },
            None => None,
        }
    }

    /// The aggregated nutrients of the food `food_id`, or nothing where the
    /// food has no rows.
    pub fn get_nutrients_v2(&self, food_id: i32) -> (aggregated: Option<FoodNutrients>)
        ensures
            aggregated.deep_view() == aggregate_by_id(self.nutrients(), food_id),
            aggregated is Some <==> self.nutrients().contains_key(food_id),
    {
        proof {
            use_type_invariant(self);
        }
        match self.foods_and_nutrients.get(&food_id) {
            Some(found) => map_to_food_nutrients(found),
            None => None,
        }
    }
}

/// Whether the identifiers of `foods` strictly ascend: each food's identifier
/// is greater than that of every food before it.
pub open spec fn ascending_by_id(foods: Seq<FoodView>) -> bool {
    forall|i: int, j: int| 0 <= i < j < foods.len() ==> foods[i].id < foods[j].id
}

/// The food identifiers that occur in `rows`, each once.
pub open spec fn distinct_food_ids(rows: Seq<FoodAndNutrientsView>) -> Set<i32> {
    rows.map_values(|row: FoodAndNutrientsView| row.food_id).to_set()
}

/// Adds the number of rows that stand under `food_id` in `groups` to a total.
pub open spec fn add_group_len(groups: Map<i32, Seq<FoodAndNutrientsView>>) -> spec_fn(
    nat,
    i32,
) -> nat {
    |total: nat, food_id: i32| total + groups[food_id].len()
}

/// The number of rows in all the groups of `groups` together.
pub open spec fn total_rows(groups: Map<i32, Seq<FoodAndNutrientsView>>) -> nat {
    groups.dom().fold(0nat, add_group_len(groups))
}

/// Where the foods were loaded in strictly ascending order of identifier,
/// every loaded food is what a lookup by its identifier finds, it stands in
/// the list exactly once, and the foods before it in the list are exactly
/// those with a smaller identifier.
pub proof fn lemma_loaded_food_is_found(foods: Seq<FoodView>, i: int)
    requires
        ascending_by_id(foods),
        0 <= i < foods.len(),
    ensures
        food_by_id(foods, foods[i].id) == Some(foods[i]),
        forall|j: int| 0 <= j < foods.len() && foods[j] == foods[i] ==> j == i,
        forall|j: int| 0 <= j < foods.len() ==> (j < i <==> foods[j].id < foods[i].id),
{
    assert(is_first_with_id(foods, foods[i].id, i));
    lemma_first_with_id(foods, foods[i].id, i);
    assert forall|j: int| 0 <= j < foods.len() implies (j < i <==> foods[j].id < foods[i].id) by {
        if i < j {
            assert(foods[i].id < foods[j].id);
        }
    }
}

/// An identifier that no loaded food has is not found among the foods, and
/// one that no loaded row has is found neither among the grouped rows nor
/// among their aggregates.
pub proof fn lemma_unknown_food_is_absent(
    foods: Seq<FoodView>,
    rows: Seq<FoodAndNutrientsView>,
    food_id: i32,
)
    ensures
        !has_food_id(foods, food_id) ==> food_by_id(foods, food_id) is None,
        !has_food(rows, food_id) ==> rows_by_id(group_by_food(rows), food_id) is None,
        !has_food(rows, food_id) ==> aggregate_by_id(group_by_food(rows), food_id) is None,
{
}

/// A food that has a key in the grouping of `rows` has an aggregate: no group
/// is empty.
pub proof fn lemma_grouped_food_has_aggregate(rows: Seq<FoodAndNutrientsView>, food_id: i32)
    ensures
        group_by_food(rows).contains_key(food_id) <==> aggregate_by_id(
            group_by_food(rows),
            food_id,
        ) is Some,
{
    lemma_rows_of_food_len(rows, food_id);
}

/// Asking twice gives the same answer. Whatever two calls of one lookup
/// return for one identifier on one index, the two results say the same:
/// a lookup leaves nothing behind that a later one could see.
pub proof fn lemma_repeated_lookups_agree(
    state: CachesState,
    food_id: i32,
    all_foods: (Vec<Food>, Vec<Food>),
    food: (Option<Food>, Option<Food>),
    rows: (Option<Vec<FoodAndNutrients>>, Option<Vec<FoodAndNutrients>>),
    aggregated: (Option<FoodNutrients>, Option<FoodNutrients>),
)
    requires
        all_foods.0.deep_view() == state.foods(),
        all_foods.1.deep_view() == state.foods(),
        food.0.deep_view() == food_by_id(state.foods(), food_id),
        food.1.deep_view() == food_by_id(state.foods(), food_id),
        rows.0.deep_view() == rows_by_id(state.nutrients(), food_id),
        rows.1.deep_view() == rows_by_id(state.nutrients(), food_id),
        aggregated.0.deep_view() == aggregate_by_id(state.nutrients(), food_id),
        aggregated.1.deep_view() == aggregate_by_id(state.nutrients(), food_id),
    ensures
        all_foods.0.deep_view() == all_foods.1.deep_view(),
        food.0.deep_view() == food.1.deep_view(),
        rows.0.deep_view() == rows.1.deep_view(),
        aggregated.0.deep_view() == aggregated.1.deep_view(),
{
}

/// Two ways of adding up over a finite set give the same total where they
/// add the same for each member of the set.
proof fn lemma_fold_agrees(
    keys: Set<i32>,
    f: spec_fn(nat, i32) -> nat,
    g: spec_fn(nat, i32) -> nat,
)
    requires
        keys.finite(),
        vstd::set::fold::is_fun_commutative(f),
        vstd::set::fold::is_fun_commutative(g),
        forall|total: nat, key: i32| keys.contains(key) ==> #[trigger] f(total, key) == g(total, key),
    ensures
        keys.fold(0nat, f) == keys.fold(0nat, g),
    decreases keys.len(),
{
    if keys.len() == 0 {
        assert(keys =~= Set::<i32>::empty());
        vstd::set::fold::lemma_fold_empty::<i32, nat>(0nat, f);
        vstd::set::fold::lemma_fold_empty::<i32, nat>(0nat, g);
    } else {
        let key = keys.choose();
        let rest = keys.remove(key);
        assert(rest.insert(key) =~= keys);
        lemma_fold_agrees(rest, f, g);
        vstd::set::fold::lemma_fold_insert(rest, 0nat, f, key);
        vstd::set::fold::lemma_fold_insert(rest, 0nat, g, key);
    }
}

/// Putting a group under a key changes the total by the difference between
/// the new group's length and that of the group that stood there before.
proof fn lemma_total_rows_insert(
    groups: Map<i32, Seq<FoodAndNutrientsView>>,
    food_id: i32,
    group: Seq<FoodAndNutrientsView>,
)
    requires
        groups.dom().finite(),
    ensures
        total_rows(groups.insert(food_id, group)) + (if groups.contains_key(food_id) {
            groups[food_id].len()
        } else {
            0
        }) == total_rows(groups) + group.len(),
{
    let after = groups.insert(food_id, group);
    let rest = groups.dom().remove(food_id);
    let f = add_group_len(groups);
    let g = add_group_len(after);
    assert(vstd::set::fold::is_fun_commutative(f));
    assert(vstd::set::fold::is_fun_commutative(g));
    assert(rest.insert(food_id) =~= after.dom());
    lemma_fold_agrees(rest, f, g);
    vstd::set::fold::lemma_fold_insert(rest, 0nat, g, food_id);
    if groups.contains_key(food_id) {
        assert(rest.insert(food_id) =~= groups.dom());
        vstd::set::fold::lemma_fold_insert(rest, 0nat, f, food_id);
    } else {
        assert(rest =~= groups.dom());
    }
}

/// Grouping loses and invents nothing: the grouping of `rows` has one key for
/// each distinct food identifier of `rows`, finitely many, and its groups
/// hold as many rows together as `rows` has.
pub proof fn lemma_grouping_counts(rows: Seq<FoodAndNutrientsView>)
    ensures
        group_by_food(rows).dom() == distinct_food_ids(rows),
        group_by_food(rows).dom().finite(),
        group_by_food(rows).dom().len() == distinct_food_ids(rows).len(),
        total_rows(group_by_food(rows)) == rows.len(),
    decreases rows.len(),
{
    let groups = group_by_food(rows);
    let ids = rows.map_values(|row: FoodAndNutrientsView| row.food_id);
    assert forall|food_id: i32| groups.dom().contains(food_id) implies ids.to_set().contains(
        food_id,
    ) by {
        let i = choose|i: int| 0 <= i < rows.len() && #[trigger] rows[i].food_id == food_id;
        assert(ids[i] == food_id);
    }
    assert forall|food_id: i32| ids.to_set().contains(food_id) implies groups.dom().contains(
        food_id,
    ) by {
        let i = choose|i: int| 0 <= i < ids.len() && ids[i] == food_id;
        assert(rows[i].food_id == food_id);
    }
    assert(groups.dom() =~= distinct_food_ids(rows));
    if rows.len() == 0 {
        assert(groups.dom() =~= Set::<i32>::empty());
        vstd::set::fold::lemma_fold_empty::<i32, nat>(0nat, add_group_len(groups));
    } else {
        let shorter = rows.drop_last();
        let row = rows.last();
        assert(shorter.push(row) =~= rows);
        lemma_grouping_counts(shorter);
        lemma_group_by_food_push(shorter, row);
        lemma_rows_of_food_len(shorter, row.food_id);
        lemma_total_rows_insert(
            group_by_food(shorter),
            row.food_id,
            rows_of_food(shorter, row.food_id).push(row),
        );
    }
}

} // verus!
