use nutrilog::nutrients::{accumulate, NutrientValues};
use nutrilog::meal::{Meal, MealContent};
use nutrilog::usda::{Food, Nutrient};

fn nv(c: u64, p: u64, f: u64, e: u64) -> NutrientValues {
    NutrientValues {
        carbohydrates: c,
        proteins: p,
        fats: f,
        energy: e,
        fiber: 5,
        salt: 6,
        sodium: 7,
        sugar: 8,
    }
}

#[test]
fn accumulate_is_order_independent() {
    let a = nv(1000, 2000, 3000, 4000);
    let b = nv(10, 20, 30, 40);
    let c = nv(7, 7, 7, 7);
    let direct = a.add(&b).add(&c);
    let orders = vec![
        vec![a, b, c],
        vec![a, c, b],
        vec![b, a, c],
        vec![b, c, a],
        vec![c, a, b],
        vec![c, b, a],
    ];
    for order in orders {
        assert_eq!(accumulate(&order), direct);
    }
}

#[test]
fn scale_by_zero_is_zero() {
    let v = nv(123, 456, 789, 1000);
    assert_eq!(v.scale(0), NutrientValues::zero());
    assert_eq!(NutrientValues::zero().scale(0), NutrientValues::zero());
    assert_eq!(nv(u64::MAX, 1, 0, 3).scale(0), NutrientValues::zero());
}

#[test]
fn scale_distributes_over_accumulate() {
    let a = nv(1500, 250, 33, 99);
    let b = nv(41, 0, 7000, 1);
    let k = 17;
    let left = accumulate(&vec![a, b]).scale(k);
    let right = accumulate(&vec![a.scale(k), b.scale(k)]);
    assert_eq!(left, right);
}

#[test]
fn accumulate_of_empty_is_zero() {
    let vs: Vec<NutrientValues> = Vec::new();
    assert_eq!(accumulate(&vs), NutrientValues::zero());
}

#[test]
fn saturating_addition_caps_at_the_top() {
    let a = nv(u64::MAX - 5, 0, 0, 0);
    let b = nv(100, 0, 0, 0);
    assert_eq!(a.add(&b).carbohydrates, u64::MAX);
}

fn energy_food(kcal_milli: u64) -> Food {
    let nutrients = vec![Nutrient {
        id: 1008,
        name: b"Energy".to_vec(),
        amount: Some(kcal_milli),
        unit: b"KCAL".to_vec(),
        median: None,
    }];
    Food::new(77, b"test snack".to_vec(), nutrients)
}

#[test]
fn meal_totals_scale_each_snapshot_by_its_quantity() {
    // two snapshots of 100 kcal per 100 g, 50 g each: 100 * 0.5 + 100 * 0.5
    let mut meal = Meal::example();
    meal.add_content(MealContent {
        product: energy_food(100_000),
        quantity: 50,
        id: b"c1".to_vec(),
    });
    meal.add_content(MealContent {
        product: energy_food(100_000),
        quantity: 50,
        id: b"c2".to_vec(),
    });
    let totals = meal.get_macros();
    assert_eq!(totals.energy, 100_000);
}

#[test]
fn kcal_sums_unscaled_snapshot_energy() {
    let mut meal = Meal::example();
    meal.add_content(MealContent {
        product: energy_food(100_000),
        quantity: 50,
        id: b"c1".to_vec(),
    });
    meal.add_content(MealContent {
        product: energy_food(25_000),
        quantity: 10,
        id: b"c2".to_vec(),
    });
    assert_eq!(meal.get_kcal(), 125_000);
}

#[test]
fn macros_derive_sodium_and_salt_from_the_sodium_entry() {
    // 400 mg sodium per 100 g: 0.4 g sodium, 1 g salt
    let nutrients = vec![Nutrient {
        id: 1093,
        name: b"Sodium, Na".to_vec(),
        amount: Some(400_000),
        unit: b"MG".to_vec(),
        median: None,
    }];
    let food = Food::new(5, b"salty".to_vec(), nutrients);
    let m = food.get_numerical_macros();
    assert_eq!(m.sodium, 400);
    assert_eq!(m.salt, 1000);
    assert_eq!(m.energy, 0);
}

#[test]
fn macros_read_the_named_nutrients() {
    let nutrients = vec![
        Nutrient {
            id: 1,
            name: b"Carbohydrate, by difference".to_vec(),
            amount: Some(12_300),
            unit: b"G".to_vec(),
            median: None,
        },
        Nutrient {
            id: 2,
            name: b"Protein".to_vec(),
            amount: Some(4_500),
            unit: b"G".to_vec(),
            median: None,
        },
        Nutrient {
            id: 3,
            name: b"Total lipid (fat)".to_vec(),
            amount: None,
            unit: b"G".to_vec(),
            median: None,
        },
    ];
    let food = Food::new(9, b"mixed".to_vec(), nutrients);
    let m = food.get_numerical_macros();
    assert_eq!(m.carbohydrates, 12_300);
    assert_eq!(m.proteins, 4_500);
    assert_eq!(m.fats, 0);
}

#[test]
fn removing_a_content_entry_keeps_the_rest() {
    let mut meal = Meal::example();
    meal.add_content(MealContent {
        product: energy_food(100_000),
        quantity: 50,
        id: b"keep".to_vec(),
    });
    meal.add_content(MealContent {
        product: energy_food(1_000),
        quantity: 10,
        id: b"drop".to_vec(),
    });
    meal.remove_content(&b"drop".to_vec());
    assert_eq!(meal.contents.len(), 1);
    assert_eq!(meal.contents[0].id, b"keep".to_vec());
}
