use nutrilog::kv::KvStore;
use nutrilog::store::{default_save, fetch_from_uuid, all_records, save_meal, save_product,
    find_or_create_meal, add_content_to_meal};
use nutrilog::user::{User, UserType};
use nutrilog::meal::{Meal, MealType, MealContent};
use nutrilog::usda::{Food, Nutrient, FoodSearchResult};
use nutrilog::product::{Product, Nutriments, OpenFFValue, SearchResult, NutritionistSearchQuery,
    OpenFoodFactsQuery};
use nutrilog::date::Date;

fn sample_user() -> User {
    User {
        id: b"alice".to_vec(),
        name: b"Alice".to_vec(),
        email: b"alice@example.test".to_vec(),
        user_type: UserType::Nutritionist(vec![b"bob".to_vec(), b"carol".to_vec()]),
    }
}

fn sample_food(id: u64, name: &str) -> Food {
    let nutrients = vec![Nutrient {
        id: 1008,
        name: b"Energy".to_vec(),
        amount: Some(250_500),
        unit: b"KCAL".to_vec(),
        median: Some(1_000),
    }];
    Food::new(id, name.as_bytes().to_vec(), nutrients)
}

fn sample_product(code: &str, name: Option<&str>) -> Product {
    Product {
        code: code.as_bytes().to_vec(),
        nutrition_grades: Some(b"a".to_vec()),
        product_name: name.map(|n| n.as_bytes().to_vec()),
        nutriments: Some(Nutriments {
            carbohydrates_100g: Some(OpenFFValue::Num(57_500)),
            sugars_100g: Some(OpenFFValue::Str(b"56.3".to_vec())),
            proteins_100g: Some(OpenFFValue::Num(6_300)),
            fat_100g: None,
            energy_kcal_100g: Some(OpenFFValue::Num(539_000)),
            fiber_100g: None,
            salt_100g: Some(OpenFFValue::Num(107)),
            sodium_100g: Some(OpenFFValue::Num(42)),
        }),
    }
}

#[test]
fn round_trip_user() {
    let mut kv = KvStore::new();
    let u = sample_user();
    default_save(&mut kv, &u);
    let got: User = fetch_from_uuid(&kv, &b"alice".to_vec()).expect("stored user reads back");
    assert_eq!(got, u);
}

#[test]
fn round_trip_meal() {
    let mut kv = KvStore::new();
    let mut m = Meal::example();
    m.id = b"meal-1".to_vec();
    m.username = b"alice".to_vec();
    m.add_content(MealContent { product: sample_food(4, "oats"), quantity: 40, id: b"c1".to_vec() });
    save_meal(&mut kv, &m);
    let got: Meal = fetch_from_uuid(&kv, &b"meal-1".to_vec()).expect("stored meal reads back");
    assert_eq!(got, m);
}

#[test]
fn round_trip_product() {
    let mut kv = KvStore::new();
    let p = sample_product("4001234", Some("Test K\u{00f6}llnflocken Bl\u{00fc}tenzart"));
    save_product(&mut kv, &p);
    let got: Product = fetch_from_uuid(&kv, &b"4001234".to_vec()).expect("stored product reads back");
    assert_eq!(got, p);
}

#[test]
fn round_trip_food() {
    let mut kv = KvStore::new();
    let f = sample_food(123, "apple \"fresh\" \\ raw");
    default_save(&mut kv, &f);
    let got: Food = fetch_from_uuid(&kv, &b"123".to_vec()).expect("stored food reads back");
    assert_eq!(got, f);
}

#[test]
fn round_trip_search_results() {
    let mut kv = KvStore::new();
    let sr = SearchResult {
        products: vec![sample_product("1", Some("one")), sample_product("2", None)],
        query: NutritionistSearchQuery { query: b"oats".to_vec() },
    };
    default_save(&mut kv, &sr);
    let got: SearchResult = fetch_from_uuid(&kv, &b"oats".to_vec()).expect("cache reads back");
    assert_eq!(got, sr);

    let fsr = FoodSearchResult { products: vec![sample_food(9, "pear")], query: b"pear".to_vec() };
    default_save(&mut kv, &fsr);
    let got: FoodSearchResult = fetch_from_uuid(&kv, &b"pear".to_vec()).expect("cache reads back");
    assert_eq!(got, fsr);
}

#[test]
fn list_all_returns_each_distinct_record_once() {
    let mut kv = KvStore::new();
    for (id, name) in [(1u64, "Test Product1"), (2, "Test Product2"), (3, "Test Product3")] {
        default_save(&mut kv, &sample_food(id, name));
    }
    let foods: Vec<Food> = all_records(&kv);
    assert_eq!(foods.len(), 3);
    assert_eq!(foods[0].description, b"Test Product1".to_vec());
    assert_eq!(foods[2].description, b"Test Product3".to_vec());
}

#[test]
fn saving_twice_is_idempotent() {
    let mut kv = KvStore::new();
    let u = sample_user();
    default_save(&mut kv, &u);
    let once: User = fetch_from_uuid(&kv, &b"alice".to_vec()).unwrap();
    default_save(&mut kv, &u);
    let twice: User = fetch_from_uuid(&kv, &b"alice".to_vec()).unwrap();
    assert_eq!(once, twice);
    let users: Vec<User> = all_records(&kv);
    assert_eq!(users.len(), 1);
}

#[test]
fn name_search_is_case_insensitive() {
    let mut kv = KvStore::new();
    let p = sample_product("3017620422003", Some("Nutella"));
    save_product(&mut kv, &p);
    let found = Product::search_local(&kv, &b"nutella".to_vec());
    assert_eq!(found.len(), 1);
    assert_eq!(found[0].code, b"3017620422003".to_vec());
    let missed = Product::search_local(&kv, &b"marmite".to_vec());
    assert!(missed.is_empty());
}

#[test]
fn unnamed_products_stay_out_of_the_name_index() {
    let mut kv = KvStore::new();
    save_product(&mut kv, &sample_product("77", None));
    let found = Product::search_local(&kv, &b"".to_vec());
    assert!(found.is_empty());
}

#[test]
fn creating_the_same_meal_slot_twice_returns_one_id() {
    let mut kv = KvStore::new();
    let date = Date { year: 2024, month: 1, day: 1 };
    let first = find_or_create_meal(&mut kv, &b"u1".to_vec(), date, MealType::Breakfast,
        b"id-first".to_vec());
    let second = find_or_create_meal(&mut kv, &b"u1".to_vec(), date, MealType::Breakfast,
        b"id-second".to_vec());
    assert_eq!(first, b"id-first".to_vec());
    assert_eq!(second, b"id-first".to_vec());
    // a different slot gets its own meal
    let lunch = find_or_create_meal(&mut kv, &b"u1".to_vec(), date, MealType::Lunch,
        b"id-lunch".to_vec());
    assert_eq!(lunch, b"id-lunch".to_vec());
}

#[test]
fn meals_land_on_their_owners_index() {
    let mut kv = KvStore::new();
    let date = Date { year: 2024, month: 2, day: 29 };
    find_or_create_meal(&mut kv, &b"u1".to_vec(), date, MealType::Dinner, b"m1".to_vec());
    find_or_create_meal(&mut kv, &b"u2".to_vec(), date, MealType::Dinner, b"m2".to_vec());
    let u1_meals = Meal::get_meals_for_user(&kv, &b"u1".to_vec());
    assert_eq!(u1_meals.len(), 1);
    assert_eq!(u1_meals[0].id, b"m1".to_vec());
    assert_eq!(u1_meals[0].meal_type, MealType::Dinner);
}

#[test]
fn adding_content_needs_meal_and_product() {
    let mut kv = KvStore::new();
    let date = Date { year: 2024, month: 3, day: 5 };
    find_or_create_meal(&mut kv, &b"u1".to_vec(), date, MealType::Snack, b"m1".to_vec());
    assert!(add_content_to_meal(&mut kv, &b"m1".to_vec(), &b"55".to_vec(), 50,
        b"c1".to_vec()).is_err());
    default_save(&mut kv, &sample_food(55, "bar"));
    add_content_to_meal(&mut kv, &b"m1".to_vec(), &b"55".to_vec(), 50, b"c1".to_vec()).unwrap();
    let m: Meal = fetch_from_uuid(&kv, &b"m1".to_vec()).unwrap();
    assert_eq!(m.contents.len(), 1);
    assert_eq!(m.contents[0].quantity, 50);
}

#[test]
fn fetch_of_an_absent_id_is_none() {
    let kv = KvStore::new();
    let got: Option<Meal> = fetch_from_uuid(&kv, &b"nothing-here".to_vec());
    assert!(got.is_none());
}

#[test]
fn cache_store_then_lookup_returns_the_foods() {
    let mut kv = KvStore::new();
    assert!(nutrilog::store::usda_cached_lookup(&kv, &b"apple".to_vec()).is_none());
    let foods = vec![sample_food(1, "apple one"), sample_food(2, "apple two")];
    nutrilog::store::usda_cache_store(&mut kv, b"apple".to_vec(), foods.clone());
    let hit = nutrilog::store::usda_cached_lookup(&kv, &b"apple".to_vec()).expect("cache hit");
    assert_eq!(hit, foods);
}

#[test]
fn openff_cache_store_then_lookup_returns_the_products() {
    let mut kv = KvStore::new();
    let products = vec![sample_product("10", Some("Nutella"))];
    nutrilog::store::openff_cache_store(&mut kv, b"Nutella".to_vec(), products.clone());
    let hit = nutrilog::store::openff_cached_lookup(&kv, &b"Nutella".to_vec()).expect("cache hit");
    assert_eq!(hit, products);
    // storing the products also indexed their names
    let found = Product::search_local(&kv, &b"NUTELLA".to_vec());
    assert_eq!(found.len(), 1);
}

#[test]
fn openff_query_carries_the_region_tag() {
    let q = OpenFoodFactsQuery::new(b"pizza".to_vec());
    assert_eq!(q.search_query, b"pizza".to_vec());
    assert_eq!(q.tags, vec![b"de".to_vec()]);
}

#[test]
fn delegated_ids_resolve_in_order_skipping_ghosts() {
    let mut kv = KvStore::new();
    default_save(&mut kv, &User {
        id: b"alice".to_vec(),
        name: b"Alice".to_vec(),
        email: b"a@e".to_vec(),
        user_type: UserType::User,
    });
    default_save(&mut kv, &User {
        id: b"carol".to_vec(),
        name: b"Carol".to_vec(),
        email: b"c@e".to_vec(),
        user_type: UserType::User,
    });
    let ids = vec![b"carol".to_vec(), b"ghost".to_vec(), b"alice".to_vec()];
    let users = nutrilog::store::resolve_delegated(&kv, &ids);
    assert_eq!(users.len(), 2);
    assert_eq!(users[0].name, b"Carol".to_vec());
    assert_eq!(users[1].name, b"Alice".to_vec());
}

#[test]
fn saving_many_fresh_records_extends_the_enumeration_by_each() {
    let mut kv = KvStore::new();
    default_save(&mut kv, &sample_food(9, "already there"));
    let fresh = vec![
        sample_food(1, "one"),
        sample_food(2, "two"),
        sample_food(3, "three"),
        sample_food(4, "four"),
    ];
    nutrilog::store::save_all(&mut kv, &fresh);
    let foods: Vec<Food> = all_records(&kv);
    assert_eq!(foods.len(), 5);
    assert_eq!(foods[1..], fresh[..]);
}

#[test]
fn cache_records_carry_the_retention_window() {
    let mut kv = KvStore::new();
    nutrilog::store::usda_cache_store(&mut kv, b"apple".to_vec(), vec![sample_food(1, "a")]);
    let cache_key = nutrilog::store::make_key(
        &b"usda_search".to_vec(),
        &b"apple".to_vec(),
    );
    let entry = kv.entries.iter().find(|e| e.key == cache_key).expect("cache entry stored");
    assert_eq!(entry.ttl, Some(nutrilog::store::SEARCH_TTL_SECONDS));
    // a plain record save carries no retention note
    let food_key = nutrilog::store::make_key(&b"usda_food".to_vec(), &b"1".to_vec());
    let entry = kv.entries.iter().find(|e| e.key == food_key).expect("food stored");
    assert_eq!(entry.ttl, None);
}

#[test]
fn adding_content_grows_the_stored_meal_by_one_entry() {
    let mut kv = KvStore::new();
    let date = Date { year: 2024, month: 6, day: 1 };
    find_or_create_meal(&mut kv, &b"u1".to_vec(), date, MealType::Lunch, b"m1".to_vec());
    default_save(&mut kv, &sample_food(7, "rice"));
    add_content_to_meal(&mut kv, &b"m1".to_vec(), &b"7".to_vec(), 120, b"c1".to_vec()).unwrap();
    add_content_to_meal(&mut kv, &b"m1".to_vec(), &b"7".to_vec(), 30, b"c2".to_vec()).unwrap();
    let m: Meal = fetch_from_uuid(&kv, &b"m1".to_vec()).unwrap();
    assert_eq!(m.contents.len(), 2);
    assert_eq!(m.contents[0].quantity, 120);
    assert_eq!(m.contents[1].quantity, 30);
    assert_eq!(m.contents[1].product.description, b"rice".to_vec());
}
