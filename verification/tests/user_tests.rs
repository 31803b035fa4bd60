use nutrilog::kv::KvStore;
use nutrilog::user::{User, UserType, check_nutritionist_access, role_for_username};
use nutrilog::store::fetch_from_uuid;
use nutrilog::meal::{Meal, MealType};
use nutrilog::date::Date;
use nutrilog::product::OpenFFValue;
use chrono::Datelike;

#[test]
fn test_user() {
}

#[test]
fn test_openff_value() {
    // amounts are thousandths: both forms of one unit read as 1000
    let flt = OpenFFValue::Num(1000);
    let s = OpenFFValue::Str(b"1.0".to_vec());
    let flt_res = flt.to_numerical_checked().unwrap();
    let str_res = s.to_numerical_checked().unwrap();
    assert_eq!(flt_res, 1000);
    assert_eq!(str_res, 1000);
}

#[test]
fn text_amounts_parse_or_read_as_zero() {
    assert_eq!(OpenFFValue::Str(b"56.3".to_vec()).to_numerical(), 56_300);
    assert_eq!(OpenFFValue::Str(b"12".to_vec()).to_numerical(), 12_000);
    assert_eq!(OpenFFValue::Str(b"not a number".to_vec()).to_numerical(), 0);
    assert!(OpenFFValue::Str(b"not a number".to_vec()).to_numerical_checked().is_err());
}

#[test]
fn nutritionists_see_only_their_delegated_users() {
    let viewer = User {
        id: b"nina".to_vec(),
        name: b"Nina".to_vec(),
        email: b"nina@example.test".to_vec(),
        user_type: UserType::Nutritionist(vec![b"alice".to_vec()]),
    };
    assert!(check_nutritionist_access(&viewer.user_type, &b"alice".to_vec()));
    assert!(!check_nutritionist_access(&viewer.user_type, &b"bob".to_vec()));
    assert!(!check_nutritionist_access(&UserType::User, &b"alice".to_vec()));
    assert!(!check_nutritionist_access(&UserType::Admin, &b"alice".to_vec()));
}

#[test]
fn login_roles_follow_the_fixed_rule() {
    assert_eq!(
        role_for_username(&b"jan".to_vec()),
        UserType::Nutritionist(vec![b"jan".to_vec()])
    );
    assert_eq!(role_for_username(&b"alice".to_vec()), UserType::User);
}

#[test]
fn login_creates_the_user_once_and_refreshes_the_role() {
    let mut kv = KvStore::new();
    let first = User::check_if_exists_or_create(&mut kv, &b"bob".to_vec(),
        &b"bob@example.test".to_vec());
    assert_eq!(first.id, b"bob".to_vec());
    assert_eq!(first.user_type, UserType::User);
    let stored: User = fetch_from_uuid(&kv, &b"bob".to_vec()).expect("created on first login");
    assert_eq!(stored, first);
    let again = User::check_if_exists_or_create(&mut kv, &b"bob".to_vec(),
        &b"other@example.test".to_vec());
    assert_eq!(again.email, b"bob@example.test".to_vec());
}

#[test]
fn absent_users_read_as_an_error() {
    let kv = KvStore::new();
    assert!(User::check_if_exists_by_id(&kv, &b"ghost".to_vec()).is_err());
}

#[test]
fn test_handle_create_meal() {
    let mut kv = KvStore::new();
    let mut new_meal = Meal::example();
    let now = chrono::Utc::now().date_naive();
    new_meal.date = Date {
        year: now.year() as u32,
        month: now.month(),
        day: now.day(),
    };
    nutrilog::store::save_meal(&mut kv, &new_meal);
}

#[test]
fn days_group_meals_by_slot_with_the_last_one_winning() {
    let date = Date { year: 2024, month: 1, day: 2 };
    let mut a = Meal::example();
    a.id = b"a".to_vec();
    a.date = date;
    a.meal_type = MealType::Breakfast;
    let mut b = Meal::example();
    b.id = b"b".to_vec();
    b.date = date;
    b.meal_type = MealType::Lunch;
    let mut c = Meal::example();
    c.id = b"c".to_vec();
    c.date = date;
    c.meal_type = MealType::Breakfast;
    let combo = nutrilog::meal::DailyMealCombo::from_meals_vec(vec![a, b, c]);
    assert_eq!(combo.date, date);
    assert_eq!(combo.breakfast.unwrap().id, b"c".to_vec());
    assert_eq!(combo.lunch.unwrap().id, b"b".to_vec());
    assert!(combo.dinner.is_none());
    assert!(combo.snack.is_none());
}

#[test]
fn day_groups_come_latest_first_with_slots_filled() {
    let mk = |id: &str, y: u32, m: u32, d: u32, t: MealType| {
        let mut meal = Meal::example();
        meal.id = id.as_bytes().to_vec();
        meal.date = Date { year: y, month: m, day: d };
        meal.meal_type = t;
        meal
    };
    let meals = vec![
        mk("a", 2024, 1, 1, MealType::Breakfast),
        mk("b", 2024, 1, 3, MealType::Lunch),
        mk("c", 2024, 1, 1, MealType::Breakfast),
        mk("d", 2023, 12, 31, MealType::Snack),
    ];
    let days = nutrilog::meal::group_meals_by_day(&meals);
    assert_eq!(days.len(), 3);
    assert_eq!(days[0].0, Date { year: 2024, month: 1, day: 3 });
    assert_eq!(days[1].0, Date { year: 2024, month: 1, day: 1 });
    assert_eq!(days[2].0, Date { year: 2023, month: 12, day: 31 });
    // of the two breakfasts on one day, the later in the list wins
    assert_eq!(days[1].1.breakfast.as_ref().unwrap().id, b"c".to_vec());
    assert!(days[1].1.lunch.is_none());
    assert_eq!(days[0].1.lunch.as_ref().unwrap().id, b"b".to_vec());
    assert_eq!(days[2].1.snack.as_ref().unwrap().id, b"d".to_vec());
}
