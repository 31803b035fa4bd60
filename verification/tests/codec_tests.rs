use nutrilog::user::{User, UserType};
use nutrilog::meal::{Meal, MealType};
use nutrilog::usda::Food;
use nutrilog::date::{Date, parse_date};

#[test]
fn user_encoding_is_readable_json() {
    let u = User {
        id: b"u1".to_vec(),
        name: b"A \"quoted\" name \\ with a backslash".to_vec(),
        email: b"a@b".to_vec(),
        user_type: UserType::Admin,
    };
    let enc = u.encode();
    let text = String::from_utf8(enc.clone()).unwrap();
    assert_eq!(
        text,
        "{\"id\":\"u1\",\"name\":\"A \\\"quoted\\\" name \\\\ with a backslash\",\"email\":\"a@b\",\"user_type\":\"Admin\"}"
    );
    assert_eq!(User::decode(&enc).unwrap(), u);
}

#[test]
fn nutritionist_roles_carry_their_delegated_list() {
    let u = User {
        id: b"n".to_vec(),
        name: b"n".to_vec(),
        email: b"n@e".to_vec(),
        user_type: UserType::Nutritionist(vec![b"a".to_vec(), b"b".to_vec()]),
    };
    let enc = u.encode();
    let text = String::from_utf8(enc.clone()).unwrap();
    assert!(text.contains("{\"Nutritionist\":[\"a\",\"b\"]}"));
    assert_eq!(User::decode(&enc).unwrap(), u);
}

#[test]
fn malformed_stored_text_reads_as_absent() {
    assert!(User::decode(&b"not json at all".to_vec()).is_none());
    assert!(Meal::decode(&b"{\"contents\":[],".to_vec()).is_none());
    assert!(Food::decode(&b"".to_vec()).is_none());
    // trailing bytes after a record are refused too
    let mut enc = User {
        id: b"u".to_vec(),
        name: b"n".to_vec(),
        email: b"e".to_vec(),
        user_type: UserType::User,
    }
    .encode();
    enc.push(b' ');
    assert!(User::decode(&enc).is_none());
}

#[test]
fn meal_dates_are_written_padded() {
    let mut m = Meal::example();
    m.date = Date { year: 987, month: 3, day: 7 };
    m.meal_type = MealType::Snack;
    let text = String::from_utf8(m.encode()).unwrap();
    assert!(text.contains("\"date\":\"0987-03-07\""));
    assert!(text.contains("\"meal_type\":\"Snack\""));
}

#[test]
fn amounts_are_written_as_trimmed_decimals() {
    let f = Food::new(3, b"x".to_vec(), vec![nutrilog::usda::Nutrient {
        id: 1,
        name: b"Protein".to_vec(),
        amount: Some(1_500),
        unit: b"G".to_vec(),
        median: Some(50),
    }]);
    let text = String::from_utf8(f.encode()).unwrap();
    assert!(text.contains("\"value\":1.5"));
    assert!(text.contains("\"median\":0.05"));
    assert!(text.contains("\"proteins\":1.5"));
}

#[test]
fn request_dates_parse_only_when_valid() {
    assert_eq!(
        parse_date(&b"2024-01-01".to_vec()),
        Some(Date { year: 2024, month: 1, day: 1 })
    );
    assert_eq!(
        parse_date(&b"2024-02-29".to_vec()),
        Some(Date { year: 2024, month: 2, day: 29 })
    );
    assert_eq!(parse_date(&b"2023-02-29".to_vec()), None);
    assert_eq!(parse_date(&b"2024-13-01".to_vec()), None);
    assert_eq!(parse_date(&b"2024-1-1".to_vec()), None);
    assert_eq!(parse_date(&b"yesterday".to_vec()), None);
}

#[test]
fn meal_types_read_request_paths() {
    assert_eq!(MealType::from_path(&b"lunch".to_vec()), MealType::Lunch);
    assert_eq!(MealType::from_path(&b"dinner".to_vec()), MealType::Dinner);
    assert_eq!(MealType::from_path(&b"snack".to_vec()), MealType::Snack);
    assert_eq!(MealType::from_path(&b"brunch".to_vec()), MealType::Breakfast);
}

#[test]
fn fresh_ids_have_the_hyphenated_shape() {
    let id = nutrilog::ids::fresh_id();
    assert_eq!(id.len(), 36);
    assert_eq!(id[8], b'-');
    assert_eq!(id[13], b'-');
    let other = nutrilog::ids::fresh_id();
    assert_eq!(other.len(), 36);
}
