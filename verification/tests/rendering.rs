use food_api::model::Food;
use food_api::render::{render_food, render_food_list};

fn food(id: u64, name: &str, price: &str) -> Food {
    Food { id, name: name.to_string(), price: price.to_string() }
}

#[test]
fn one_record_renders_exactly() {
    let f = food(1, "Apple", "1.5");
    assert_eq!(render_food(&f), "{\"id\":1,\"name\":\"Apple\",\"price\":1.5}");
}

#[test]
fn large_ids_render_in_decimal() {
    let f = food(1234567890123, "x", "0");
    assert_eq!(render_food(&f), "{\"id\":1234567890123,\"name\":\"x\",\"price\":0}");
}

#[test]
fn quotes_and_backslashes_are_escaped() {
    let f = food(7, "a\"b\\c", "2");
    assert_eq!(render_food(&f), r#"{"id":7,"name":"a\"b\\c","price":2}"#);
}

#[test]
fn control_characters_are_escaped() {
    let f = food(2, "a\nb\t\u{1}", "0.0");
    assert_eq!(render_food(&f), r#"{"id":2,"name":"a\nb\t\u0001","price":0.0}"#);
}

#[test]
fn empty_listing_renders_as_empty_array() {
    let foods: Vec<Food> = Vec::new();
    assert_eq!(render_food_list(&foods), "[]");
}

#[test]
fn listing_renders_in_order_with_commas() {
    let foods = vec![food(1, "Apple", "1.5"), food(2, "Pear", "0.75")];
    assert_eq!(
        render_food_list(&foods),
        "[{\"id\":1,\"name\":\"Apple\",\"price\":1.5},{\"id\":2,\"name\":\"Pear\",\"price\":0.75}]",
    );
}

#[test]
fn rendered_record_is_valid_json_for_a_reference_reader() {
    let f = food(3, "Crème brûlée \"special\"\n", "12.75");
    let text = render_food(&f);
    let v: serde_json::Value = serde_json::from_str(&text).unwrap();
    assert_eq!(v["id"].as_i64(), Some(3));
    assert_eq!(v["name"].as_str(), Some("Crème brûlée \"special\"\n"));
    assert_eq!(v["price"].as_f64(), Some(12.75));
}

#[test]
fn rendered_listing_is_valid_json_for_a_reference_reader() {
    let foods = vec![food(1, "Apple", "1.5"), food(2, "Pear", "7.5e-1")];
    let text = render_food_list(&foods);
    let v: serde_json::Value = serde_json::from_str(&text).unwrap();
    let arr = v.as_array().unwrap();
    assert_eq!(arr.len(), 2);
    assert_eq!(arr[0]["name"].as_str(), Some("Apple"));
    assert_eq!(arr[1]["price"].as_f64(), Some(0.75));
}
