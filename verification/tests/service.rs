use food_api::handlers::{create_food, create_response, get_all_foods, list_response};
use food_api::model::{Food, StorageError};
use food_api::store::Store;

fn ok<T>(r: Result<T, StorageError>) -> T {
    match r {
        Ok(v) => v,
        Err(_) => panic!("unexpected storage failure"),
    }
}

#[test]
fn listing_an_empty_store_is_ok_and_empty() {
    let store = Store::new();
    let resp = get_all_foods(&store);
    assert_eq!(resp.status, 200);
    assert_eq!(resp.body, "[]");
}

#[test]
fn create_returns_the_record_with_its_fresh_id() {
    let mut store = Store::new();
    let resp = create_food(&mut store, "{\"name\":\"Apple\",\"price\":1.5}");
    assert_eq!(resp.status, 200);
    assert_eq!(resp.body, "{\"id\":1,\"name\":\"Apple\",\"price\":1.5}");
}

#[test]
fn create_with_empty_body_uses_the_defaults() {
    let mut store = Store::new();
    let resp = create_food(&mut store, "{}");
    assert_eq!(resp.status, 200);
    assert_eq!(resp.body, "{\"id\":1,\"name\":\"\",\"price\":0.0}");
}

#[test]
fn create_with_mistyped_price_still_succeeds() {
    let mut store = Store::new();
    let resp = create_food(&mut store, "{\"name\":\"Apple\",\"price\":\"oops\"}");
    assert_eq!(resp.status, 200);
    assert_eq!(resp.body, "{\"id\":1,\"name\":\"Apple\",\"price\":0.0}");
}

#[test]
fn successive_creates_get_distinct_ascending_ids() {
    let mut store = Store::new();
    let mut ids: Vec<u64> = Vec::new();
    for body in [
        "{\"name\":\"Apple\",\"price\":1.5}",
        "{\"name\":\"Pear\",\"price\":0.75}",
        "{\"name\":\"Plum\",\"price\":2}",
    ] {
        let resp = create_food(&mut store, body);
        assert_eq!(resp.status, 200);
        let v: serde_json::Value = serde_json::from_str(&resp.body).unwrap();
        ids.push(v["id"].as_u64().unwrap());
    }
    assert_eq!(ids, vec![1, 2, 3]);
    for i in 1..ids.len() {
        assert!(ids[i - 1] < ids[i]);
    }
}

#[test]
fn listing_returns_creations_in_order() {
    let mut store = Store::new();
    create_food(&mut store, "{\"name\":\"Apple\",\"price\":1.5}");
    create_food(&mut store, "{\"name\":\"Pear\",\"price\":0.75}");
    let resp = get_all_foods(&store);
    assert_eq!(resp.status, 200);
    assert_eq!(
        resp.body,
        "[{\"id\":1,\"name\":\"Apple\",\"price\":1.5},{\"id\":2,\"name\":\"Pear\",\"price\":0.75}]",
    );
}

#[test]
fn storage_failure_on_listing_maps_to_500_with_the_error_text() {
    let outcome: Result<Vec<Food>, StorageError> =
        Err(StorageError { message: "connection dropped".to_string() });
    let resp = list_response(&outcome);
    assert_eq!(resp.status, 500);
    assert!(!resp.body.is_empty());
    assert_eq!(resp.body, "connection dropped");
}

#[test]
fn storage_failure_on_create_maps_to_500_with_the_error_text() {
    let outcome: Result<Food, StorageError> =
        Err(StorageError { message: "connection dropped".to_string() });
    let resp = create_response(&outcome);
    assert_eq!(resp.status, 500);
    assert!(!resp.body.is_empty());
    assert_eq!(resp.body, "connection dropped");
}

#[test]
fn successful_outcomes_map_to_200_and_json() {
    let f = Food { id: 9, name: "Fig".to_string(), price: "3".to_string() };
    let resp = create_response(&Ok(f));
    assert_eq!(resp.status, 200);
    assert_eq!(resp.body, "{\"id\":9,\"name\":\"Fig\",\"price\":3}");

    let foods = vec![Food { id: 9, name: "Fig".to_string(), price: "3".to_string() }];
    let resp2 = list_response(&Ok(foods));
    assert_eq!(resp2.status, 200);
    assert_eq!(resp2.body, "[{\"id\":9,\"name\":\"Fig\",\"price\":3}]");
}

#[test]
fn store_inserts_and_lists_directly() {
    let mut store = Store::new();
    let a = ok(store.insert_food("Apple".to_string(), "1.5".to_string()));
    let b = ok(store.insert_food("Apple".to_string(), "1.5".to_string()));
    assert_ne!(a.id, b.id);
    let rows = ok(store.list_foods());
    assert_eq!(rows.len(), 2);
    assert_eq!(rows[0].id, a.id);
    assert_eq!(rows[1].id, b.id);
    assert_eq!(rows[0].name, "Apple");
    assert_eq!(rows[0].price, "1.5");
}
