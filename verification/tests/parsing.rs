use food_api::model::CreateFoodRequest;
use food_api::parse::parse_create_food_request;

#[test]
fn empty_object_gives_defaults() {
    let req = parse_create_food_request("{}");
    assert_eq!(req.name, "");
    assert_eq!(req.price, "0.0");
}

#[test]
fn name_and_price_are_read() {
    let req = parse_create_food_request("{\"name\":\"Apple\",\"price\":1.5}");
    assert_eq!(req.name, "Apple");
    assert_eq!(req.price, "1.5");
}

#[test]
fn price_as_string_falls_back_to_default() {
    let req = parse_create_food_request("{\"name\":\"Apple\",\"price\":\"1.5\"}");
    assert_eq!(req.name, "Apple");
    assert_eq!(req.price, "0.0");
}

#[test]
fn name_of_wrong_type_falls_back_to_default() {
    let req = parse_create_food_request("{\"name\":123,\"price\":2.25}");
    assert_eq!(req.name, "");
    assert_eq!(req.price, "2.25");
}

#[test]
fn body_that_is_not_an_object_gives_defaults() {
    let req = parse_create_food_request("not json at all");
    assert_eq!(req.name, "");
    assert_eq!(req.price, "0.0");
}

#[test]
fn empty_body_gives_defaults() {
    let req = parse_create_food_request("");
    assert_eq!(req.name, "");
    assert_eq!(req.price, "0.0");
}

#[test]
fn unknown_members_are_ignored() {
    let req = parse_create_food_request(
        "{ \"stock\" : true , \"name\" : \"Pear\" , \"note\" : null , \"price\" : -0.5 }",
    );
    assert_eq!(req.name, "Pear");
    assert_eq!(req.price, "-0.5");
}

#[test]
fn last_occurrence_wins() {
    let req = parse_create_food_request("{\"name\":\"A\",\"name\":\"B\",\"price\":1,\"price\":2}");
    assert_eq!(req.name, "B");
    assert_eq!(req.price, "2");
}

#[test]
fn string_escapes_are_decoded() {
    let req = parse_create_food_request(r#"{"name":"a\"b\\c\nd\te"}"#);
    assert_eq!(req.name, "a\"b\\c\nd\te");
    assert_eq!(req.price, "0.0");
}

#[test]
fn unicode_names_pass_through() {
    let req = parse_create_food_request("{\"name\":\"Müsli à la crème\"}");
    assert_eq!(req.name, "Müsli à la crème");
}

#[test]
fn exponent_numbers_are_kept_verbatim() {
    let req = parse_create_food_request("{\"price\":1e3}");
    assert_eq!(req.price, "1e3");
    let req2 = parse_create_food_request("{\"price\":-2.75E+2}");
    assert_eq!(req2.price, "-2.75E+2");
}

#[test]
fn integer_price_is_kept_verbatim() {
    let req = parse_create_food_request("{\"price\":0}");
    assert_eq!(req.price, "0");
}

#[test]
fn leading_zero_number_is_outside_the_grammar() {
    let req = parse_create_food_request("{\"price\":00}");
    assert_eq!(req.price, "0.0");
}

#[test]
fn trailing_garbage_gives_defaults() {
    let req = parse_create_food_request("{\"name\":\"Apple\"} extra");
    assert_eq!(req.name, "");
    assert_eq!(req.price, "0.0");
}

#[test]
fn nested_values_of_other_members_are_skipped() {
    let req = parse_create_food_request("{\"name\":\"Apple\",\"tags\":[1,[2,3]],\"price\":4}");
    assert_eq!(req.name, "Apple");
    assert_eq!(req.price, "4");
}

#[test]
fn brackets_inside_nested_strings_do_not_confuse_the_scan() {
    let req = parse_create_food_request(
        "{\"meta\":{\"note\":\"a]}b\",\"more\":[\"{\"]},\"name\":\"Plum\"}",
    );
    assert_eq!(req.name, "Plum");
    assert_eq!(req.price, "0.0");
}

#[test]
fn name_given_as_object_falls_back_to_default() {
    let req = parse_create_food_request("{\"name\":{\"first\":\"A\"},\"price\":1.25}");
    assert_eq!(req.name, "");
    assert_eq!(req.price, "1.25");
}

#[test]
fn default_request_value() {
    let req = CreateFoodRequest::default();
    assert_eq!(req.name, "");
    assert_eq!(req.price, "0.0");
}
