//! The two request handlers, as decisions on plain values: the storage
//! outcome comes in, the HTTP status and body go out. A success renders
//! as JSON with status 200; any storage failure surfaces as status 500
//! with the error's text as the body, never retried and never reshaped.

use vstd::prelude::*;
use crate::model::{Food, FoodView, Response, StorageError, food_views};
use crate::parse::{parse_create_food_request, spec_parse_request};
use crate::render::{render_food, render_food_list, spec_json_food, spec_json_food_list};
use crate::store::Store;

verus! {

/// Maps the outcome of a listing to the response: the JSON array of all
/// records with status 200, or the storage error's text with status 500.
pub fn list_response(r: &Result<Vec<Food>, StorageError>) -> (resp: Response)
    ensures
        match r {
            Ok(foods) => resp.status == 200 && resp.body@ == spec_json_food_list(
                food_views(foods@),
            ),
            Err(e) => resp.status == 500 && resp.body@ == e.message@,
        },
{
    match r {
        Ok(foods) => Response { status: 200, body: render_food_list(foods) },
        Err(e) => Response { status: 500, body: e.message.clone() },
    }
}

/// Maps the outcome of an insert to the response: the created record as
/// a JSON object with status 200 — not 201 — or the storage error's text
/// with status 500.
pub fn create_response(r: &Result<Food, StorageError>) -> (resp: Response)
    ensures
        match r {
            Ok(f) => resp.status == 200 && resp.body@ == spec_json_food(f@),
            Err(e) => resp.status == 500 && resp.body@ == e.message@,
        },
{
    match r {
        Ok(f) => Response { status: 200, body: render_food(f) },
        Err(e) => Response { status: 500, body: e.message.clone() },
    }
}

/// The listing endpoint against the in-memory store: always status 200,
/// the body the JSON array of every record in ascending id order.
pub fn get_all_foods(store: &Store) -> (resp: Response)
    ensures
        resp.status == 200,
        resp.body@ == spec_json_food_list(store.foods()),
{
    let r = store.list_foods();
    list_response(&r)
}

/// The create endpoint against the in-memory store: the body is read
/// leniently, the record is inserted with a fresh id, and the created
/// record is the response. Only a storage failure (the id space running
/// out) answers 500.
pub fn create_food(store: &mut Store, body: &str) -> (resp: Response)
    requires
        old(store).wf(),
    ensures
        final(store).wf(),
        ({
            let f = FoodView {
                id: old(store).next_id_spec(),
                name: spec_parse_request(body@).0,
                price: spec_parse_request(body@).1,
            };
            if old(store).next_id_spec() < u64::MAX {
                &&& resp.status == 200
                &&& resp.body@ == spec_json_food(f)
                &&& final(store).foods() == old(store).foods().push(f)
            } else {
                &&& resp.status == 500
                &&& resp.body@.len() > 0
                &&& final(store).foods() == old(store).foods()
            }
        }),
{
    let req = parse_create_food_request(body);
    let r = store.insert_food(req.name, req.price);
    create_response(&r)
}

/// Law: listing an empty table is not an error — it is the empty JSON
/// array, which `get_all_foods` answers with status 200.
pub proof fn lemma_empty_listing_body()
    ensures
        spec_json_food_list(Seq::<FoodView>::empty()) =~= seq!['[', ']'],
{
}

} // verus!
