//! The data model: the persisted `Food` entity, the lenient create-request
//! shape, the unified storage error, and the HTTP response value that the
//! handlers produce.

use vstd::prelude::*;
use vstd::string::*;
use crate::chars::is_number_token;
use crate::text::chars_to_string;

verus! {

/// The one persisted entity: a record with a store-assigned id, a name and
/// a price. The price is carried as the text of a decimal number token, so
/// that rendering a record reproduces the number exactly as it was given.
pub struct Food {
    pub id: u64,
    pub name: String,
    pub price: String,
}

/// Mathematical image of a `Food`: the id together with the character
/// sequences of the name and of the price token.
pub struct FoodView {
    pub id: u64,
    pub name: Seq<char>,
    pub price: Seq<char>,
}

impl View for Food {
    type V = FoodView;

    open spec fn view(&self) -> FoodView {
        FoodView { id: self.id, name: self.name@, price: self.price@ }
    }
}

impl FoodView {
    /// A well-formed record carries a syntactically valid number token as
    /// its price, so that rendering it yields valid JSON.
    pub open spec fn wf(self) -> bool {
        is_number_token(self.price)
    }
}

/// The images of a vector of records, in order.
pub open spec fn food_views(foods: Seq<Food>) -> Seq<FoodView> {
    foods.map_values(|f: Food| f@)
}

/// Taking images keeps the length.
pub proof fn lemma_food_views_len(foods: Seq<Food>)
    ensures
        food_views(foods).len() == foods.len(),
{
}

/// The image sequence is the image at every position.
pub proof fn lemma_food_views_index(foods: Seq<Food>, k: int)
    requires
        0 <= k < foods.len(),
    ensures
        food_views(foods)[k] == foods[k]@,
{
}

/// The shape a create request is read into: both fields are always
/// present, because absent or ill-typed fields fall back to the defaults
/// (empty name, price zero) instead of failing the request.
pub struct CreateFoodRequest {
    pub name: String,
    pub price: String,
}

/// The price a request falls back to when none is given.
pub open spec fn default_price() -> Seq<char> {
    seq!['0', '.', '0']
}

impl CreateFoodRequest {
    /// Both fields defaulted: the reading of an empty or unusable body.
    pub open spec fn is_default(self) -> bool {
        self.name@ == Seq::<char>::empty() && self.price@ == default_price()
    }

    pub open spec fn wf(self) -> bool {
        is_number_token(self.price@)
    }
}

impl Default for CreateFoodRequest {
    /// The reading of a body that supplies nothing: empty name, price
    /// zero.
    fn default() -> (r: Self)
        ensures
            r.is_default(),
    {
        let mut v: Vec<char> = Vec::new();
        v.push('0');
        v.push('.');
        v.push('0');
        proof {
            assert(v@ =~= default_price());
        }
        CreateFoodRequest { name: String::new(), price: chars_to_string(&v) }
    }
}

/// The unified error for any failure of a storage operation; it carries
/// only the underlying message.
pub struct StorageError {
    pub message: String,
}

/// What a handler answers: a status code and a body, either the JSON
/// rendering of the result or the storage error's text.
pub struct Response {
    pub status: u16,
    pub body: String,
}

} // verus!
