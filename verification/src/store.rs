//! The in-memory storage gateway: the reference model of the one
//! relational table. The store assigns every record its id, strictly
//! increasing in insertion order, so listing in insertion order is
//! listing in ascending id order.

use vstd::prelude::*;
use vstd::string::*;
use crate::model::{Food, FoodView, StorageError, food_views, lemma_food_views_index, lemma_food_views_len};

verus! {

pub struct Store {
    rows: Vec<Food>,
    next_id: u64,
}

impl Food {
    /// A fresh record with the same id, name and price.
    pub fn duplicate(&self) -> (g: Food)
        ensures
            g@ == self@,
    {
        Food { id: self.id, name: self.name.clone(), price: self.price.clone() }
    }
}

impl Store {
    /// The persisted records, in insertion order.
    pub closed spec fn foods(&self) -> Seq<FoodView> {
        food_views(self.rows@)
    }

    /// The id the store will assign next.
    pub closed spec fn next_id_spec(&self) -> u64 {
        self.next_id
    }

    /// Every persisted id is below the next one to be assigned, and ids
    /// increase strictly in insertion order.
    pub closed spec fn wf(&self) -> bool {
        &&& forall|k: int|
            0 <= k < self.foods().len() ==> (#[trigger] self.foods()[k]).id < self.next_id
        &&& forall|k: int, l: int|
            0 <= k < l < self.foods().len() ==> (#[trigger] self.foods()[k]).id < (
            #[trigger] self.foods()[l]).id
    }

    /// An empty store; the first record created will get id 1.
    pub fn new() -> (s: Store)
        ensures
            s.wf(),
            s.foods() == Seq::<FoodView>::empty(),
            s.next_id_spec() == 1,
    {
        let s = Store { rows: Vec::new(), next_id: 1 };
        proof {
            assert(food_views(s.rows@) =~= Seq::<FoodView>::empty());
        }
        s
    }

    /// Inserts one record with the caller's name and price; the store
    /// assigns the id. The caller's values are taken as given: no
    /// validation is applied to either. Fails exactly when the id space
    /// is exhausted, and leaves the store unchanged then.
    pub fn insert_food(&mut self, name: String, price: String) -> (r: Result<Food, StorageError>)
        requires
            old(self).wf(),
        ensures
            final(self).wf(),
            r is Ok <==> old(self).next_id_spec() < u64::MAX,
            match r {
                Ok(f) => {
                    &&& f@.id == old(self).next_id_spec()
                    &&& f@.name == name@
                    &&& f@.price == price@
                    &&& final(self).foods() == old(self).foods().push(f@)
                    &&& final(self).next_id_spec() == old(self).next_id_spec() + 1
                },
                Err(e) => {
                    &&& e.message@.len() > 0
                    &&& final(self).foods() == old(self).foods()
                    &&& final(self).next_id_spec() == old(self).next_id_spec()
                },
            },
    {
        if self.next_id == u64::MAX {
            let msg = String::from_str("id space exhausted");
            proof {
                reveal_strlit("id space exhausted");
            }
            return Err(StorageError { message: msg });
        }
        let id = self.next_id;
        self.next_id = id + 1;
        let f = Food { id, name, price };
        let g = f.duplicate();
        self.rows.push(g);
        proof {
            assert(food_views(self.rows@) =~= food_views(old(self).rows@).push(f@));
            let fs = self.foods();
            let os = old(self).foods();
            assert forall|k: int| 0 <= k < fs.len() implies (#[trigger] fs[k]).id < self.next_id by {
                if k < os.len() {
                    assert(fs[k] == os[k]);
                } else {
                    assert(fs[k] == f@);
                }
            }
            assert forall|k: int, l: int| 0 <= k < l < fs.len() implies (#[trigger] fs[k]).id < (
            #[trigger] fs[l]).id by {
                if l < os.len() {
                    assert(fs[k] == os[k] && fs[l] == os[l]);
                } else {
                    assert(fs[l] == f@);
                    assert(fs[k] == os[k]);
                }
            }
        }
        Ok(f)
    }

    /// All records, in ascending id order — the insertion order. Never
    /// fails; an empty store yields the empty listing, not an error.
    pub fn list_foods(&self) -> (r: Result<Vec<Food>, StorageError>)
        ensures
            match r {
                Ok(v) => food_views(v@) == self.foods(),
                Err(_) => false,
            },
    {
        let mut out: Vec<Food> = Vec::new();
        let mut i: usize = 0;
        while i < self.rows.len()
            invariant
                i <= self.rows.len(),
                food_views(out@) == self.foods().take(i as int),
            decreases self.rows.len() - i,
        {
            let ghost out0 = out@;
            let g = self.rows[i].duplicate();
            out.push(g);
            proof {
                lemma_food_views_len(out0);
                lemma_food_views_len(out@);
                lemma_food_views_len(self.rows@);
                assert(out0.len() == i as int);
                assert forall|k: int|
                    0 <= k < out@.len() implies #[trigger] food_views(out@)[k] == self.foods().take(
                    i + 1 as int,
                )[k] by {
                    lemma_food_views_index(out@, k);
                    if k < i as int {
                        lemma_food_views_index(out0, k);
                        assert(food_views(out0)[k] == self.foods().take(i as int)[k]);
                    } else {
                        assert(out@[k] == g);
                        lemma_food_views_index(self.rows@, k);
                    }
                }
                assert(food_views(out@) =~= self.foods().take(i + 1 as int));
            }
            i = i + 1;
        }
        proof {
            lemma_food_views_len(self.rows@);
            assert(self.foods().take(self.rows@.len() as int) =~= self.foods());
        }
        Ok(out)
    }
}

/// Law: a listing follows creation order, and that order carries strictly
/// ascending ids; so after any sequence of successful inserts the listing
/// holds exactly those records, ordered by ascending id.
pub proof fn lemma_listing_ordered(s: &Store)
    requires
        s.wf(),
    ensures
        forall|k: int, l: int|
            0 <= k < l < s.foods().len() ==> #[trigger] s.foods()[k].id < #[trigger] s.foods()[l].id,
{
}

/// Law: store-assigned ids never collide; any two distinct records of
/// one store carry distinct ids.
pub proof fn lemma_ids_distinct(s: &Store, k: int, l: int)
    requires
        s.wf(),
        0 <= k < s.foods().len(),
        0 <= l < s.foods().len(),
        k != l,
    ensures
        s.foods()[k].id != s.foods()[l].id,
{
}

} // verus!
