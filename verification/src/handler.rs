//! Read-side handlers: the computations behind the two queries the serving
//! layer exposes.  The transport around them (routing, JSON, status codes)
//! is not part of the core.

use vstd::prelude::*;

use crate::database::best_prices_spec;
use crate::database::product_history;
use crate::database::store_wf;
use crate::database::Database;
use crate::database::StoreModel;
use crate::entity::IterationPrice;
use crate::entity::Product;
use crate::entity::ProductPrice;
use crate::entity::ProductVal;
use crate::error::DatabaseError;

verus! {

/// Serves the price-history query: every product of a category with its
/// recorded prices.
pub struct PriceHandler {
    database: Database,
}

impl View for PriceHandler {
    type V = StoreModel;

    closed spec fn view(&self) -> StoreModel {
        self.database@
    }
}

impl PriceHandler {
    /// Builds the handler over its store.
    pub fn new(database: Database) -> (r: PriceHandler)
        ensures
            r@ == database@,
    {
        PriceHandler { database }
    }

    /// The products of one category, each with its full price history in
    /// insertion order.
    pub fn prices_by_category(&self, category_id: i64) -> (r: Result<
        Vec<(Product, Vec<ProductPrice>)>,
        DatabaseError,
    >)
        ensures
            r matches Ok(v) ==> ({
                let prods = self@.products.filter(
                    |p: ProductVal| p.category_id == category_id as int,
                );
                &&& v@.len() == prods.len()
                &&& forall|k: int|
                    0 <= k < v@.len() ==> (#[trigger] v@[k]).0@ == prods[k]
                        && v@[k].1@.map_values(|x: ProductPrice| x@) == product_history(
                        self@.prices,
                        prods[k].id,
                    )
            }),
            r is Ok,
    {
        let ghost prods = self@.products.filter(|p: ProductVal| p.category_id == category_id as int);
        let products = self.database.products_by_category(category_id)?;
        let mut result: Vec<(Product, Vec<ProductPrice>)> = Vec::new();
        let mut i: usize = 0;
        while i < products.len()
            invariant
                0 <= i <= products.len(),
                prods == self@.products.filter(|p: ProductVal| p.category_id == category_id as int),
                products@.map_values(|x: Product| x@) == prods,
                products@.len() == prods.len(),
                result@.len() == i,
                forall|k: int|
                    0 <= k < i ==> (#[trigger] result@[k]).0@ == prods[k]
                        && result@[k].1@.map_values(|x: ProductPrice| x@) == product_history(
                        self@.prices,
                        prods[k].id,
                    ),
            decreases products.len() - i,
        {
            let row = &products[i];
            proof {
                assert(row@ == products@.map_values(|x: Product| x@)[i as int]);
            }
            let prices = self.database.product_prices_by_product(row.id)?;
            let owned = Product {
                id: row.id,
                shop_id: row.shop_id,
                category_id: row.category_id,
                url: row.url.clone(),
                name: row.name.clone(),
            };
            result.push((owned, prices));
            i += 1;
        }
        Ok(result)
    }
}

/// Serves the best-price query: the cheapest product per category for the
/// latest pass.
pub struct ProductHandler {
    database: Database,
}

impl View for ProductHandler {
    type V = StoreModel;

    closed spec fn view(&self) -> StoreModel {
        self.database@
    }
}

impl ProductHandler {
    /// Builds the handler over its store.
    pub fn new(database: Database) -> (r: ProductHandler)
        ensures
            r@ == database@,
    {
        ProductHandler { database }
    }

    /// Best known price per category for the latest pass; see
    /// [`Database::best_prices_for_latest_iteration`].
    pub fn best_products(&self) -> (r: Result<Vec<IterationPrice>, DatabaseError>)
        requires
            store_wf(self@),
        ensures
            r matches Ok(v) && v@.map_values(|x: IterationPrice| x@) == best_prices_spec(self@),
    {
        self.database.best_prices_for_latest_iteration()
    }
}

} // verus!
