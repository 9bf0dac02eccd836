//! The store: deduplicated entities and an append-only price history.
//!
//! Shops, categories and products are created once per natural key (shop
//! name, category label, product url) and never updated; price observations
//! are only ever appended.  Row ids are allocated densely, in insertion
//! order, starting at 1, so the row with id `n` sits at index `n - 1`.
//!
//! Every operation is specified against [`StoreModel`], the mathematical
//! value of the store, and the spec-level transitions ([`upsert_shop`],
//! [`save_price_spec`], ...) that the read side and the crawler rely on.

use vstd::prelude::*;

use crate::entity::Category;
use crate::entity::CategoryVal;
use crate::entity::IterationPrice;
use crate::entity::IterationPriceVal;
use crate::entity::ObservationVal;
use crate::entity::PriceObservation;
use crate::entity::Product;
use crate::entity::ProductPrice;
use crate::entity::ProductPriceVal;
use crate::entity::ProductVal;
use crate::entity::Shop;
use crate::entity::ShopVal;
use crate::error::DatabaseError;
use crate::price::price_eq;
use crate::price::price_le;
use crate::price::price_lt;
use crate::price::Price;
use crate::price::PriceVal;
use crate::text::str_eq;

verus! {

/// Mathematical value of the whole store.
pub ghost struct StoreModel {
    pub shops: Seq<ShopVal>,
    pub categories: Seq<CategoryVal>,
    pub products: Seq<ProductVal>,
    pub prices: Seq<ObservationVal>,
    pub iteration: Option<int>,
}

/// Ids are dense and follow insertion order: the row at index `i` has id
/// `i + 1`.
pub open spec fn shop_ids_sequential(rows: Seq<ShopVal>) -> bool {
    forall|i: int| 0 <= i < rows.len() ==> (#[trigger] rows[i]).id == i + 1
}

/// No two shop rows share a name.
pub open spec fn shop_names_unique(rows: Seq<ShopVal>) -> bool {
    forall|i: int, j: int|
        0 <= i < j < rows.len() ==> (#[trigger] rows[i]).name != (#[trigger] rows[j]).name
}

/// Ids are dense and follow insertion order.
pub open spec fn category_ids_sequential(rows: Seq<CategoryVal>) -> bool {
    forall|i: int| 0 <= i < rows.len() ==> (#[trigger] rows[i]).id == i + 1
}

/// No two category rows share a name.
pub open spec fn category_names_unique(rows: Seq<CategoryVal>) -> bool {
    forall|i: int, j: int|
        0 <= i < j < rows.len() ==> (#[trigger] rows[i]).name != (#[trigger] rows[j]).name
}

/// Ids are dense and follow insertion order.
pub open spec fn product_ids_sequential(rows: Seq<ProductVal>) -> bool {
    forall|i: int| 0 <= i < rows.len() ==> (#[trigger] rows[i]).id == i + 1
}

/// No two product rows share a url.
pub open spec fn product_urls_unique(rows: Seq<ProductVal>) -> bool {
    forall|i: int, j: int|
        0 <= i < j < rows.len() ==> (#[trigger] rows[i]).url != (#[trigger] rows[j]).url
}

/// Ids are dense and follow insertion order.
pub open spec fn observation_ids_sequential(rows: Seq<ObservationVal>) -> bool {
    forall|i: int| 0 <= i < rows.len() ==> (#[trigger] rows[i]).id == i + 1
}

/// Well-formedness of the store: dense ids, unique natural keys, every
/// foreign id resolving to a row, and usable prices.
pub open spec fn store_wf(m: StoreModel) -> bool {
    &&& shop_ids_sequential(m.shops)
    &&& shop_names_unique(m.shops)
    &&& category_ids_sequential(m.categories)
    &&& category_names_unique(m.categories)
    &&& product_ids_sequential(m.products)
    &&& product_urls_unique(m.products)
    &&& observation_ids_sequential(m.prices)
    &&& forall|i: int|
        0 <= i < m.products.len() ==> 1 <= (#[trigger] m.products[i]).shop_id <= m.shops.len()
            && 1 <= m.products[i].category_id <= m.categories.len()
    &&& forall|i: int|
        0 <= i < m.prices.len() ==> 1 <= (#[trigger] m.prices[i]).product_id <= m.products.len()
    &&& forall|i: int| 0 <= i < m.prices.len() ==> (#[trigger] m.prices[i]).price.den > 0
}

/// Room for one more row in every collection: dense ids stay below the id
/// type's maximum.  A machine limit, not a rule of the store.
pub open spec fn has_room(m: StoreModel) -> bool {
    &&& m.shops.len() + 1 < i64::MAX
    &&& m.categories.len() + 1 < i64::MAX
    &&& m.products.len() + 1 < i64::MAX
    &&& m.prices.len() + 1 < i64::MAX
}

/// First shop at or after index `i` whose name is `name`, as its id.
pub open spec fn shop_lookup_from(rows: Seq<ShopVal>, name: Seq<char>, i: int) -> Option<int>
    decreases rows.len() - i,
{
    if i < 0 || i >= rows.len() {
        None
    } else if rows[i].name == name {
        Some(rows[i].id)
    } else {
        shop_lookup_from(rows, name, i + 1)
    }
}

/// Id of the shop with this name, if one exists.
pub open spec fn shop_lookup(rows: Seq<ShopVal>, name: Seq<char>) -> Option<int> {
    shop_lookup_from(rows, name, 0)
}

/// First category at or after index `i` whose name is `name`, as its id.
pub open spec fn category_lookup_from(
    rows: Seq<CategoryVal>,
    name: Seq<char>,
    i: int,
) -> Option<int>
    decreases rows.len() - i,
{
    if i < 0 || i >= rows.len() {
        None
    } else if rows[i].name == name {
        Some(rows[i].id)
    } else {
        category_lookup_from(rows, name, i + 1)
    }
}

/// Id of the category with this name, if one exists.
pub open spec fn category_lookup(rows: Seq<CategoryVal>, name: Seq<char>) -> Option<int> {
    category_lookup_from(rows, name, 0)
}

/// First product at or after index `i` whose url is `url`, as its id.
pub open spec fn product_lookup_from(rows: Seq<ProductVal>, url: Seq<char>, i: int) -> Option<int>
    decreases rows.len() - i,
{
    if i < 0 || i >= rows.len() {
        None
    } else if rows[i].url == url {
        Some(rows[i].id)
    } else {
        product_lookup_from(rows, url, i + 1)
    }
}

/// Id of the product with this url, if one exists.
pub open spec fn product_lookup(rows: Seq<ProductVal>, url: Seq<char>) -> Option<int> {
    product_lookup_from(rows, url, 0)
}

/// Get-or-create on shops: an existing name returns its id and leaves the
/// rows unchanged; a new name is appended with the next dense id.
pub open spec fn upsert_shop(rows: Seq<ShopVal>, name: Seq<char>) -> (Seq<ShopVal>, int) {
    match shop_lookup(rows, name) {
        Some(id) => (rows, id),
        None => (rows.push(ShopVal { id: rows.len() as int + 1, name }), rows.len() as int + 1),
    }
}

/// Get-or-create on categories.
pub open spec fn upsert_category(rows: Seq<CategoryVal>, name: Seq<char>) -> (
    Seq<CategoryVal>,
    int,
) {
    match category_lookup(rows, name) {
        Some(id) => (rows, id),
        None => (rows.push(CategoryVal { id: rows.len() as int + 1, name }), rows.len() as int + 1),
    }
}

/// Get-or-create on products.  The url alone decides: an existing row keeps
/// its first-seen shop, category and display name, whatever this call
/// supplies.
pub open spec fn upsert_product(
    rows: Seq<ProductVal>,
    shop_id: int,
    category_id: int,
    url: Seq<char>,
    name: Seq<char>,
) -> (Seq<ProductVal>, int) {
    match product_lookup(rows, url) {
        Some(id) => (rows, id),
        None => (
            rows.push(ProductVal { id: rows.len() as int + 1, shop_id, category_id, url, name }),
            rows.len() as int + 1,
        ),
    }
}

/// Appending one observation with the next dense id.
pub open spec fn append_observation(
    rows: Seq<ObservationVal>,
    product_id: int,
    iteration: int,
    timestamp: int,
    price: PriceVal,
) -> Seq<ObservationVal> {
    rows.push(ObservationVal { id: rows.len() as int + 1, product_id, iteration, timestamp, price })
}

/// The whole transition of recording one observed price: resolve or create
/// the shop, the category and the product, then append the observation.
pub open spec fn save_price_spec(
    m: StoreModel,
    shop: Seq<char>,
    category: Seq<char>,
    url: Seq<char>,
    name: Seq<char>,
    iteration: int,
    timestamp: int,
    price: PriceVal,
) -> StoreModel {
    let (shops, shop_id) = upsert_shop(m.shops, shop);
    let (categories, category_id) = upsert_category(m.categories, category);
    let (products, product_id) = upsert_product(m.products, shop_id, category_id, url, name);
    StoreModel {
        shops,
        categories,
        products,
        prices: append_observation(m.prices, product_id, iteration, timestamp, price),
        iteration: m.iteration,
    }
}

/// Projection of an observation onto a [`ProductPriceVal`] record when it
/// belongs to the given product.
pub open spec fn history_projection(product_id: int) -> spec_fn(ObservationVal) -> Option<
    ProductPriceVal,
> {
    |o: ObservationVal|
        if o.product_id == product_id {
            Some(
                ProductPriceVal { iteration: o.iteration, timestamp: o.timestamp, price: o.price },
            )
        } else {
            None
        }
}

/// Price history of one product: its observations in insertion order, as
/// records.
pub open spec fn product_history(rows: Seq<ObservationVal>, product_id: int) -> Seq<
    ProductPriceVal,
> {
    rows.filter_map(history_projection(product_id))
}

/// Projection of an observation onto a [`ProductPriceVal`] record when its
/// iteration lies in `lo ..= hi`.
pub open spec fn range_projection(lo: int, hi: int) -> spec_fn(ObservationVal) -> Option<
    ProductPriceVal,
> {
    |o: ObservationVal|
        if lo <= o.iteration <= hi {
            Some(
                ProductPriceVal { iteration: o.iteration, timestamp: o.timestamp, price: o.price },
            )
        } else {
            None
        }
}

/// Observations of an iteration range, in insertion order, as records.
pub open spec fn prices_in_range(rows: Seq<ObservationVal>, lo: int, hi: int) -> Seq<
    ProductPriceVal,
> {
    rows.filter_map(range_projection(lo, hi))
}

/// One observation joined with its product, category and shop rows.
pub open spec fn join_observation(m: StoreModel, o: ObservationVal) -> IterationPriceVal
    recommends
        store_wf(m),
        1 <= o.product_id <= m.products.len(),
{
    let p = m.products[o.product_id - 1];
    IterationPriceVal {
        category_id: p.category_id,
        category: m.categories[p.category_id - 1].name,
        product: p.name,
        url: p.url,
        shop: m.shops[p.shop_id - 1].name,
        price: o.price,
        timestamp: o.timestamp,
    }
}

/// Projection of an observation onto its joined record when its iteration
/// lies in `lo ..= hi`.
pub open spec fn join_projection(m: StoreModel, lo: int, hi: int) -> spec_fn(ObservationVal) -> Option<
    IterationPriceVal,
> {
    |o: ObservationVal|
        if lo <= o.iteration <= hi {
            Some(join_observation(m, o))
        } else {
            None
        }
}

/// The denormalized read of an iteration range: every observation whose
/// iteration lies in the range, joined with its product, category and shop,
/// in insertion order.
pub open spec fn iteration_rows(m: StoreModel, lo: int, hi: int) -> Seq<IterationPriceVal> {
    m.prices.filter_map(join_projection(m, lo, hi))
}

/// Category of an observation, through its product row.
pub open spec fn obs_category(m: StoreModel, o: ObservationVal) -> int
    recommends
        store_wf(m),
        1 <= o.product_id <= m.products.len(),
{
    m.products[o.product_id - 1].category_id
}

/// The candidate observation displaces the incumbent when its price is
/// strictly lower, or equal in value with a strictly lower product id.
/// Among equal prices of one product, the first appended observation stays.
/// This makes the aggregation deterministic.
pub open spec fn obs_better(candidate: ObservationVal, incumbent: ObservationVal) -> bool {
    ||| price_lt(candidate.price, incumbent.price)
    ||| (price_eq(candidate.price, incumbent.price) && candidate.product_id < incumbent.product_id)
}

/// First entry at or after index `i` holding the given category.
pub open spec fn find_category(
    acc: Seq<(int, ObservationVal)>,
    category: int,
    i: int,
) -> Option<int>
    decreases acc.len() - i,
{
    if i < 0 || i >= acc.len() {
        None
    } else if acc[i].0 == category {
        Some(i)
    } else {
        find_category(acc, category, i + 1)
    }
}

/// One step of the aggregation: an observation of another pass changes
/// nothing; one of the pass at hand opens its category or displaces the
/// incumbent when it is better.
pub open spec fn best_step(
    m: StoreModel,
    acc: Seq<(int, ObservationVal)>,
    o: ObservationVal,
    it: int,
) -> Seq<(int, ObservationVal)> {
    if o.iteration != it {
        acc
    } else {
        let category = obs_category(m, o);
        match find_category(acc, category, 0) {
            None => acc.push((category, o)),
            Some(j) => if obs_better(o, acc[j].1) {
                acc.update(j, (category, o))
            } else {
                acc
            },
        }
    }
}

/// The aggregation folded over the first `n` observations.
pub open spec fn best_fold(m: StoreModel, it: int, n: int) -> Seq<(int, ObservationVal)>
    decreases n,
{
    if n <= 0 {
        Seq::empty()
    } else {
        best_step(m, best_fold(m, it, n - 1), m.prices[n - 1], it)
    }
}

/// Best observation per category for pass `it`: one entry per category that
/// the pass observed, in order of first observation, each holding the
/// observation with the lowest price (ties: lowest product id, then first
/// appended).
pub open spec fn best_observations(m: StoreModel, it: int) -> Seq<(int, ObservationVal)> {
    best_fold(m, it, m.prices.len() as int)
}

/// What the aggregation query returns: nothing before the first pass, else
/// the best observation per category of the latest pass, joined for the
/// read side.
pub open spec fn best_prices_spec(m: StoreModel) -> Seq<IterationPriceVal> {
    match m.iteration {
        None => Seq::empty(),
        Some(it) => best_observations(m, it).map_values(
            |e: (int, ObservationVal)| join_observation(m, e.1),
        ),
    }
}

/// Every kept entry is one of the first `n` observations, belongs to pass
/// `it`, and names its observation's category.
pub open spec fn aggregation_sound(
    m: StoreModel,
    it: int,
    n: int,
    acc: Seq<(int, ObservationVal)>,
) -> bool {
    forall|k: int|
        0 <= k < acc.len() ==> {
            let e = #[trigger] acc[k];
            &&& exists|j: int| 0 <= j < n && m.prices[j] == e.1
            &&& e.1.iteration == it
            &&& 1 <= e.1.product_id <= m.products.len()
            &&& e.1.price.den > 0
            &&& obs_category(m, e.1) == e.0
        }
}

/// No kept entry is undercut by any of the first `n` observations of pass
/// `it` in its category: the entry's price is lowest, and among equal
/// prices its product id is lowest.
pub open spec fn aggregation_minimal(
    m: StoreModel,
    it: int,
    n: int,
    acc: Seq<(int, ObservationVal)>,
) -> bool {
    forall|k: int, j: int|
        0 <= k < acc.len() && 0 <= j < n && (#[trigger] m.prices[j]).iteration == it
            && obs_category(m, m.prices[j]) == (#[trigger] acc[k]).0 ==> price_le(
            acc[k].1.price,
            m.prices[j].price,
        ) && (price_eq(acc[k].1.price, m.prices[j].price) ==> acc[k].1.product_id
            <= m.prices[j].product_id)
}

/// Every category that pass `it` observed among the first `n` observations
/// has an entry.
pub open spec fn aggregation_complete(
    m: StoreModel,
    it: int,
    n: int,
    acc: Seq<(int, ObservationVal)>,
) -> bool {
    forall|j: int|
        0 <= j < n && (#[trigger] m.prices[j]).iteration == it ==> exists|k: int|
            0 <= k < acc.len() && (#[trigger] acc[k]).0 == obs_category(m, m.prices[j])
}

/// No category appears twice among the entries.
pub open spec fn aggregation_categories_unique(acc: Seq<(int, ObservationVal)>) -> bool {
    forall|k1: int, k2: int|
        0 <= k1 < k2 < acc.len() ==> (#[trigger] acc[k1]).0 != (#[trigger] acc[k2]).0
}

/// A category search that misses means no entry holds the category.
proof fn lemma_find_category_none(acc: Seq<(int, ObservationVal)>, category: int, i: int)
    requires
        0 <= i <= acc.len(),
    ensures
        find_category(acc, category, i) is None <==> forall|k: int|
            i <= k < acc.len() ==> (#[trigger] acc[k]).0 != category,
    decreases acc.len() - i,
{
    if i < acc.len() {
        lemma_find_category_none(acc, category, i + 1);
    }
}

/// A category search that hits returns an entry holding the category.
proof fn lemma_find_category_some(acc: Seq<(int, ObservationVal)>, category: int, i: int)
    requires
        0 <= i <= acc.len(),
        find_category(acc, category, i) is Some,
    ensures
        ({
            let f = find_category(acc, category, i)->Some_0;
            &&& i <= f < acc.len()
            &&& acc[f].0 == category
        }),
    decreases acc.len() - i,
{
    if acc[i].0 != category {
        lemma_find_category_some(acc, category, i + 1);
    }
}

/// One fold step keeps soundness: a new entry or a displaced one is the
/// fresh observation itself.
proof fn lemma_step_sound(m: StoreModel, it: int, n: int, acc: Seq<(int, ObservationVal)>)
    requires
        store_wf(m),
        1 <= n <= m.prices.len(),
        aggregation_sound(m, it, n - 1, acc),
    ensures
        aggregation_sound(m, it, n, best_step(m, acc, m.prices[n - 1], it)),
{
    let o = m.prices[n - 1];
    let stepped = best_step(m, acc, o, it);
    assert(1 <= o.product_id <= m.products.len());
    if o.iteration == it {
        let category = obs_category(m, o);
        if find_category(acc, category, 0) is Some {
            lemma_find_category_some(acc, category, 0);
        }
    }
    assert forall|k: int| 0 <= k < stepped.len() implies {
        let e = #[trigger] stepped[k];
        &&& exists|j: int| 0 <= j < n && m.prices[j] == e.1
        &&& e.1.iteration == it
        &&& 1 <= e.1.product_id <= m.products.len()
        &&& e.1.price.den > 0
        &&& obs_category(m, e.1) == e.0
    } by {
        if k < acc.len() && stepped[k] == acc[k] {
            assert(acc[k] == acc[k]);
            let j = choose|j: int| 0 <= j < n - 1 && m.prices[j] == acc[k].1;
            assert(0 <= j < n && m.prices[j] == stepped[k].1);
        } else {
            assert(stepped[k] == (obs_category(m, o), o));
            assert(m.prices[n - 1] == stepped[k].1);
        }
    }
}

/// One fold step keeps completeness: the fresh observation's category has
/// an entry afterwards, and no category loses its entry.
proof fn lemma_step_complete(m: StoreModel, it: int, n: int, acc: Seq<(int, ObservationVal)>)
    requires
        store_wf(m),
        1 <= n <= m.prices.len(),
        aggregation_complete(m, it, n - 1, acc),
    ensures
        aggregation_complete(m, it, n, best_step(m, acc, m.prices[n - 1], it)),
{
    let o = m.prices[n - 1];
    let stepped = best_step(m, acc, o, it);
    let category = obs_category(m, o);
    if o.iteration == it && find_category(acc, category, 0) is Some {
        lemma_find_category_some(acc, category, 0);
    }
    assert forall|j: int| 0 <= j < n && (#[trigger] m.prices[j]).iteration == it
        implies exists|k: int|
            0 <= k < stepped.len() && (#[trigger] stepped[k]).0 == obs_category(m, m.prices[j]) by {
        if j < n - 1 {
            let k = choose|k: int|
                0 <= k < acc.len() && (#[trigger] acc[k]).0 == obs_category(m, m.prices[j]);
            assert(stepped[k].0 == obs_category(m, m.prices[j]));
        } else {
            match find_category(acc, category, 0) {
                None => {
                    assert(stepped[stepped.len() - 1].0 == category);
                },
                Some(f) => {
                    assert(stepped[f].0 == category);
                },
            }
        }
    }
}

/// One fold step keeps the categories distinct: a new entry's category had
/// none before, and a displacement keeps the category in place.
proof fn lemma_step_unique(m: StoreModel, it: int, n: int, acc: Seq<(int, ObservationVal)>)
    requires
        store_wf(m),
        1 <= n <= m.prices.len(),
        aggregation_categories_unique(acc),
    ensures
        aggregation_categories_unique(best_step(m, acc, m.prices[n - 1], it)),
{
    let o = m.prices[n - 1];
    let stepped = best_step(m, acc, o, it);
    let category = obs_category(m, o);
    if o.iteration == it && find_category(acc, category, 0) is None {
        lemma_find_category_none(acc, category, 0);
        assert forall|k1: int, k2: int| 0 <= k1 < k2 < stepped.len()
            implies (#[trigger] stepped[k1]).0 != (#[trigger] stepped[k2]).0 by {
            if k2 < acc.len() {
                assert(stepped[k1] == acc[k1] && stepped[k2] == acc[k2]);
            } else {
                assert(stepped[k1] == acc[k1] && stepped[k2].0 == category);
            }
        }
    } else if o.iteration == it {
        lemma_find_category_some(acc, category, 0);
        assert forall|k1: int, k2: int| 0 <= k1 < k2 < stepped.len()
            implies (#[trigger] stepped[k1]).0 != (#[trigger] stepped[k2]).0 by {
            assert(stepped[k1].0 == acc[k1].0 && stepped[k2].0 == acc[k2].0);
        }
    }
}

/// One fold step keeps minimality: the surviving entry of the fresh
/// observation's category is the better of entry and observation, and no
/// other entry is concerned.
#[verifier::rlimit(100)]
#[verifier::spinoff_prover]
proof fn lemma_step_minimal(m: StoreModel, it: int, n: int, acc: Seq<(int, ObservationVal)>)
    requires
        store_wf(m),
        1 <= n <= m.prices.len(),
        aggregation_sound(m, it, n - 1, acc),
        aggregation_minimal(m, it, n - 1, acc),
        aggregation_complete(m, it, n - 1, acc),
        aggregation_categories_unique(acc),
    ensures
        aggregation_minimal(m, it, n, best_step(m, acc, m.prices[n - 1], it)),
{
    let o = m.prices[n - 1];
    let stepped = best_step(m, acc, o, it);
    if o.iteration != it {
        return ;
    }
    let category = obs_category(m, o);
    assert(o.price.den > 0);
    match find_category(acc, category, 0) {
        None => {
            lemma_find_category_none(acc, category, 0);
            assert(stepped == acc.push((category, o)));
            assert forall|k: int, j: int|
                0 <= k < stepped.len() && 0 <= j < n && (#[trigger] m.prices[j]).iteration == it
                    && obs_category(m, m.prices[j]) == (#[trigger] stepped[k]).0 implies price_le(
                stepped[k].1.price,
                m.prices[j].price,
            ) && (price_eq(stepped[k].1.price, m.prices[j].price) ==> stepped[k].1.product_id
                <= m.prices[j].product_id) by {
                if k < acc.len() {
                    assert(stepped[k] == acc[k]);
                    // No old entry holds the new category, so only earlier
                    // observations concern an old entry.
                    assert(j < n - 1 || acc[k].0 != category);
                } else {
                    assert(stepped[k] == (category, o));
                    if j < n - 1 {
                        // An earlier observation of this category would
                        // have opened an entry for it before this step.
                        let k2 = choose|k2: int|
                            0 <= k2 < acc.len() && (#[trigger] acc[k2]).0 == obs_category(
                                m,
                                m.prices[j],
                            );
                        assert(false);
                    }
                }
            }
        },
        Some(f) => {
            lemma_find_category_some(acc, category, 0);
            let incumbent = acc[f].1;
            assert(incumbent.price.den > 0);
            if obs_better(o, incumbent) {
                assert(stepped == acc.update(f, (category, o)));
                assert forall|k: int, j: int|
                    0 <= k < stepped.len() && 0 <= j < n && (#[trigger] m.prices[j]).iteration
                        == it && obs_category(m, m.prices[j]) == (#[trigger] stepped[k]).0
                    implies price_le(stepped[k].1.price, m.prices[j].price) && (price_eq(
                    stepped[k].1.price,
                    m.prices[j].price,
                ) ==> stepped[k].1.product_id <= m.prices[j].product_id) by {
                    if k != f {
                        assert(stepped[k] == acc[k]);
                        // Only entry `f` holds this category.
                        assert(j < n - 1 || acc[k].0 != category);
                    } else {
                        assert(stepped[f] == (category, o));
                        if j < n - 1 {
                            let other = m.prices[j].price;
                            assert(price_le(incumbent.price, other));
                            assert(other.den > 0);
                            if price_lt(o.price, incumbent.price) {
                                crate::price::lemma_price_lt_le_trans(
                                    o.price,
                                    incumbent.price,
                                    other,
                                );
                            } else {
                                assert(price_eq(o.price, incumbent.price) && o.product_id
                                    < incumbent.product_id);
                                crate::price::lemma_price_le_trans(o.price, incumbent.price, other);
                                if price_eq(o.price, other) {
                                    // The incumbent ties too, so its tie
                                    // rule bounds the product id.
                                    crate::price::lemma_price_eq_trans(
                                        incumbent.price,
                                        o.price,
                                        other,
                                    );
                                }
                            }
                        }
                    }
                }
            } else {
                assert(stepped == acc);
                assert forall|k: int, j: int|
                    0 <= k < stepped.len() && 0 <= j < n && (#[trigger] m.prices[j]).iteration
                        == it && obs_category(m, m.prices[j]) == (#[trigger] stepped[k]).0
                    implies price_le(stepped[k].1.price, m.prices[j].price) && (price_eq(
                    stepped[k].1.price,
                    m.prices[j].price,
                ) ==> stepped[k].1.product_id <= m.prices[j].product_id) by {
                    if j == n - 1 && k == f {
                        // Keeping the incumbent: the challenger is no
                        // better, so the incumbent's price is no higher and
                        // wins any tie on product id.
                        assert(!price_lt(o.price, incumbent.price));
                        assert(price_le(incumbent.price, o.price));
                        if price_eq(incumbent.price, o.price) {
                            assert(price_eq(o.price, incumbent.price));
                            assert(!(o.product_id < incumbent.product_id));
                        }
                    } else if j == n - 1 {
                        assert(acc[k].0 != category);
                    }
                }
            }
        },
    }
}

/// The aggregation fold keeps true minima, one category at a time.
proof fn lemma_best_fold_props(m: StoreModel, it: int, n: int)
    requires
        store_wf(m),
        0 <= n <= m.prices.len(),
    ensures
        ({
            let acc = best_fold(m, it, n);
            &&& aggregation_sound(m, it, n, acc)
            &&& aggregation_minimal(m, it, n, acc)
            &&& aggregation_complete(m, it, n, acc)
            &&& aggregation_categories_unique(acc)
        }),
    decreases n,
{
    if n > 0 {
        lemma_best_fold_props(m, it, n - 1);
        let acc = best_fold(m, it, n - 1);
        lemma_step_sound(m, it, n, acc);
        lemma_step_minimal(m, it, n, acc);
        lemma_step_complete(m, it, n, acc);
        lemma_step_unique(m, it, n, acc);
    }
}

/// What the aggregation promises, for the whole store and pass `it`: each
/// entry of [`best_observations`] is an observation of that pass and names
/// its category; no observation of the pass undercuts an entry in its
/// category — the entry's price is the lowest, and among equal prices its
/// product id is the lowest; every category the pass observed has exactly
/// one entry.
pub proof fn lemma_best_observations_minimal(m: StoreModel, it: int)
    requires
        store_wf(m),
    ensures
        ({
            let acc = best_observations(m, it);
            &&& aggregation_sound(m, it, m.prices.len() as int, acc)
            &&& aggregation_minimal(m, it, m.prices.len() as int, acc)
            &&& aggregation_complete(m, it, m.prices.len() as int, acc)
            &&& aggregation_categories_unique(acc)
        }),
{
    lemma_best_fold_props(m, it, m.prices.len() as int);
}

/// Largest iteration value among the observations, if any.
pub open spec fn max_iteration(rows: Seq<ObservationVal>) -> Option<int>
    decreases rows.len(),
{
    if rows.len() == 0 {
        None
    } else {
        match max_iteration(rows.drop_last()) {
            None => Some(rows.last().iteration),
            Some(m) => Some(
                if rows.last().iteration > m {
                    rows.last().iteration
                } else {
                    m
                },
            ),
        }
    }
}

/// After pushing a row that carries the looked-up name, the lookup finds
/// that row, provided no earlier row carries the name.
proof fn lemma_shop_lookup_push(rows: Seq<ShopVal>, row: ShopVal, name: Seq<char>, i: int)
    requires
        0 <= i <= rows.len(),
        forall|k: int| i <= k < rows.len() ==> (#[trigger] rows[k]).name != name,
        row.name == name,
    ensures
        shop_lookup_from(rows.push(row), name, i) == Some(row.id),
    decreases rows.len() - i,
{
    let rows1 = rows.push(row);
    if i < rows.len() {
        assert(rows1[i] == rows[i]);
        lemma_shop_lookup_push(rows, row, name, i + 1);
    } else {
        assert(rows1[i] == row);
    }
}

/// After pushing a row that carries the looked-up name, the lookup finds
/// that row, provided no earlier row carries the name.
proof fn lemma_category_lookup_push(rows: Seq<CategoryVal>, row: CategoryVal, name: Seq<char>, i: int)
    requires
        0 <= i <= rows.len(),
        forall|k: int| i <= k < rows.len() ==> (#[trigger] rows[k]).name != name,
        row.name == name,
    ensures
        category_lookup_from(rows.push(row), name, i) == Some(row.id),
    decreases rows.len() - i,
{
    let rows1 = rows.push(row);
    if i < rows.len() {
        assert(rows1[i] == rows[i]);
        lemma_category_lookup_push(rows, row, name, i + 1);
    } else {
        assert(rows1[i] == row);
    }
}

/// After pushing a row that carries the looked-up url, the lookup finds
/// that row, provided no earlier row carries the url.
proof fn lemma_product_lookup_push(rows: Seq<ProductVal>, row: ProductVal, url: Seq<char>, i: int)
    requires
        0 <= i <= rows.len(),
        forall|k: int| i <= k < rows.len() ==> (#[trigger] rows[k]).url != url,
        row.url == url,
    ensures
        product_lookup_from(rows.push(row), url, i) == Some(row.id),
    decreases rows.len() - i,
{
    let rows1 = rows.push(row);
    if i < rows.len() {
        assert(rows1[i] == rows[i]);
        lemma_product_lookup_push(rows, row, url, i + 1);
    } else {
        assert(rows1[i] == row);
    }
}

/// Get-or-create of a shop is idempotent: a repeated upsert with the same
/// name returns the same id and leaves the rows exactly as they were, so no
/// duplicate row ever exists for one name.
pub proof fn lemma_upsert_shop_idempotent(rows: Seq<ShopVal>, name: Seq<char>)
    ensures
        ({
            let (rows1, id1) = upsert_shop(rows, name);
            let (rows2, id2) = upsert_shop(rows1, name);
            rows2 == rows1 && id2 == id1
        }),
{
    if shop_lookup(rows, name) is None {
        Database::lemma_shop_lookup_none(rows, name, 0);
        let row = ShopVal { id: rows.len() as int + 1, name };
        lemma_shop_lookup_push(rows, row, name, 0);
    }
}

/// Get-or-create of a category is idempotent; see
/// [`lemma_upsert_shop_idempotent`].
pub proof fn lemma_upsert_category_idempotent(rows: Seq<CategoryVal>, name: Seq<char>)
    ensures
        ({
            let (rows1, id1) = upsert_category(rows, name);
            let (rows2, id2) = upsert_category(rows1, name);
            rows2 == rows1 && id2 == id1
        }),
{
    if category_lookup(rows, name) is None {
        Database::lemma_category_lookup_none(rows, name, 0);
        let row = CategoryVal { id: rows.len() as int + 1, name };
        lemma_category_lookup_push(rows, row, name, 0);
    }
}

/// Get-or-create of a product is idempotent in its natural key: a repeated
/// upsert with the same url returns the same id and leaves the rows exactly
/// as they were, even when the second call supplies a different shop,
/// category or display name — the first-seen attributes stay.
pub proof fn lemma_upsert_product_idempotent(
    rows: Seq<ProductVal>,
    url: Seq<char>,
    shop_id1: int,
    category_id1: int,
    name1: Seq<char>,
    shop_id2: int,
    category_id2: int,
    name2: Seq<char>,
)
    ensures
        ({
            let (rows1, id1) = upsert_product(rows, shop_id1, category_id1, url, name1);
            let (rows2, id2) = upsert_product(rows1, shop_id2, category_id2, url, name2);
            rows2 == rows1 && id2 == id1
        }),
{
    if product_lookup(rows, url) is None {
        Database::lemma_product_lookup_none(rows, url, 0);
        let row = ProductVal {
            id: rows.len() as int + 1,
            shop_id: shop_id1,
            category_id: category_id1,
            url,
            name: name1,
        };
        lemma_product_lookup_push(rows, row, url, 0);
    }
}

/// A shop lookup that hits names a row: some row at or after the start
/// carries the looked-up name and the returned id.
proof fn lemma_shop_lookup_member(rows: Seq<ShopVal>, name: Seq<char>, i: int)
    requires
        0 <= i <= rows.len(),
        shop_lookup_from(rows, name, i) is Some,
    ensures
        exists|k: int|
            i <= k < rows.len() && (#[trigger] rows[k]).name == name && rows[k].id
                == shop_lookup_from(rows, name, i)->Some_0,
    decreases rows.len() - i,
{
    if rows[i].name != name {
        lemma_shop_lookup_member(rows, name, i + 1);
    } else {
        assert(rows[i].name == name);
    }
}

/// A category lookup that hits names a row.
proof fn lemma_category_lookup_member(rows: Seq<CategoryVal>, name: Seq<char>, i: int)
    requires
        0 <= i <= rows.len(),
        category_lookup_from(rows, name, i) is Some,
    ensures
        exists|k: int|
            i <= k < rows.len() && (#[trigger] rows[k]).name == name && rows[k].id
                == category_lookup_from(rows, name, i)->Some_0,
    decreases rows.len() - i,
{
    if rows[i].name != name {
        lemma_category_lookup_member(rows, name, i + 1);
    } else {
        assert(rows[i].name == name);
    }
}

/// A product lookup that hits names a row.
proof fn lemma_product_lookup_member(rows: Seq<ProductVal>, url: Seq<char>, i: int)
    requires
        0 <= i <= rows.len(),
        product_lookup_from(rows, url, i) is Some,
    ensures
        exists|k: int|
            i <= k < rows.len() && (#[trigger] rows[k]).url == url && rows[k].id
                == product_lookup_from(rows, url, i)->Some_0,
    decreases rows.len() - i,
{
    if rows[i].url != url {
        lemma_product_lookup_member(rows, url, i + 1);
    } else {
        assert(rows[i].url == url);
    }
}

/// After a get-or-create, exactly one shop row carries the name: the names
/// stay pairwise distinct, and some row carries the looked-up name with the
/// returned id — whether the call found it or inserted it.
pub proof fn lemma_upsert_shop_unique_row(rows: Seq<ShopVal>, name: Seq<char>)
    requires
        shop_names_unique(rows),
    ensures
        ({
            let (rows1, id) = upsert_shop(rows, name);
            &&& shop_names_unique(rows1)
            &&& exists|i: int|
                0 <= i < rows1.len() && (#[trigger] rows1[i]).name == name && rows1[i].id == id
        }),
{
    let (rows1, id) = upsert_shop(rows, name);
    match shop_lookup(rows, name) {
        Some(_) => {
            lemma_shop_lookup_member(rows, name, 0);
        },
        None => {
            Database::lemma_shop_lookup_none(rows, name, 0);
            assert(rows1[rows.len() as int].name == name);
            assert forall|i: int, j: int| 0 <= i < j < rows1.len() implies (#[trigger] rows1[i]).name
                != (#[trigger] rows1[j]).name by {
                if j < rows.len() {
                    assert(rows1[i] == rows[i] && rows1[j] == rows[j]);
                } else {
                    assert(rows1[i] == rows[i] && rows1[j].name == name);
                }
            }
        },
    }
}

/// After a get-or-create, exactly one category row carries the name; see
/// [`lemma_upsert_shop_unique_row`].
pub proof fn lemma_upsert_category_unique_row(rows: Seq<CategoryVal>, name: Seq<char>)
    requires
        category_names_unique(rows),
    ensures
        ({
            let (rows1, id) = upsert_category(rows, name);
            &&& category_names_unique(rows1)
            &&& exists|i: int|
                0 <= i < rows1.len() && (#[trigger] rows1[i]).name == name && rows1[i].id == id
        }),
{
    let (rows1, id) = upsert_category(rows, name);
    match category_lookup(rows, name) {
        Some(_) => {
            lemma_category_lookup_member(rows, name, 0);
        },
        None => {
            Database::lemma_category_lookup_none(rows, name, 0);
            assert(rows1[rows.len() as int].name == name);
            assert forall|i: int, j: int| 0 <= i < j < rows1.len() implies (#[trigger] rows1[i]).name
                != (#[trigger] rows1[j]).name by {
                if j < rows.len() {
                    assert(rows1[i] == rows[i] && rows1[j] == rows[j]);
                } else {
                    assert(rows1[i] == rows[i] && rows1[j].name == name);
                }
            }
        },
    }
}

/// After a get-or-create, exactly one product row carries the url: the urls
/// stay pairwise distinct, and some row carries the looked-up url with the
/// returned id — whatever shop, category or display name the call supplied.
pub proof fn lemma_upsert_product_unique_row(
    rows: Seq<ProductVal>,
    shop_id: int,
    category_id: int,
    url: Seq<char>,
    name: Seq<char>,
)
    requires
        product_urls_unique(rows),
    ensures
        ({
            let (rows1, id) = upsert_product(rows, shop_id, category_id, url, name);
            &&& product_urls_unique(rows1)
            &&& exists|i: int|
                0 <= i < rows1.len() && (#[trigger] rows1[i]).url == url && rows1[i].id == id
        }),
{
    let (rows1, id) = upsert_product(rows, shop_id, category_id, url, name);
    match product_lookup(rows, url) {
        Some(_) => {
            lemma_product_lookup_member(rows, url, 0);
        },
        None => {
            Database::lemma_product_lookup_none(rows, url, 0);
            assert(rows1[rows.len() as int].url == url);
            assert forall|i: int, j: int| 0 <= i < j < rows1.len() implies (#[trigger] rows1[i]).url
                != (#[trigger] rows1[j]).url by {
                if j < rows.len() {
                    assert(rows1[i] == rows[i] && rows1[j] == rows[j]);
                } else {
                    assert(rows1[i] == rows[i] && rows1[j].url == url);
                }
            }
        },
    }
}

/// Recording twice under the same natural keys creates no second shop,
/// category or product row: the later call leaves all three entity tables
/// exactly as the earlier one left them, and attaches its observation to
/// the same product id, whatever display name, iteration, timestamp or
/// price it supplies.
pub proof fn lemma_save_price_reuses_entities(
    m: StoreModel,
    shop: Seq<char>,
    category: Seq<char>,
    url: Seq<char>,
    name1: Seq<char>,
    iteration1: int,
    timestamp1: int,
    price1: PriceVal,
    name2: Seq<char>,
    iteration2: int,
    timestamp2: int,
    price2: PriceVal,
)
    ensures
        ({
            let m1 = save_price_spec(m, shop, category, url, name1, iteration1, timestamp1, price1);
            let m2 = save_price_spec(
                m1,
                shop,
                category,
                url,
                name2,
                iteration2,
                timestamp2,
                price2,
            );
            &&& m2.shops == m1.shops
            &&& m2.categories == m1.categories
            &&& m2.products == m1.products
            &&& m2.prices.len() == m1.prices.len() + 1
            &&& m2.prices.last().product_id == m1.prices.last().product_id
        }),
{
    let (shops1, shop_id) = upsert_shop(m.shops, shop);
    let (categories1, category_id) = upsert_category(m.categories, category);
    lemma_upsert_shop_idempotent(m.shops, shop);
    lemma_upsert_category_idempotent(m.categories, category);
    lemma_upsert_product_idempotent(
        m.products,
        url,
        shop_id,
        category_id,
        name1,
        shop_id,
        category_id,
        name2,
    );
}

/// Recording a price only appends to the observation log: every
/// observation present before is still present, unchanged and in place,
/// and exactly one new observation follows them.
pub proof fn lemma_save_price_append_only(
    m: StoreModel,
    shop: Seq<char>,
    category: Seq<char>,
    url: Seq<char>,
    name: Seq<char>,
    iteration: int,
    timestamp: int,
    price: PriceVal,
)
    ensures
        ({
            let m2 = save_price_spec(m, shop, category, url, name, iteration, timestamp, price);
            &&& m.prices.is_prefix_of(m2.prices)
            &&& m2.prices.len() == m.prices.len() + 1
        }),
{
    let m2 = save_price_spec(m, shop, category, url, name, iteration, timestamp, price);
    assert(m.prices =~= m2.prices.subrange(0, m.prices.len() as int));
}

/// The store.  Rows live in insertion order; the iteration counter holds
/// the id of the most recently started crawl pass, if any pass ran.
#[derive(Debug)]
pub struct Database {
    shops: Vec<Shop>,
    categories: Vec<Category>,
    products: Vec<Product>,
    prices: Vec<PriceObservation>,
    iteration: Option<i64>,
}

impl View for Database {
    type V = StoreModel;

    closed spec fn view(&self) -> StoreModel {
        StoreModel {
            shops: self.shops@.map_values(|r: Shop| r@),
            categories: self.categories@.map_values(|r: Category| r@),
            products: self.products@.map_values(|r: Product| r@),
            prices: self.prices@.map_values(|r: PriceObservation| r@),
            iteration: match self.iteration {
                Some(i) => Some(i as int),
                None => None,
            },
        }
    }
}

impl Database {
    /// A shop lookup that misses means no row carries the name.
    pub proof fn lemma_shop_lookup_none(rows: Seq<ShopVal>, name: Seq<char>, i: int)
        requires
            0 <= i <= rows.len(),
        ensures
            shop_lookup_from(rows, name, i) is None <==> forall|k: int|
                i <= k < rows.len() ==> (#[trigger] rows[k]).name != name,
        decreases rows.len() - i,
    {
        if i < rows.len() {
            Self::lemma_shop_lookup_none(rows, name, i + 1);
        }
    }

    /// A shop lookup that hits returns the id of the first row carrying the
    /// name; with dense ids that row sits at index `id - 1`.
    pub proof fn lemma_shop_lookup_some(rows: Seq<ShopVal>, name: Seq<char>, i: int)
        requires
            0 <= i <= rows.len(),
            shop_ids_sequential(rows),
            shop_lookup_from(rows, name, i) is Some,
        ensures
            ({
                let id = shop_lookup_from(rows, name, i)->Some_0;
                &&& i + 1 <= id <= rows.len()
                &&& rows[id - 1].name == name
            }),
        decreases rows.len() - i,
    {
        if rows[i].name != name {
            Self::lemma_shop_lookup_some(rows, name, i + 1);
        }
    }

    /// An empty store.
    pub fn new() -> (r: Database)
        ensures
            r@.shops.len() == 0,
            r@.categories.len() == 0,
            r@.products.len() == 0,
            r@.prices.len() == 0,
            r@.iteration is None,
            store_wf(r@),
    {
        Database {
            shops: Vec::new(),
            categories: Vec::new(),
            products: Vec::new(),
            prices: Vec::new(),
            iteration: None,
        }
    }

    /// Id of the shop with this name, if one was created before.
    pub fn get_shop_id(&self, name: &str) -> (r: Result<Option<i64>, DatabaseError>)
        ensures
            r matches Ok(o) ==> match o {
                Some(id) => shop_lookup(self@.shops, name@) == Some(id as int),
                None => shop_lookup(self@.shops, name@) is None,
            },
            r is Ok,
    {
        let ghost rows = self@.shops;
        let mut i: usize = 0;
        while i < self.shops.len()
            invariant
                0 <= i <= self.shops.len(),
                rows == self@.shops,
                rows.len() == self.shops.len(),
                forall|k: int| 0 <= k < rows.len() ==> rows[k] == #[trigger] self.shops@[k]@,
                shop_lookup(rows, name@) == shop_lookup_from(rows, name@, i as int),
            decreases self.shops.len() - i,
        {
            if str_eq(self.shops[i].name.as_str(), name) {
                return Ok(Some(self.shops[i].id));
            }
            i += 1;
        }
        Ok(None)
    }

    /// Inserts a shop row for a name that has no row yet.
    pub fn save_shop(&mut self, name: &str) -> (r: Result<(), DatabaseError>)
        requires
            shop_lookup(old(self)@.shops, name@) is None,
            old(self)@.shops.len() + 1 < i64::MAX,
        ensures
            r is Ok,
            final(self)@ == (StoreModel {
                shops: old(self)@.shops.push(
                    ShopVal { id: old(self)@.shops.len() as int + 1, name: name@ },
                ),
                ..old(self)@
            }),
    {
        let id: i64 = (self.shops.len() as i64) + 1;
        let row = Shop::new(id, name.to_owned());
        self.shops.push(row);
        proof {
            assert(final(self)@.shops =~= old(self)@.shops.push(
                ShopVal { id: old(self)@.shops.len() as int + 1, name: name@ },
            ));
            assert(final(self)@.categories =~= old(self)@.categories);
            assert(final(self)@.products =~= old(self)@.products);
            assert(final(self)@.prices =~= old(self)@.prices);
        }
        Ok(())
    }

    /// Get-or-create of a shop by name: the id of the existing row if the
    /// name was seen before, else the id of a freshly inserted row.  A
    /// repeated call with the same name returns the same id and adds
    /// nothing.
    pub fn shop_id(&mut self, name: &str) -> (r: Result<i64, DatabaseError>)
        requires
            store_wf(old(self)@),
            old(self)@.shops.len() + 1 < i64::MAX,
        ensures
            r is Ok,
            ({
                let (rows, id) = upsert_shop(old(self)@.shops, name@);
                &&& final(self)@ == (StoreModel { shops: rows, ..old(self)@ })
                &&& r matches Ok(got) && got == id
                &&& 1 <= id <= rows.len()
            }),
            store_wf(final(self)@),
    {
        let found = self.get_shop_id(name)?;
        match found {
            Some(id) => {
                proof {
                    Self::lemma_shop_lookup_some(self@.shops, name@, 0);
                }
                Ok(id)
            },
            None => {
                let id: i64 = (self.shops.len() as i64) + 1;
                self.save_shop(name)?;
                proof {
                    Self::lemma_shop_lookup_none(old(self)@.shops, name@, 0);
                    Self::lemma_wf_after_shop_push(old(self)@, name@);
                }
                Ok(id)
            },
        }
    }

    /// Pushing a shop with a fresh name and the next dense id preserves
    /// well-formedness.
    proof fn lemma_wf_after_shop_push(m: StoreModel, name: Seq<char>)
        requires
            store_wf(m),
            forall|k: int| 0 <= k < m.shops.len() ==> (#[trigger] m.shops[k]).name != name,
        ensures
            store_wf(
                StoreModel {
                    shops: m.shops.push(ShopVal { id: m.shops.len() as int + 1, name }),
                    ..m
                },
            ),
    {
        let rows = m.shops.push(ShopVal { id: m.shops.len() as int + 1, name });
        assert forall|i: int| 0 <= i < rows.len() implies (#[trigger] rows[i]).id == i + 1 by {
            if i < m.shops.len() {
                assert(rows[i] == m.shops[i]);
            }
        }
        assert forall|i: int, j: int| 0 <= i < j < rows.len() implies (#[trigger] rows[i]).name
            != (#[trigger] rows[j]).name by {
            if j < m.shops.len() {
                assert(rows[i] == m.shops[i] && rows[j] == m.shops[j]);
            } else {
                assert(rows[i] == m.shops[i] && rows[j].name == name);
            }
        }
    }

    /// A category lookup that misses means no row carries the name.
    pub proof fn lemma_category_lookup_none(rows: Seq<CategoryVal>, name: Seq<char>, i: int)
        requires
            0 <= i <= rows.len(),
        ensures
            category_lookup_from(rows, name, i) is None <==> forall|k: int|
                i <= k < rows.len() ==> (#[trigger] rows[k]).name != name,
        decreases rows.len() - i,
    {
        if i < rows.len() {
            Self::lemma_category_lookup_none(rows, name, i + 1);
        }
    }

    /// A category lookup that hits returns the id of the first row carrying
    /// the name; with dense ids that row sits at index `id - 1`.
    pub proof fn lemma_category_lookup_some(rows: Seq<CategoryVal>, name: Seq<char>, i: int)
        requires
            0 <= i <= rows.len(),
            category_ids_sequential(rows),
            category_lookup_from(rows, name, i) is Some,
        ensures
            ({
                let id = category_lookup_from(rows, name, i)->Some_0;
                &&& i + 1 <= id <= rows.len()
                &&& rows[id - 1].name == name
            }),
        decreases rows.len() - i,
    {
        if rows[i].name != name {
            Self::lemma_category_lookup_some(rows, name, i + 1);
        }
    }

    /// A product lookup that misses means no row carries the url.
    pub proof fn lemma_product_lookup_none(rows: Seq<ProductVal>, url: Seq<char>, i: int)
        requires
            0 <= i <= rows.len(),
        ensures
            product_lookup_from(rows, url, i) is None <==> forall|k: int|
                i <= k < rows.len() ==> (#[trigger] rows[k]).url != url,
        decreases rows.len() - i,
    {
        if i < rows.len() {
            Self::lemma_product_lookup_none(rows, url, i + 1);
        }
    }

    /// A product lookup that hits returns the id of the first row carrying
    /// the url; with dense ids that row sits at index `id - 1`.
    pub proof fn lemma_product_lookup_some(rows: Seq<ProductVal>, url: Seq<char>, i: int)
        requires
            0 <= i <= rows.len(),
            product_ids_sequential(rows),
            product_lookup_from(rows, url, i) is Some,
        ensures
            ({
                let id = product_lookup_from(rows, url, i)->Some_0;
                &&& i + 1 <= id <= rows.len()
                &&& rows[id - 1].url == url
            }),
        decreases rows.len() - i,
    {
        if rows[i].url != url {
            Self::lemma_product_lookup_some(rows, url, i + 1);
        }
    }

    /// Id of the category with this name, if one was created before.
    pub fn get_category_id(&self, name: &str) -> (r: Result<Option<i64>, DatabaseError>)
        ensures
            r matches Ok(o) ==> match o {
                Some(id) => category_lookup(self@.categories, name@) == Some(id as int),
                None => category_lookup(self@.categories, name@) is None,
            },
            r is Ok,
    {
        let ghost rows = self@.categories;
        let mut i: usize = 0;
        while i < self.categories.len()
            invariant
                0 <= i <= self.categories.len(),
                rows == self@.categories,
                rows.len() == self.categories.len(),
                forall|k: int| 0 <= k < rows.len() ==> rows[k] == #[trigger] self.categories@[k]@,
                category_lookup(rows, name@) == category_lookup_from(rows, name@, i as int),
            decreases self.categories.len() - i,
        {
            if str_eq(self.categories[i].name.as_str(), name) {
                return Ok(Some(self.categories[i].id));
            }
            i += 1;
        }
        Ok(None)
    }

    /// Inserts a category row for a name that has no row yet.
    pub fn save_category(&mut self, name: &str) -> (r: Result<(), DatabaseError>)
        requires
            category_lookup(old(self)@.categories, name@) is None,
            old(self)@.categories.len() + 1 < i64::MAX,
        ensures
            r is Ok,
            final(self)@ == (StoreModel {
                categories: old(self)@.categories.push(
                    CategoryVal { id: old(self)@.categories.len() as int + 1, name: name@ },
                ),
                ..old(self)@
            }),
    {
        let id: i64 = (self.categories.len() as i64) + 1;
        let row = Category::new(id, name.to_owned());
        self.categories.push(row);
        proof {
            assert(final(self)@.categories =~= old(self)@.categories.push(
                CategoryVal { id: old(self)@.categories.len() as int + 1, name: name@ },
            ));
            assert(final(self)@.shops =~= old(self)@.shops);
            assert(final(self)@.products =~= old(self)@.products);
            assert(final(self)@.prices =~= old(self)@.prices);
        }
        Ok(())
    }

    /// Get-or-create of a category by name; see [`Database::shop_id`].
    pub fn category_id(&mut self, name: &str) -> (r: Result<i64, DatabaseError>)
        requires
            store_wf(old(self)@),
            old(self)@.categories.len() + 1 < i64::MAX,
        ensures
            r is Ok,
            ({
                let (rows, id) = upsert_category(old(self)@.categories, name@);
                &&& final(self)@ == (StoreModel { categories: rows, ..old(self)@ })
                &&& r matches Ok(got) && got == id
                &&& 1 <= id <= rows.len()
            }),
            store_wf(final(self)@),
    {
        let found = self.get_category_id(name)?;
        match found {
            Some(id) => {
                proof {
                    Self::lemma_category_lookup_some(self@.categories, name@, 0);
                }
                Ok(id)
            },
            None => {
                let id: i64 = (self.categories.len() as i64) + 1;
                self.save_category(name)?;
                proof {
                    Self::lemma_category_lookup_none(old(self)@.categories, name@, 0);
                    Self::lemma_wf_after_category_push(old(self)@, name@);
                }
                Ok(id)
            },
        }
    }

    /// Pushing a category with a fresh name and the next dense id preserves
    /// well-formedness.
    proof fn lemma_wf_after_category_push(m: StoreModel, name: Seq<char>)
        requires
            store_wf(m),
            forall|k: int| 0 <= k < m.categories.len() ==> (#[trigger] m.categories[k]).name
                != name,
        ensures
            store_wf(
                StoreModel {
                    categories: m.categories.push(
                        CategoryVal { id: m.categories.len() as int + 1, name },
                    ),
                    ..m
                },
            ),
    {
        let rows = m.categories.push(CategoryVal { id: m.categories.len() as int + 1, name });
        assert forall|i: int| 0 <= i < rows.len() implies (#[trigger] rows[i]).id == i + 1 by {
            if i < m.categories.len() {
                assert(rows[i] == m.categories[i]);
            }
        }
        assert forall|i: int, j: int| 0 <= i < j < rows.len() implies (#[trigger] rows[i]).name
            != (#[trigger] rows[j]).name by {
            if j < m.categories.len() {
                assert(rows[i] == m.categories[i] && rows[j] == m.categories[j]);
            } else {
                assert(rows[i] == m.categories[i] && rows[j].name == name);
            }
        }
    }

    /// Id of the product with this url, if one was created before.
    pub fn get_product_id(&self, url: &str) -> (r: Result<Option<i64>, DatabaseError>)
        ensures
            r matches Ok(o) ==> match o {
                Some(id) => product_lookup(self@.products, url@) == Some(id as int),
                None => product_lookup(self@.products, url@) is None,
            },
            r is Ok,
    {
        let ghost rows = self@.products;
        let mut i: usize = 0;
        while i < self.products.len()
            invariant
                0 <= i <= self.products.len(),
                rows == self@.products,
                rows.len() == self.products.len(),
                forall|k: int| 0 <= k < rows.len() ==> rows[k] == #[trigger] self.products@[k]@,
                product_lookup(rows, url@) == product_lookup_from(rows, url@, i as int),
            decreases self.products.len() - i,
        {
            if str_eq(self.products[i].url.as_str(), url) {
                return Ok(Some(self.products[i].id));
            }
            i += 1;
        }
        Ok(None)
    }

    /// Inserts a product row for a url that has no row yet.
    pub fn save_product(
        &mut self,
        shop_id: i64,
        category_id: i64,
        url: &str,
        name: &str,
    ) -> (r: Result<(), DatabaseError>)
        requires
            product_lookup(old(self)@.products, url@) is None,
            old(self)@.products.len() + 1 < i64::MAX,
        ensures
            r is Ok,
            final(self)@ == (StoreModel {
                products: old(self)@.products.push(
                    ProductVal {
                        id: old(self)@.products.len() as int + 1,
                        shop_id: shop_id as int,
                        category_id: category_id as int,
                        url: url@,
                        name: name@,
                    },
                ),
                ..old(self)@
            }),
    {
        let id: i64 = (self.products.len() as i64) + 1;
        let row = Product::new(id, shop_id, category_id, url.to_owned(), name.to_owned());
        self.products.push(row);
        proof {
            assert(final(self)@.products =~= old(self)@.products.push(
                ProductVal {
                    id: old(self)@.products.len() as int + 1,
                    shop_id: shop_id as int,
                    category_id: category_id as int,
                    url: url@,
                    name: name@,
                },
            ));
            assert(final(self)@.shops =~= old(self)@.shops);
            assert(final(self)@.categories =~= old(self)@.categories);
            assert(final(self)@.prices =~= old(self)@.prices);
        }
        Ok(())
    }

    /// Get-or-create of a product by url: an existing row keeps its
    /// first-seen shop, category and display name, whatever this call
    /// supplies; only a fresh url inserts a row.
    pub fn product_id(
        &mut self,
        shop_id: i64,
        category_id: i64,
        url: &str,
        name: &str,
    ) -> (r: Result<i64, DatabaseError>)
        requires
            store_wf(old(self)@),
            old(self)@.products.len() + 1 < i64::MAX,
            1 <= shop_id <= old(self)@.shops.len(),
            1 <= category_id <= old(self)@.categories.len(),
        ensures
            r is Ok,
            ({
                let (rows, id) = upsert_product(
                    old(self)@.products,
                    shop_id as int,
                    category_id as int,
                    url@,
                    name@,
                );
                &&& final(self)@ == (StoreModel { products: rows, ..old(self)@ })
                &&& r matches Ok(got) && got == id
                &&& 1 <= id <= rows.len()
            }),
            store_wf(final(self)@),
    {
        let found = self.get_product_id(url)?;
        match found {
            Some(id) => {
                proof {
                    Self::lemma_product_lookup_some(self@.products, url@, 0);
                }
                Ok(id)
            },
            None => {
                let id: i64 = (self.products.len() as i64) + 1;
                self.save_product(shop_id, category_id, url, name)?;
                proof {
                    Self::lemma_product_lookup_none(old(self)@.products, url@, 0);
                    Self::lemma_wf_after_product_push(
                        old(self)@,
                        shop_id as int,
                        category_id as int,
                        url@,
                        name@,
                    );
                }
                Ok(id)
            },
        }
    }

    /// Pushing a product with a fresh url, the next dense id and resolvable
    /// foreign ids preserves well-formedness.
    proof fn lemma_wf_after_product_push(
        m: StoreModel,
        shop_id: int,
        category_id: int,
        url: Seq<char>,
        name: Seq<char>,
    )
        requires
            store_wf(m),
            forall|k: int| 0 <= k < m.products.len() ==> (#[trigger] m.products[k]).url != url,
            1 <= shop_id <= m.shops.len(),
            1 <= category_id <= m.categories.len(),
        ensures
            store_wf(
                StoreModel {
                    products: m.products.push(
                        ProductVal {
                            id: m.products.len() as int + 1,
                            shop_id,
                            category_id,
                            url,
                            name,
                        },
                    ),
                    ..m
                },
            ),
    {
        let row = ProductVal { id: m.products.len() as int + 1, shop_id, category_id, url, name };
        let rows = m.products.push(row);
        assert forall|i: int| 0 <= i < rows.len() implies (#[trigger] rows[i]).id == i + 1 by {
            if i < m.products.len() {
                assert(rows[i] == m.products[i]);
            }
        }
        assert forall|i: int, j: int| 0 <= i < j < rows.len() implies (#[trigger] rows[i]).url
            != (#[trigger] rows[j]).url by {
            if j < m.products.len() {
                assert(rows[i] == m.products[i] && rows[j] == m.products[j]);
            } else {
                assert(rows[i] == m.products[i] && rows[j].url == url);
            }
        }
        assert forall|i: int| 0 <= i < rows.len() implies 1 <= (#[trigger] rows[i]).shop_id
            <= m.shops.len() && 1 <= rows[i].category_id <= m.categories.len() by {
            if i < m.products.len() {
                assert(rows[i] == m.products[i]);
            }
        }
    }

    /// Records one observed price: resolves or creates the shop, the
    /// category and the product by their natural keys, then appends one
    /// observation tagged with the pass's iteration id.  Existing rows are
    /// never touched; earlier observations stay exactly as they were.
    pub fn save_price(
        &mut self,
        shop: &str,
        category: &str,
        product_url: &str,
        product_name: &str,
        iteration: i64,
        timestamp: i64,
        price: Price,
    ) -> (r: Result<(), DatabaseError>)
        requires
            store_wf(old(self)@),
            has_room(old(self)@),
            price.wf(),
        ensures
            r is Ok,
            final(self)@ == save_price_spec(
                old(self)@,
                shop@,
                category@,
                product_url@,
                product_name@,
                iteration as int,
                timestamp as int,
                price@,
            ),
            store_wf(final(self)@),
            old(self)@.prices.is_prefix_of(final(self)@.prices),
    {
        let shop_id = self.shop_id(shop)?;
        let category_id = self.category_id(category)?;
        let product_id = self.product_id(shop_id, category_id, product_url, product_name)?;
        let obs_id: i64 = (self.prices.len() as i64) + 1;
        let row = PriceObservation { id: obs_id, product_id, iteration, timestamp, price };
        let ghost before = self@;
        self.prices.push(row);
        proof {
            assert(final(self)@.prices =~= before.prices.push(
                ObservationVal {
                    id: before.prices.len() as int + 1,
                    product_id: product_id as int,
                    iteration: iteration as int,
                    timestamp: timestamp as int,
                    price: price@,
                },
            ));
            assert(final(self)@.shops =~= before.shops);
            assert(final(self)@.categories =~= before.categories);
            assert(final(self)@.products =~= before.products);
            Self::lemma_wf_after_observation_push(
                before,
                product_id as int,
                iteration as int,
                timestamp as int,
                price@,
            );
            assert(old(self)@.prices =~= final(self)@.prices.take(old(self)@.prices.len() as int));
        }
        Ok(())
    }

    /// Appending an observation of an existing product with the next dense
    /// id and a usable price preserves well-formedness.
    proof fn lemma_wf_after_observation_push(
        m: StoreModel,
        product_id: int,
        iteration: int,
        timestamp: int,
        price: PriceVal,
    )
        requires
            store_wf(m),
            1 <= product_id <= m.products.len(),
            price.den > 0,
        ensures
            store_wf(
                StoreModel {
                    prices: append_observation(m.prices, product_id, iteration, timestamp, price),
                    ..m
                },
            ),
    {
        let rows = append_observation(m.prices, product_id, iteration, timestamp, price);
        assert forall|i: int| 0 <= i < rows.len() implies (#[trigger] rows[i]).id == i + 1 by {
            if i < m.prices.len() {
                assert(rows[i] == m.prices[i]);
            }
        }
        assert forall|i: int| 0 <= i < rows.len() implies 1 <= (#[trigger] rows[i]).product_id
            <= m.products.len() && rows[i].price.den > 0 by {
            if i < m.prices.len() {
                assert(rows[i] == m.prices[i]);
            }
        }
    }

    /// The iteration counter: the id of the most recently started pass, or
    /// nothing before the first pass.
    pub fn iteration(&self) -> (r: Result<Option<i64>, DatabaseError>)
        ensures
            r matches Ok(o) ==> match o {
                Some(i) => self@.iteration == Some(i as int),
                None => self@.iteration is None,
            },
            r is Ok,
    {
        Ok(self.iteration)
    }

    /// Overwrites the iteration counter.  Observations and entity rows are
    /// untouched.
    pub fn save_iteration(&mut self, iteration: i64) -> (r: Result<(), DatabaseError>)
        ensures
            r is Ok,
            final(self)@ == (StoreModel { iteration: Some(iteration as int), ..old(self)@ }),
    {
        self.iteration = Some(iteration);
        Ok(())
    }

    /// Largest iteration value among the stored observations, or nothing
    /// when no observation was recorded yet.
    pub fn last_iteration(&self) -> (r: Result<Option<i64>, DatabaseError>)
        ensures
            r matches Ok(o) ==> match o {
                Some(i) => max_iteration(self@.prices) == Some(i as int),
                None => max_iteration(self@.prices) is None,
            },
            r is Ok,
    {
        let ghost rows = self@.prices;
        let mut best: Option<i64> = None;
        let mut i: usize = 0;
        while i < self.prices.len()
            invariant
                0 <= i <= self.prices.len(),
                rows == self@.prices,
                rows.len() == self.prices.len(),
                forall|k: int| 0 <= k < rows.len() ==> rows[k] == #[trigger] self.prices@[k]@,
                match best {
                    Some(b) => max_iteration(rows.take(i as int)) == Some(b as int),
                    None => max_iteration(rows.take(i as int)) is None,
                },
            decreases self.prices.len() - i,
        {
            let it = self.prices[i].iteration;
            let new_best = match best {
                None => Some(it),
                Some(b) => Some(
                    if it > b {
                        it
                    } else {
                        b
                    },
                ),
            };
            proof {
                assert(rows.take(i + 1 as int).drop_last() =~= rows.take(i as int));
                assert(rows.take(i + 1 as int).last() == rows[i as int]);
            }
            best = new_best;
            i += 1;
        }
        proof {
            assert(rows.take(rows.len() as int) =~= rows);
        }
        Ok(best)
    }

    /// All shop rows, in insertion order.
    pub fn shops(&self) -> (r: Result<Vec<Shop>, DatabaseError>)
        ensures
            r matches Ok(v) && v@.map_values(|x: Shop| x@) == self@.shops,
    {
        let mut result: Vec<Shop> = Vec::new();
        let mut i: usize = 0;
        while i < self.shops.len()
            invariant
                0 <= i <= self.shops.len(),
                result@.len() == i,
                forall|k: int| 0 <= k < i ==> (#[trigger] result@[k])@ == self@.shops[k],
            decreases self.shops.len() - i,
        {
            let row = &self.shops[i];
            result.push(Shop { id: row.id, name: row.name.clone() });
            i += 1;
        }
        proof {
            assert(result@.map_values(|x: Shop| x@) =~= self@.shops);
        }
        Ok(result)
    }

    /// All category rows, in insertion order.
    pub fn categories(&self) -> (r: Result<Vec<Category>, DatabaseError>)
        ensures
            r matches Ok(v) && v@.map_values(|x: Category| x@) == self@.categories,
    {
        let mut result: Vec<Category> = Vec::new();
        let mut i: usize = 0;
        while i < self.categories.len()
            invariant
                0 <= i <= self.categories.len(),
                result@.len() == i,
                forall|k: int| 0 <= k < i ==> (#[trigger] result@[k])@ == self@.categories[k],
            decreases self.categories.len() - i,
        {
            let row = &self.categories[i];
            result.push(Category { id: row.id, name: row.name.clone() });
            i += 1;
        }
        proof {
            assert(result@.map_values(|x: Category| x@) =~= self@.categories);
        }
        Ok(result)
    }

    /// All product rows, in insertion order.
    pub fn products(&self) -> (r: Result<Vec<Product>, DatabaseError>)
        ensures
            r matches Ok(v) && v@.map_values(|x: Product| x@) == self@.products,
    {
        let mut result: Vec<Product> = Vec::new();
        let mut i: usize = 0;
        while i < self.products.len()
            invariant
                0 <= i <= self.products.len(),
                result@.len() == i,
                forall|k: int| 0 <= k < i ==> (#[trigger] result@[k])@ == self@.products[k],
            decreases self.products.len() - i,
        {
            let row = &self.products[i];
            result.push(
                Product {
                    id: row.id,
                    shop_id: row.shop_id,
                    category_id: row.category_id,
                    url: row.url.clone(),
                    name: row.name.clone(),
                },
            );
            i += 1;
        }
        proof {
            assert(result@.map_values(|x: Product| x@) =~= self@.products);
        }
        Ok(result)
    }

    /// The shop row with this id, if the id was allocated.
    pub fn shop(&self, id: i64) -> (r: Result<Option<Shop>, DatabaseError>)
        requires
            store_wf(self@),
        ensures
            r matches Ok(o) ==> match o {
                Some(row) => 1 <= id <= self@.shops.len() && row@ == self@.shops[id - 1],
                None => !(1 <= id <= self@.shops.len()),
            },
            r is Ok,
    {
        if 1 <= id && (id as u128) <= (self.shops.len() as u128) {
            let row = &self.shops[(id - 1) as usize];
            Ok(Some(Shop { id: row.id, name: row.name.clone() }))
        } else {
            Ok(None)
        }
    }

    /// The category row with this id, if the id was allocated.
    pub fn category(&self, id: i64) -> (r: Result<Option<Category>, DatabaseError>)
        requires
            store_wf(self@),
        ensures
            r matches Ok(o) ==> match o {
                Some(row) => 1 <= id <= self@.categories.len() && row@ == self@.categories[id - 1],
                None => !(1 <= id <= self@.categories.len()),
            },
            r is Ok,
    {
        if 1 <= id && (id as u128) <= (self.categories.len() as u128) {
            let row = &self.categories[(id - 1) as usize];
            Ok(Some(Category { id: row.id, name: row.name.clone() }))
        } else {
            Ok(None)
        }
    }

    /// The product row with this id, if the id was allocated.
    pub fn product(&self, id: i64) -> (r: Result<Option<Product>, DatabaseError>)
        requires
            store_wf(self@),
        ensures
            r matches Ok(o) ==> match o {
                Some(row) => 1 <= id <= self@.products.len() && row@ == self@.products[id - 1],
                None => !(1 <= id <= self@.products.len()),
            },
            r is Ok,
    {
        if 1 <= id && (id as u128) <= (self.products.len() as u128) {
            let row = &self.products[(id - 1) as usize];
            Ok(Some(
                Product {
                    id: row.id,
                    shop_id: row.shop_id,
                    category_id: row.category_id,
                    url: row.url.clone(),
                    name: row.name.clone(),
                },
            ))
        } else {
            Ok(None)
        }
    }

    /// Product rows of one category, in insertion order.
    pub fn products_by_category(&self, category_id: i64) -> (r: Result<
        Vec<Product>,
        DatabaseError,
    >)
        ensures
            r matches Ok(v) && v@.map_values(|x: Product| x@) == self@.products.filter(
                |p: ProductVal| p.category_id == category_id as int,
            ),
    {
        let ghost rows = self@.products;
        let ghost pred = |p: ProductVal| p.category_id == category_id as int;
        let mut result: Vec<Product> = Vec::new();
        let mut i: usize = 0;
        while i < self.products.len()
            invariant
                0 <= i <= self.products.len(),
                rows == self@.products,
                rows.len() == self.products.len(),
                forall|k: int| 0 <= k < rows.len() ==> rows[k] == #[trigger] self.products@[k]@,
                pred == (|p: ProductVal| p.category_id == category_id as int),
                result@.map_values(|x: Product| x@) =~= rows.take(i as int).filter(pred),
            decreases self.products.len() - i,
        {
            proof {
                reveal(Seq::filter);
                assert(rows.take(i + 1 as int).drop_last() =~= rows.take(i as int));
                assert(rows.take(i + 1 as int).last() == rows[i as int]);
            }
            let row = &self.products[i];
            if row.category_id == category_id {
                result.push(
                    Product {
                        id: row.id,
                        shop_id: row.shop_id,
                        category_id: row.category_id,
                        url: row.url.clone(),
                        name: row.name.clone(),
                    },
                );
            }
            proof {
                reveal(Seq::filter);
                assert(result@.map_values(|x: Product| x@) =~= rows.take(i + 1 as int).filter(
                    pred,
                ));
            }
            i += 1;
        }
        proof {
            assert(rows.take(rows.len() as int) =~= rows);
        }
        Ok(result)
    }

    /// Price records of one product, in insertion order.
    pub fn product_prices_by_product(&self, product_id: i64) -> (r: Result<
        Vec<ProductPrice>,
        DatabaseError,
    >)
        ensures
            r matches Ok(v) && v@.map_values(|x: ProductPrice| x@) == product_history(
                self@.prices,
                product_id as int,
            ),
    {
        let ghost rows = self@.prices;
        let ghost f = history_projection(product_id as int);
        let mut result: Vec<ProductPrice> = Vec::new();
        let mut i: usize = 0;
        while i < self.prices.len()
            invariant
                0 <= i <= self.prices.len(),
                rows == self@.prices,
                rows.len() == self.prices.len(),
                forall|k: int| 0 <= k < rows.len() ==> rows[k] == #[trigger] self.prices@[k]@,
                f == history_projection(product_id as int),
                result@.map_values(|x: ProductPrice| x@) =~= rows.take(i as int).filter_map(f),
            decreases self.prices.len() - i,
        {
            proof {
                rows.lemma_filter_map_take_succ(f, i as int);
            }
            let row = &self.prices[i];
            if row.product_id == product_id {
                result.push(
                    ProductPrice {
                        iteration: row.iteration,
                        timestamp: row.timestamp,
                        price: row.price,
                    },
                );
            }
            proof {
                assert(result@.map_values(|x: ProductPrice| x@) =~= rows.take(
                    i + 1 as int,
                ).filter_map(f));
            }
            i += 1;
        }
        proof {
            assert(rows.take(rows.len() as int) =~= rows);
        }
        Ok(result)
    }

    /// Price records of an iteration range, in insertion order.
    pub fn product_prices(&self, iteration_from: i64, iteration_to: i64) -> (r: Result<
        Vec<ProductPrice>,
        DatabaseError,
    >)
        ensures
            r matches Ok(v) && v@.map_values(|x: ProductPrice| x@) == prices_in_range(
                self@.prices,
                iteration_from as int,
                iteration_to as int,
            ),
    {
        let ghost rows = self@.prices;
        let ghost f = range_projection(iteration_from as int, iteration_to as int);
        let mut result: Vec<ProductPrice> = Vec::new();
        let mut i: usize = 0;
        while i < self.prices.len()
            invariant
                0 <= i <= self.prices.len(),
                rows == self@.prices,
                rows.len() == self.prices.len(),
                forall|k: int| 0 <= k < rows.len() ==> rows[k] == #[trigger] self.prices@[k]@,
                f == range_projection(iteration_from as int, iteration_to as int),
                result@.map_values(|x: ProductPrice| x@) =~= rows.take(i as int).filter_map(f),
            decreases self.prices.len() - i,
        {
            proof {
                rows.lemma_filter_map_take_succ(f, i as int);
            }
            let row = &self.prices[i];
            if iteration_from <= row.iteration && row.iteration <= iteration_to {
                result.push(
                    ProductPrice {
                        iteration: row.iteration,
                        timestamp: row.timestamp,
                        price: row.price,
                    },
                );
            }
            proof {
                assert(result@.map_values(|x: ProductPrice| x@) =~= rows.take(
                    i + 1 as int,
                ).filter_map(f));
            }
            i += 1;
        }
        proof {
            assert(rows.take(rows.len() as int) =~= rows);
        }
        Ok(result)
    }

    /// The denormalized read of an iteration range: every observation whose
    /// iteration lies in `iteration_from ..= iteration_to`, joined with its
    /// product, category and shop rows, in insertion order.
    pub fn product_price_by_iteration(&self, iteration_from: i64, iteration_to: i64) -> (r: Result<
        Vec<IterationPrice>,
        DatabaseError,
    >)
        requires
            store_wf(self@),
        ensures
            r matches Ok(v) && v@.map_values(|x: IterationPrice| x@) == iteration_rows(
                self@,
                iteration_from as int,
                iteration_to as int,
            ),
    {
        let ghost m = self@;
        let ghost f = join_projection(m, iteration_from as int, iteration_to as int);
        let mut result: Vec<IterationPrice> = Vec::new();
        let mut i: usize = 0;
        while i < self.prices.len()
            invariant
                store_wf(m),
                m == self@,
                0 <= i <= self.prices.len(),
                m.prices.len() == self.prices.len(),
                m.products.len() == self.products.len(),
                m.categories.len() == self.categories.len(),
                m.shops.len() == self.shops.len(),
                forall|k: int| 0 <= k < m.prices.len() ==> m.prices[k] == #[trigger] self.prices@[k]@,
                forall|k: int|
                    0 <= k < m.products.len() ==> m.products[k] == #[trigger] self.products@[k]@,
                forall|k: int|
                    0 <= k < m.categories.len() ==> m.categories[k]
                        == #[trigger] self.categories@[k]@,
                forall|k: int| 0 <= k < m.shops.len() ==> m.shops[k] == #[trigger] self.shops@[k]@,
                f == join_projection(m, iteration_from as int, iteration_to as int),
                result@.map_values(|x: IterationPrice| x@) =~= m.prices.take(i as int).filter_map(
                    f,
                ),
            decreases self.prices.len() - i,
        {
            proof {
                m.prices.lemma_filter_map_take_succ(f, i as int);
            }
            let row = &self.prices[i];
            if iteration_from <= row.iteration && row.iteration <= iteration_to {
                let product = &self.products[(row.product_id - 1) as usize];
                let category = &self.categories[(product.category_id - 1) as usize];
                let shop = &self.shops[(product.shop_id - 1) as usize];
                result.push(
                    IterationPrice {
                        category_id: product.category_id,
                        category: category.name.clone(),
                        product: product.name.clone(),
                        url: product.url.clone(),
                        shop: shop.name.clone(),
                        price: row.price,
                        timestamp: row.timestamp,
                    },
                );
            }
            proof {
                assert(result@.map_values(|x: IterationPrice| x@) =~= m.prices.take(
                    i + 1 as int,
                ).filter_map(f));
            }
            i += 1;
        }
        proof {
            assert(m.prices.take(m.prices.len() as int) =~= m.prices);
        }
        Ok(result)
    }

    /// Best known price per category for the latest pass.
    ///
    /// The latest pass is the iteration counter; before the first pass the
    /// result is empty.  Only observations of that single pass take part.
    /// Per category, the observation with the lowest price wins; on equal
    /// prices the lowest product id wins, and among equal prices of one
    /// product the first appended observation stays.  Categories appear in
    /// the order the pass first observed them.
    pub fn best_prices_for_latest_iteration(&self) -> (r: Result<
        Vec<IterationPrice>,
        DatabaseError,
    >)
        requires
            store_wf(self@),
        ensures
            r matches Ok(v) && v@.map_values(|x: IterationPrice| x@) == best_prices_spec(self@),
    {
        let ghost m = self@;
        let it: i64 = match self.iteration {
            None => {
                let empty: Vec<IterationPrice> = Vec::new();
                proof {
                    assert(empty@.map_values(|x: IterationPrice| x@) =~= best_prices_spec(m));
                }
                return Ok(empty);
            },
            Some(it) => it,
        };
        let mut acc: Vec<(i64, PriceObservation)> = Vec::new();
        let mut i: usize = 0;
        while i < self.prices.len()
            invariant
                store_wf(m),
                m == self@,
                m.iteration == Some(it as int),
                0 <= i <= self.prices.len(),
                m.prices.len() == self.prices.len(),
                m.products.len() == self.products.len(),
                forall|k: int| 0 <= k < m.prices.len() ==> m.prices[k] == #[trigger] self.prices@[k]@,
                forall|k: int|
                    0 <= k < m.products.len() ==> m.products[k] == #[trigger] self.products@[k]@,
                ({
                    let spec_acc = best_fold(m, it as int, i as int);
                    &&& acc@.len() == spec_acc.len()
                    &&& forall|k: int|
                        0 <= k < acc@.len() ==> (#[trigger] acc@[k]).0 == spec_acc[k].0
                            && acc@[k].1@ == spec_acc[k].1
                    &&& forall|k: int|
                        0 <= k < acc@.len() ==> 1 <= (#[trigger] acc@[k]).1@.product_id
                            <= m.products.len() && acc@[k].1@.price.den > 0
                }),
            decreases self.prices.len() - i,
        {
            let ghost spec_acc = best_fold(m, it as int, i as int);
            let row = self.prices[i];
            proof {
                assert(row@ == m.prices[i as int]);
                assert(1 <= m.prices[i as int].product_id <= m.products.len());
            }
            if row.iteration == it {
                let product = &self.products[(row.product_id - 1) as usize];
                let category: i64 = product.category_id;
                let mut j: usize = 0;
                let mut found: Option<usize> = None;
                while j < acc.len()
                    invariant
                        0 <= j <= acc.len(),
                        acc@.len() == spec_acc.len(),
                        forall|k: int|
                            0 <= k < acc@.len() ==> (#[trigger] acc@[k]).0 == spec_acc[k].0
                                && acc@[k].1@ == spec_acc[k].1,
                        match found {
                            None => find_category(spec_acc, category as int, 0) == find_category(
                                spec_acc,
                                category as int,
                                j as int,
                            ),
                            Some(f) => f < acc.len() && find_category(spec_acc, category as int, 0)
                                == Some(f as int),
                        },
                    decreases acc.len() - j,
                {
                    if found.is_none() && acc[j].0 == category {
                        found = Some(j);
                    }
                    j += 1;
                }
                match found {
                    None => {
                        acc.push((category, row));
                    },
                    Some(f) => {
                        let incumbent = acc[f].1;
                        let displace = row.price.lt(&incumbent.price) || (row.price.same_value(
                            &incumbent.price,
                        ) && row.product_id < incumbent.product_id);
                        if displace {
                            acc[f] = (category, row);
                        }
                    },
                }
            }
            proof {
                let stepped = best_fold(m, it as int, i + 1 as int);
                assert(stepped == best_step(m, spec_acc, m.prices[i as int], it as int));
                assert(acc@.len() == stepped.len() && forall|k: int|
                    0 <= k < acc@.len() ==> (#[trigger] acc@[k]).0 == stepped[k].0 && acc@[k].1@
                        == stepped[k].1);
            }
            i += 1;
        }
        let ghost best = best_observations(m, it as int);
        let mut result: Vec<IterationPrice> = Vec::new();
        let mut i2: usize = 0;
        while i2 < acc.len()
            invariant
                store_wf(m),
                m == self@,
                0 <= i2 <= acc.len(),
                m.products.len() == self.products.len(),
                m.categories.len() == self.categories.len(),
                m.shops.len() == self.shops.len(),
                forall|k: int|
                    0 <= k < m.products.len() ==> m.products[k] == #[trigger] self.products@[k]@,
                forall|k: int|
                    0 <= k < m.categories.len() ==> m.categories[k]
                        == #[trigger] self.categories@[k]@,
                forall|k: int| 0 <= k < m.shops.len() ==> m.shops[k] == #[trigger] self.shops@[k]@,
                acc@.len() == best.len(),
                forall|k: int|
                    0 <= k < acc@.len() ==> (#[trigger] acc@[k]).1@ == best[k].1 && 1 <= acc@[k].1@.product_id
                        <= m.products.len(),
                result@.len() == i2,
                forall|k: int|
                    0 <= k < i2 ==> (#[trigger] result@[k])@ == join_observation(m, best[k].1),
            decreases acc.len() - i2,
        {
            let row = acc[i2].1;
            proof {
                assert(row@ == best[i2 as int].1);
                assert(m.products[row@.product_id - 1] == self.products@[row@.product_id - 1]@);
                assert(1 <= m.products[row@.product_id - 1].category_id <= m.categories.len());
                assert(1 <= m.products[row@.product_id - 1].shop_id <= m.shops.len());
            }
            let product = &self.products[(row.product_id - 1) as usize];
            let category = &self.categories[(product.category_id - 1) as usize];
            let shop = &self.shops[(product.shop_id - 1) as usize];
            result.push(
                IterationPrice {
                    category_id: product.category_id,
                    category: category.name.clone(),
                    product: product.name.clone(),
                    url: product.url.clone(),
                    shop: shop.name.clone(),
                    price: row.price,
                    timestamp: row.timestamp,
                },
            );
            i2 += 1;
        }
        proof {
            assert(result@.map_values(|x: IterationPrice| x@) =~= best_prices_spec(m));
        }
        Ok(result)
    }
}

} // verus!
