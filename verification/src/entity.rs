//! Persisted rows and query records of the store.
//!
//! Four row kinds are persisted: shops, categories, products and price
//! observations.  The first three are created once per natural key (shop
//! name, category name, product url) and never updated; observations are
//! append-only.  `ProductPrice` and `IterationPrice` are read-side records
//! returned by queries.

use vstd::prelude::*;

use crate::price::Price;
use crate::price::PriceVal;

verus! {

/// Mathematical value of a [`Shop`] row.
pub ghost struct ShopVal {
    pub id: int,
    pub name: Seq<char>,
}

/// A persisted shop: created on the first observation of its name.
#[derive(Clone, Debug)]
pub struct Shop {
    pub id: i64,
    pub name: String,
}

impl View for Shop {
    type V = ShopVal;

    open spec fn view(&self) -> ShopVal {
        ShopVal { id: self.id as int, name: self.name@ }
    }
}

impl Shop {
    /// Builds a shop row.
    pub fn new(id: i64, name: String) -> (r: Shop)
        ensures
            r@.id == id,
            r@.name == name@,
    {
        Shop { id, name }
    }
}

/// Mathematical value of a [`Category`] row.
pub ghost struct CategoryVal {
    pub id: int,
    pub name: Seq<char>,
}

/// A persisted category: created on the first observation of its label.
#[derive(Clone, Debug)]
pub struct Category {
    pub id: i64,
    pub name: String,
}

impl View for Category {
    type V = CategoryVal;

    open spec fn view(&self) -> CategoryVal {
        CategoryVal { id: self.id as int, name: self.name@ }
    }
}

impl Category {
    /// Builds a category row.
    pub fn new(id: i64, name: String) -> (r: Category)
        ensures
            r@.id == id,
            r@.name == name@,
    {
        Category { id, name }
    }
}

/// Mathematical value of a [`Product`] row.
pub ghost struct ProductVal {
    pub id: int,
    pub shop_id: int,
    pub category_id: int,
    pub url: Seq<char>,
    pub name: Seq<char>,
}

/// A persisted product.  The url is its natural key; shop, category and
/// display name are fixed on creation and never updated afterwards.
#[derive(Clone, Debug)]
pub struct Product {
    pub id: i64,
    pub shop_id: i64,
    pub category_id: i64,
    pub url: String,
    pub name: String,
}

impl View for Product {
    type V = ProductVal;

    open spec fn view(&self) -> ProductVal {
        ProductVal {
            id: self.id as int,
            shop_id: self.shop_id as int,
            category_id: self.category_id as int,
            url: self.url@,
            name: self.name@,
        }
    }
}

impl Product {
    /// Builds a product row.
    pub fn new(id: i64, shop_id: i64, category_id: i64, url: String, name: String) -> (r: Product)
        ensures
            r@.id == id,
            r@.shop_id == shop_id,
            r@.category_id == category_id,
            r@.url == url@,
            r@.name == name@,
    {
        Product { id, shop_id, category_id, url, name }
    }

    /// Row id.
    pub fn id(&self) -> (r: i64)
        ensures
            r == self@.id,
    {
        self.id
    }

    /// Display name, as first extracted.
    pub fn name(&self) -> (r: String)
        ensures
            r@ == self@.name,
    {
        self.name.clone()
    }
}

/// Mathematical value of a [`PriceObservation`] row.
pub ghost struct ObservationVal {
    pub id: int,
    pub product_id: int,
    pub iteration: int,
    pub timestamp: int,
    pub price: PriceVal,
}

/// One recorded price for a product within one crawl pass.  Observations
/// are append-only: once written, a row is never changed or removed.
#[derive(Clone, Copy, Debug)]
pub struct PriceObservation {
    pub id: i64,
    pub product_id: i64,
    pub iteration: i64,
    pub timestamp: i64,
    pub price: Price,
}

impl View for PriceObservation {
    type V = ObservationVal;

    open spec fn view(&self) -> ObservationVal {
        ObservationVal {
            id: self.id as int,
            product_id: self.product_id as int,
            iteration: self.iteration as int,
            timestamp: self.timestamp as int,
            price: self.price@,
        }
    }
}

/// Mathematical value of a [`ProductPrice`] record.
pub ghost struct ProductPriceVal {
    pub iteration: int,
    pub timestamp: int,
    pub price: PriceVal,
}

/// Query record: one price of a product, with the pass it came from.
#[derive(Clone, Debug)]
pub struct ProductPrice {
    pub iteration: i64,
    pub timestamp: i64,
    pub price: Price,
}

impl View for ProductPrice {
    type V = ProductPriceVal;

    open spec fn view(&self) -> ProductPriceVal {
        ProductPriceVal {
            iteration: self.iteration as int,
            timestamp: self.timestamp as int,
            price: self.price@,
        }
    }
}

impl ProductPrice {
    /// Builds a price record.
    pub fn new(iteration: i64, timestamp: i64, price: Price) -> (r: ProductPrice)
        ensures
            r@.iteration == iteration,
            r@.timestamp == timestamp,
            r@.price == price@,
    {
        ProductPrice { iteration, timestamp, price }
    }

    /// Crawl pass the price was seen in.
    pub fn iteration(&self) -> (r: i64)
        ensures
            r == self@.iteration,
    {
        self.iteration
    }

    /// Epoch seconds of the observation.
    pub fn timestamp(&self) -> (r: i64)
        ensures
            r == self@.timestamp,
    {
        self.timestamp
    }

    /// Observed price.
    pub fn price(&self) -> (r: Price)
        ensures
            r@ == self@.price,
    {
        self.price
    }
}

/// Mathematical value of an [`IterationPrice`] record.
pub ghost struct IterationPriceVal {
    pub category_id: int,
    pub category: Seq<char>,
    pub product: Seq<char>,
    pub url: Seq<char>,
    pub shop: Seq<char>,
    pub price: PriceVal,
    pub timestamp: int,
}

/// Query record: one observation joined with its product, category and
/// shop rows, as the read side consumes it.
#[derive(Clone, Debug)]
pub struct IterationPrice {
    pub category_id: i64,
    pub category: String,
    pub product: String,
    pub url: String,
    pub shop: String,
    pub price: Price,
    pub timestamp: i64,
}

impl View for IterationPrice {
    type V = IterationPriceVal;

    open spec fn view(&self) -> IterationPriceVal {
        IterationPriceVal {
            category_id: self.category_id as int,
            category: self.category@,
            product: self.product@,
            url: self.url@,
            shop: self.shop@,
            price: self.price@,
            timestamp: self.timestamp as int,
        }
    }
}

impl IterationPrice {
    /// Builds a joined record.
    pub fn new(
        category_id: i64,
        category: String,
        product: String,
        url: String,
        shop: String,
        price: Price,
        timestamp: i64,
    ) -> (r: IterationPrice)
        ensures
            r@.category_id == category_id,
            r@.category == category@,
            r@.product == product@,
            r@.url == url@,
            r@.shop == shop@,
            r@.price == price@,
            r@.timestamp == timestamp,
    {
        IterationPrice { category_id, category, product, url, shop, price, timestamp }
    }

    /// Category id of the joined product.
    pub fn category_id(&self) -> (r: i64)
        ensures
            r == self@.category_id,
    {
        self.category_id
    }

    /// Category label.
    pub fn category(&self) -> (r: String)
        ensures
            r@ == self@.category,
    {
        self.category.clone()
    }

    /// Product display name.
    pub fn product(&self) -> (r: String)
        ensures
            r@ == self@.product,
    {
        self.product.clone()
    }

    /// Product page url.
    pub fn url(&self) -> (r: String)
        ensures
            r@ == self@.url,
    {
        self.url.clone()
    }

    /// Shop name.
    pub fn shop(&self) -> (r: String)
        ensures
            r@ == self@.shop,
    {
        self.shop.clone()
    }

    /// Observed price.
    pub fn price(&self) -> (r: Price)
        ensures
            r@ == self@.price,
    {
        self.price
    }

    /// Epoch seconds of the observation.
    pub fn timestamp(&self) -> (r: i64)
        ensures
            r == self@.timestamp,
    {
        self.timestamp
    }
}

} // verus!
