//! Crawl configuration and its validation.
//!
//! A configuration declares the shops (with their selectors, price factor,
//! price index and cookies) and the products to watch.  It is valid when no
//! two shops share a name and every product's shop reference resolves to a
//! declared shop; validation runs before every pass, and an invalid
//! configuration skips the pass, never the process.

use vstd::prelude::*;

use crate::price::Price;
use crate::text::str_eq;

verus! {

/// One shop: where and how to read a product page of it.
#[derive(Clone, Debug)]
pub struct ShopConfig {
    /// Unique key within a configuration.
    pub name: String,
    /// CSS selector for the product's display name.
    pub name_selector: String,
    /// CSS selector for the product's price.
    pub price_selector: String,
    /// Worth of one digit unit; one whole unit when absent.
    pub price_factor: Option<Price>,
    /// Zero-based position among the price selector's matches; the first
    /// match when absent.
    pub price_index: Option<usize>,
    /// Cookies sent with each fetch, when present.
    pub cookies: Option<Vec<(String, String)>>,
}

/// One watched product page.
#[derive(Clone, Debug)]
pub struct ProductConfig {
    /// Must name a declared shop.
    pub shop_name: String,
    /// Free-text category label.
    pub category: String,
    /// Stable identity of the product page.
    pub url: String,
}

/// The crawl configuration: shops and the products to visit, in order.
#[derive(Clone, Debug)]
pub struct Config {
    pub shops: Vec<ShopConfig>,
    pub products: Vec<ProductConfig>,
}

/// Why a configuration was rejected.
#[derive(Clone, Debug, PartialEq, Eq)]
pub enum ConfigError {
    /// Two shops carry this name.
    DuplicateShopName { shop_name: String },
    /// A product names this shop, but no shop declaration does.
    NoSuchShopExists { shop_name: String },
}

impl ConfigError {
    /// A shop name declared twice.
    pub fn duplicate_shop_name(shop_name: String) -> (r: ConfigError)
        ensures
            r matches ConfigError::DuplicateShopName { shop_name: n } && n@ == shop_name@,
    {
        ConfigError::DuplicateShopName { shop_name }
    }

    /// A product's shop reference that resolves to nothing.
    pub fn no_such_shop_exists(shop_name: String) -> (r: ConfigError)
        ensures
            r matches ConfigError::NoSuchShopExists { shop_name: n } && n@ == shop_name@,
    {
        ConfigError::NoSuchShopExists { shop_name }
    }

    /// The rejection, worded for a log line.
    pub fn message(&self) -> (r: String)
        ensures
            self matches ConfigError::DuplicateShopName { shop_name } ==> r@
                == "Duplicate shop name: "@ + shop_name@,
            self matches ConfigError::NoSuchShopExists { shop_name } ==> r@ == "Shop `"@
                + shop_name@ + "` exists in product, but not found in shops"@,
    {
        match self {
            ConfigError::DuplicateShopName { shop_name } => String::from_str(
                "Duplicate shop name: ",
            ).concat(shop_name.as_str()),
            ConfigError::NoSuchShopExists { shop_name } => String::from_str("Shop `").concat(
                shop_name.as_str(),
            ).concat("` exists in product, but not found in shops"),
        }
    }
}

/// The shop at index `i` repeats an earlier shop's name.
pub open spec fn dup_shop_at(shops: Seq<ShopConfig>, i: int) -> bool {
    exists|j: int| 0 <= j < i && (#[trigger] shops[j]).name@ == shops[i].name@
}

/// Index of the first shop that repeats an earlier name, scanning from `i`.
pub open spec fn first_dup_shop(shops: Seq<ShopConfig>, i: int) -> Option<int>
    decreases shops.len() - i,
{
    if i < 0 || i >= shops.len() {
        None
    } else if dup_shop_at(shops, i) {
        Some(i)
    } else {
        first_dup_shop(shops, i + 1)
    }
}

/// Some declared shop carries this name.
pub open spec fn shop_declared(shops: Seq<ShopConfig>, name: Seq<char>) -> bool {
    exists|j: int| 0 <= j < shops.len() && (#[trigger] shops[j]).name@ == name
}

/// Index of the first product whose shop reference resolves to nothing,
/// scanning from `i`.
pub open spec fn first_dangling_product(
    shops: Seq<ShopConfig>,
    products: Seq<ProductConfig>,
    i: int,
) -> Option<int>
    decreases products.len() - i,
{
    if i < 0 || i >= products.len() {
        None
    } else if !shop_declared(shops, products[i].shop_name@) {
        Some(i)
    } else {
        first_dangling_product(shops, products, i + 1)
    }
}

/// A valid configuration: shop names unique, every product's shop declared.
pub open spec fn config_valid(shops: Seq<ShopConfig>, products: Seq<ProductConfig>) -> bool {
    &&& first_dup_shop(shops, 0) is None
    &&& first_dangling_product(shops, products, 0) is None
}

impl Default for Config {
    /// An empty configuration: nothing to crawl.
    fn default() -> (r: Config)
        ensures
            r.shops@.len() == 0,
            r.products@.len() == 0,
            config_valid(r.shops@, r.products@),
    {
        Config { shops: Vec::new(), products: Vec::new() }
    }
}

impl Config {
    /// Checks the configuration, in declaration order: first the shops for
    /// a repeated name, then the products for a shop reference that
    /// resolves to nothing.  Returns nothing exactly when the
    /// configuration is valid, else the first offence.
    pub fn validate(&self) -> (r: Option<ConfigError>)
        ensures
            r is None <==> config_valid(self.shops@, self.products@),
            r matches Some(e) ==> match first_dup_shop(self.shops@, 0) {
                Some(i) => e matches ConfigError::DuplicateShopName { shop_name } && shop_name@
                    == self.shops@[i].name@,
                None => match first_dangling_product(self.shops@, self.products@, 0) {
                    Some(i) => e matches ConfigError::NoSuchShopExists { shop_name } && shop_name@
                        == self.products@[i].shop_name@,
                    None => false,
                },
            },
    {
        let ghost shops = self.shops@;
        let ghost products = self.products@;
        let mut i: usize = 0;
        while i < self.shops.len()
            invariant
                0 <= i <= self.shops.len(),
                shops == self.shops@,
                first_dup_shop(shops, 0) == first_dup_shop(shops, i as int),
            decreases self.shops.len() - i,
        {
            let mut j: usize = 0;
            while j < i
                invariant
                    0 <= j <= i < self.shops.len(),
                    shops == self.shops@,
                    first_dup_shop(shops, 0) == first_dup_shop(shops, i as int),
                    forall|k: int| 0 <= k < j ==> (#[trigger] shops[k]).name@ != shops[i as int].name@,
                decreases i - j,
            {
                if str_eq(self.shops[j].name.as_str(), self.shops[i].name.as_str()) {
                    proof {
                        assert(dup_shop_at(shops, i as int));
                    }
                    return Some(
                        ConfigError::DuplicateShopName { shop_name: self.shops[i].name.clone() },
                    );
                }
                j += 1;
            }
            proof {
                assert(!dup_shop_at(shops, i as int));
            }
            i += 1;
        }
        let mut i: usize = 0;
        while i < self.products.len()
            invariant
                0 <= i <= self.products.len(),
                shops == self.shops@,
                products == self.products@,
                first_dup_shop(shops, 0) is None,
                first_dangling_product(shops, products, 0) == first_dangling_product(
                    shops,
                    products,
                    i as int,
                ),
            decreases self.products.len() - i,
        {
            let mut j: usize = 0;
            let mut declared = false;
            while j < self.shops.len()
                invariant
                    0 <= j <= self.shops.len(),
                    shops == self.shops@,
                    products == self.products@,
                    i < self.products.len(),
                    declared ==> shop_declared(shops, products[i as int].shop_name@),
                    !declared ==> forall|k: int|
                        0 <= k < j ==> (#[trigger] shops[k]).name@ != products[i as int].shop_name@,
                decreases self.shops.len() - j,
            {
                if str_eq(self.shops[j].name.as_str(), self.products[i].shop_name.as_str()) {
                    declared = true;
                }
                j += 1;
            }
            if !declared {
                proof {
                    assert(!shop_declared(shops, products[i as int].shop_name@));
                }
                return Some(
                    ConfigError::NoSuchShopExists {
                        shop_name: self.products[i].shop_name.clone(),
                    },
                );
            }
            i += 1;
        }
        None
    }
}

} // verus!
