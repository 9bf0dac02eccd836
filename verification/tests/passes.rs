//! Pass bookkeeping: configuration validation, iteration allocation, pass
//! isolation and the sleep rule.

use pricewatch::config::Config;
use pricewatch::config::ConfigError;
use pricewatch::config::ProductConfig;
use pricewatch::config::ShopConfig;
use pricewatch::product::Product;
use pricewatch::product::ProductError;
use pricewatch::scheduler::begin_pass;
use pricewatch::scheduler::next_iteration;
use pricewatch::scheduler::period_seconds;
use pricewatch::scheduler::record_pass;
use pricewatch::scheduler::record_product;
use pricewatch::scheduler::sleep_duration;
use pricewatch::Database;
use pricewatch::Price;

fn shop(name: &str) -> ShopConfig {
    ShopConfig {
        name: name.to_string(),
        name_selector: ".name".to_string(),
        price_selector: ".price".to_string(),
        price_factor: None,
        price_index: None,
        cookies: None,
    }
}

fn product(shop_name: &str, category: &str, url: &str) -> ProductConfig {
    ProductConfig {
        shop_name: shop_name.to_string(),
        category: category.to_string(),
        url: url.to_string(),
    }
}

#[test]
fn duplicate_shop_names_are_rejected() {
    let config = Config { shops: vec![shop("acme"), shop("acme")], products: Vec::new() };
    assert_eq!(
        config.validate(),
        Some(ConfigError::DuplicateShopName { shop_name: "acme".to_string() }),
    );
}

#[test]
fn dangling_shop_references_are_rejected() {
    let config = Config {
        shops: vec![shop("acme")],
        products: vec![product("ghost", "widgets", "http://g.example/p")],
    };
    assert_eq!(
        config.validate(),
        Some(ConfigError::NoSuchShopExists { shop_name: "ghost".to_string() }),
    );
}

#[test]
fn valid_configurations_pass() {
    let config = Config {
        shops: vec![shop("acme"), shop("bmart")],
        products: vec![
            product("acme", "widgets", "http://a.example/1"),
            product("bmart", "widgets", "http://b.example/1"),
        ],
    };
    assert_eq!(config.validate(), None);
    assert_eq!(Config::default().validate(), None);
}

#[test]
fn configuration_errors_are_worded_for_logs() {
    let dup = ConfigError::duplicate_shop_name("acme".to_string());
    assert_eq!(dup.message(), "Duplicate shop name: acme");
    let dangling = ConfigError::no_such_shop_exists("ghost".to_string());
    assert_eq!(dangling.message(), "Shop `ghost` exists in product, but not found in shops");
}

#[test]
fn duplicate_shops_are_reported_before_dangling_products() {
    let config = Config {
        shops: vec![shop("acme"), shop("acme")],
        products: vec![product("ghost", "widgets", "http://g.example/p")],
    };
    assert_eq!(
        config.validate(),
        Some(ConfigError::DuplicateShopName { shop_name: "acme".to_string() }),
    );
}

#[test]
fn iteration_ids_strictly_increase() {
    let mut db = Database::new();
    let first = begin_pass(&mut db).unwrap();
    let second = begin_pass(&mut db).unwrap();
    let third = begin_pass(&mut db).unwrap();
    assert_eq!(first, 1);
    assert!(second > first);
    assert!(third > second);
    assert_eq!(next_iteration(None), 1);
    assert_eq!(next_iteration(Some(41)), 42);
}

#[test]
fn a_failed_product_does_not_stop_the_pass() {
    let mut db = Database::new();
    let config = Config {
        shops: vec![shop("acme")],
        products: vec![
            product("acme", "widgets", "http://a.example/1"),
            product("acme", "widgets", "http://a.example/2"),
            product("acme", "widgets", "http://a.example/3"),
        ],
    };
    let outcomes = vec![
        Ok(Product::new("First".to_string(), Price::new(10, 1))),
        Err(ProductError::NameNotFound),
        Ok(Product::new("Third".to_string(), Price::new(7, 1))),
    ];
    let it = begin_pass(&mut db).unwrap();
    let summary = record_pass(&mut db, &config, &outcomes, it, &vec![100, 101, 102]);
    assert_eq!(summary.saved, 2);
    assert_eq!(summary.errors, vec![ProductError::NameNotFound]);
    let products = db.products().unwrap();
    assert_eq!(products.len(), 2);
    assert_eq!(products[0].name, "First");
    assert_eq!(products[1].name, "Third");
    let rows = db.product_price_by_iteration(it, it).unwrap();
    assert_eq!(rows.len(), 2);
    assert_eq!(rows[0].price(), Price::new(10, 1));
    assert_eq!(rows[1].price(), Price::new(7, 1));
}

#[test]
fn recording_one_product_reports_its_failure() {
    let mut db = Database::new();
    let cfg = product("acme", "widgets", "http://a.example/1");
    let failed: Result<Product, ProductError> = Err(ProductError::PriceNotFound);
    let reported = record_product(&mut db, &cfg, &failed, 1, 100);
    assert_eq!(reported, Some(ProductError::PriceNotFound));
    assert!(db.products().unwrap().is_empty());
    let ok: Result<Product, ProductError> = Ok(Product::new("W".to_string(), Price::new(3, 1)));
    assert_eq!(record_product(&mut db, &cfg, &ok, 1, 100), None);
    assert_eq!(db.products().unwrap().len(), 1);
}

#[test]
fn sleep_lasts_for_the_rest_of_the_period() {
    assert_eq!(sleep_duration(100, 30), Some(70));
    assert_eq!(sleep_duration(100, 100), None);
    assert_eq!(sleep_duration(100, 150), None);
    assert_eq!(sleep_duration(100, 0), Some(100));
}

#[test]
fn the_period_is_configured_in_hours() {
    assert_eq!(period_seconds(12), Some(43200));
    assert_eq!(period_seconds(0), Some(0));
    assert_eq!(period_seconds(u64::MAX), None);
}
