//! The read-side handlers and the process settings.

use pricewatch::handler::PriceHandler;
use pricewatch::handler::ProductHandler;
use pricewatch::Database;
use pricewatch::DatabaseError;
use pricewatch::Price;
use pricewatch::Settings;

fn filled_store() -> Database {
    let mut db = Database::new();
    db.save_price("acme", "widgets", "http://a.example/1", "One", 1, 100, Price::new(10, 1))
        .unwrap();
    db.save_price("acme", "widgets", "http://a.example/2", "Two", 1, 101, Price::new(4, 1))
        .unwrap();
    db.save_price("acme", "gadgets", "http://a.example/3", "Three", 1, 102, Price::new(6, 1))
        .unwrap();
    db.save_iteration(1).unwrap();
    db
}

#[test]
fn price_handler_groups_histories_by_category() {
    let handler = PriceHandler::new(filled_store());
    let grouped = handler.prices_by_category(1).unwrap();
    assert_eq!(grouped.len(), 2);
    let (ref first, ref first_prices) = grouped[0];
    assert_eq!(first.name(), "One");
    assert_eq!(first_prices.len(), 1);
    assert_eq!(first_prices[0].price(), Price::new(10, 1));
    let (ref second, _) = grouped[1];
    assert_eq!(second.name(), "Two");
    assert!(handler.prices_by_category(42).unwrap().is_empty());
}

#[test]
fn product_handler_serves_the_best_prices() {
    let handler = ProductHandler::new(filled_store());
    let best = handler.best_products().unwrap();
    assert_eq!(best.len(), 2);
    assert_eq!(best[0].category(), "widgets");
    assert_eq!(best[0].product(), "Two");
    assert_eq!(best[1].category(), "gadgets");
    assert_eq!(best[1].product(), "Three");
}

#[test]
fn settings_carry_their_values() {
    let settings = Settings::new(
        "0.0.0.0".to_string(),
        9000,
        6,
        "crawl.toml".to_string(),
        "store.sqlite".to_string(),
        true,
        false,
        true,
    );
    assert_eq!(settings.bind_address(), "0.0.0.0");
    assert_eq!(settings.bind_port(), 9000);
    assert_eq!(settings.period(), 6);
    assert_eq!(settings.config_path(), "crawl.toml");
    assert_eq!(settings.database_path(), "store.sqlite");
    assert!(settings.create_database());
    assert!(!settings.force());
    assert!(settings.disable_crawler());
}

#[test]
fn settings_defaults_match_the_documentation() {
    let settings = Settings::default();
    assert_eq!(settings.bind_address(), "localhost");
    assert_eq!(settings.bind_port(), 8080);
    assert_eq!(settings.period(), 12);
    assert_eq!(settings.config_path(), "config.toml");
    assert_eq!(settings.database_path(), "local.sqlite");
    assert!(!settings.create_database());
    assert!(!settings.force());
    assert!(!settings.disable_crawler());
}

#[test]
fn database_errors_describe_themselves() {
    assert_eq!(DatabaseError::is_directory("/tmp".to_string()).description(),
        "Database path is directory");
    assert_eq!(DatabaseError::no_data().description(), "No data");
}
