//! The store: get-or-create semantics, append-only history, and the read
//! queries.

use pricewatch::Database;
use pricewatch::Price;

fn filled_store() -> Database {
    let mut db = Database::new();
    db.save_price("acme", "widgets", "http://acme.example/w1", "Widget One", 1, 100, Price::new(10, 1))
        .unwrap();
    db.save_price("acme", "widgets", "http://acme.example/w2", "Widget Two", 1, 101, Price::new(8, 1))
        .unwrap();
    db.save_price("bmart", "gadgets", "http://bmart.example/g1", "Gadget", 1, 102, Price::new(5, 1))
        .unwrap();
    db
}

#[test]
fn shop_get_or_create_is_idempotent() {
    let mut db = Database::new();
    let first = db.shop_id("acme").unwrap();
    let second = db.shop_id("acme").unwrap();
    assert_eq!(first, second);
    assert_eq!(db.shops().unwrap().len(), 1);
}

#[test]
fn category_get_or_create_is_idempotent() {
    let mut db = Database::new();
    let first = db.category_id("widgets").unwrap();
    let second = db.category_id("widgets").unwrap();
    assert_eq!(first, second);
    assert_eq!(db.categories().unwrap().len(), 1);
}

#[test]
fn product_get_or_create_keeps_first_attributes() {
    let mut db = Database::new();
    let shop = db.shop_id("acme").unwrap();
    let other_shop = db.shop_id("bmart").unwrap();
    let category = db.category_id("widgets").unwrap();
    let first = db.product_id(shop, category, "http://acme.example/w1", "Widget").unwrap();
    let second = db.product_id(other_shop, category, "http://acme.example/w1", "Renamed").unwrap();
    assert_eq!(first, second);
    let products = db.products().unwrap();
    assert_eq!(products.len(), 1);
    assert_eq!(products[0].shop_id, shop);
    assert_eq!(products[0].name, "Widget");
}

#[test]
fn distinct_keys_get_distinct_ids() {
    let mut db = Database::new();
    let first = db.shop_id("acme").unwrap();
    let second = db.shop_id("bmart").unwrap();
    assert_ne!(first, second);
    assert_eq!(db.shops().unwrap().len(), 2);
}

#[test]
fn save_price_deduplicates_entities() {
    let db = filled_store();
    assert_eq!(db.shops().unwrap().len(), 2);
    assert_eq!(db.categories().unwrap().len(), 2);
    assert_eq!(db.products().unwrap().len(), 3);
}

#[test]
fn observations_are_only_appended() {
    let mut db = filled_store();
    let before = db.product_prices(i64::MIN, i64::MAX).unwrap();
    db.save_price("acme", "widgets", "http://acme.example/w1", "Widget One", 2, 200, Price::new(11, 1))
        .unwrap();
    let after = db.product_prices(i64::MIN, i64::MAX).unwrap();
    assert_eq!(after.len(), before.len() + 1);
    for (old, new) in before.iter().zip(after.iter()) {
        assert_eq!(old.iteration(), new.iteration());
        assert_eq!(old.timestamp(), new.timestamp());
        assert_eq!(old.price(), new.price());
    }
}

#[test]
fn price_history_is_in_insertion_order() {
    let mut db = filled_store();
    db.save_price("acme", "widgets", "http://acme.example/w1", "Widget One", 2, 200, Price::new(12, 1))
        .unwrap();
    let product = db.get_product_id("http://acme.example/w1").unwrap().unwrap();
    let history = db.product_prices_by_product(product).unwrap();
    assert_eq!(history.len(), 2);
    assert_eq!(history[0].iteration(), 1);
    assert_eq!(history[0].price(), Price::new(10, 1));
    assert_eq!(history[1].iteration(), 2);
    assert_eq!(history[1].price(), Price::new(12, 1));
}

#[test]
fn last_iteration_is_the_maximum() {
    let mut db = Database::new();
    assert_eq!(db.last_iteration().unwrap(), None);
    db.save_price("acme", "widgets", "http://acme.example/w1", "W", 7, 100, Price::new(1, 1))
        .unwrap();
    db.save_price("acme", "widgets", "http://acme.example/w2", "X", 3, 101, Price::new(1, 1))
        .unwrap();
    assert_eq!(db.last_iteration().unwrap(), Some(7));
}

#[test]
fn iteration_counter_round_trips() {
    let mut db = Database::new();
    assert_eq!(db.iteration().unwrap(), None);
    db.save_iteration(5).unwrap();
    assert_eq!(db.iteration().unwrap(), Some(5));
}

#[test]
fn rows_are_found_by_id() {
    let db = filled_store();
    let shop = db.shop(1).unwrap().unwrap();
    assert_eq!(shop.name, "acme");
    let category = db.category(2).unwrap().unwrap();
    assert_eq!(category.name, "gadgets");
    let product = db.product(3).unwrap().unwrap();
    assert_eq!(product.url, "http://bmart.example/g1");
    assert!(db.shop(0).unwrap().is_none());
    assert!(db.category(99).unwrap().is_none());
    assert!(db.product(-1).unwrap().is_none());
}

#[test]
fn products_by_category_filters() {
    let db = filled_store();
    let widgets = db.products_by_category(1).unwrap();
    assert_eq!(widgets.len(), 2);
    assert_eq!(widgets[0].url, "http://acme.example/w1");
    assert_eq!(widgets[1].url, "http://acme.example/w2");
    let gadgets = db.products_by_category(2).unwrap();
    assert_eq!(gadgets.len(), 1);
    assert_eq!(gadgets[0].name(), "Gadget");
}

#[test]
fn iteration_range_join_carries_names() {
    let db = filled_store();
    let rows = db.product_price_by_iteration(1, 1).unwrap();
    assert_eq!(rows.len(), 3);
    assert_eq!(rows[0].category(), "widgets");
    assert_eq!(rows[0].product(), "Widget One");
    assert_eq!(rows[0].url(), "http://acme.example/w1");
    assert_eq!(rows[0].shop(), "acme");
    assert_eq!(rows[0].price(), Price::new(10, 1));
    assert_eq!(rows[0].timestamp(), 100);
    assert_eq!(rows[2].shop(), "bmart");
    assert!(db.product_price_by_iteration(2, 5).unwrap().is_empty());
}
