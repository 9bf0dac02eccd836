//! The best-price-per-category aggregation.

use pricewatch::Database;
use pricewatch::Price;

#[test]
fn best_prices_selects_cheapest_of_latest_iteration() {
    let mut db = Database::new();
    db.save_price("s", "cat1", "http://s.example/a", "A", 5, 100, Price::new(10, 1)).unwrap();
    db.save_price("s", "cat1", "http://s.example/b", "B", 5, 101, Price::new(8, 1)).unwrap();
    db.save_price("s", "cat1", "http://s.example/c", "C", 4, 102, Price::new(8, 1)).unwrap();
    db.save_iteration(5).unwrap();
    let best = db.best_prices_for_latest_iteration().unwrap();
    assert_eq!(best.len(), 1);
    assert_eq!(best[0].product(), "B");
    assert_eq!(best[0].price(), Price::new(8, 1));
}

#[test]
fn best_prices_excludes_older_iterations_whatever_their_price() {
    let mut db = Database::new();
    db.save_price("s", "cat1", "http://s.example/a", "A", 5, 100, Price::new(10, 1)).unwrap();
    db.save_price("s", "cat1", "http://s.example/c", "C", 4, 101, Price::new(1, 1)).unwrap();
    db.save_iteration(5).unwrap();
    let best = db.best_prices_for_latest_iteration().unwrap();
    assert_eq!(best.len(), 1);
    assert_eq!(best[0].product(), "A");
}

#[test]
fn best_prices_ties_go_to_the_lowest_product_id() {
    let mut db = Database::new();
    db.save_price("s", "cat1", "http://s.example/a", "A", 3, 100, Price::new(8, 1)).unwrap();
    db.save_price("s", "cat1", "http://s.example/b", "B", 3, 101, Price::new(16, 2)).unwrap();
    db.save_iteration(3).unwrap();
    let best = db.best_prices_for_latest_iteration().unwrap();
    assert_eq!(best.len(), 1);
    assert_eq!(best[0].product(), "A");
}

#[test]
fn best_prices_groups_by_category() {
    let mut db = Database::new();
    db.save_price("s", "cat1", "http://s.example/a", "A", 2, 100, Price::new(10, 1)).unwrap();
    db.save_price("s", "cat2", "http://s.example/b", "B", 2, 101, Price::new(3, 1)).unwrap();
    db.save_price("s", "cat1", "http://s.example/c", "C", 2, 102, Price::new(7, 1)).unwrap();
    db.save_iteration(2).unwrap();
    let best = db.best_prices_for_latest_iteration().unwrap();
    assert_eq!(best.len(), 2);
    assert_eq!(best[0].category(), "cat1");
    assert_eq!(best[0].product(), "C");
    assert_eq!(best[1].category(), "cat2");
    assert_eq!(best[1].product(), "B");
}

#[test]
fn best_prices_before_any_pass_is_empty() {
    let mut db = Database::new();
    assert!(db.best_prices_for_latest_iteration().unwrap().is_empty());
    db.save_price("s", "cat1", "http://s.example/a", "A", 1, 100, Price::new(1, 1)).unwrap();
    assert!(db.best_prices_for_latest_iteration().unwrap().is_empty());
    db.save_iteration(1).unwrap();
    assert_eq!(db.best_prices_for_latest_iteration().unwrap().len(), 1);
}
