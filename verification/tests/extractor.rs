//! The extraction rules, from raw HTML down to the digit arithmetic.

use pricewatch::extract::extract_product;
use pricewatch::extract::query_name;
use pricewatch::extract::query_price;
use pricewatch::extract::uri_schema;
use pricewatch::extract::UriSchema;
use pricewatch::product::ProductError;
use pricewatch::text::digit_chars;
use pricewatch::text::parse_digits;
use pricewatch::text::trim_text;
use pricewatch::Price;

#[test]
fn scheme_is_read_from_the_prefix() {
    assert_eq!(uri_schema("http://shop.example/p"), Some(UriSchema::Http));
    assert_eq!(uri_schema("https://shop.example/p"), Some(UriSchema::Https));
    assert_eq!(uri_schema("ftp://shop.example/p"), None);
    assert_eq!(uri_schema("http:/shop.example"), None);
    assert_eq!(uri_schema(""), None);
}

#[test]
fn trim_strips_unicode_whitespace() {
    assert_eq!(trim_text("  Widget One \t\n"), "Widget One");
    assert_eq!(trim_text("\u{a0}Widget\u{a0}"), "Widget");
    assert_eq!(trim_text("   \t "), "");
    assert_eq!(trim_text("x"), "x");
}

#[test]
fn digits_are_kept_and_everything_else_dropped() {
    assert_eq!(digit_chars("1 299,95 zl"), vec!['1', '2', '9', '9', '9', '5']);
    assert_eq!(digit_chars("no digits"), Vec::<char>::new());
}

#[test]
fn digit_strings_parse_exactly() {
    assert_eq!(parse_digits(&vec!['1', '2', '9', '9', '5']), Some(12995));
    assert_eq!(parse_digits(&Vec::new()), Some(0));
    assert_eq!(
        parse_digits(&vec!['1', '8', '4', '4', '6', '7', '4', '4', '0', '7', '3', '7', '0', '9',
            '5', '5', '1', '6', '1', '5']),
        Some(u64::MAX),
    );
    assert_eq!(
        parse_digits(&vec!['1', '8', '4', '4', '6', '7', '4', '4', '0', '7', '3', '7', '0', '9',
            '5', '5', '1', '6', '1', '6']),
        None,
    );
}

#[test]
fn price_factor_scales_the_digit_string() {
    let price = Price::of_amount(12995, &Price::new(1, 100)).unwrap();
    assert_eq!(price, Price::new(12995, 100));
    assert_eq!(price.num() as f64 / price.den() as f64, 129.95);
}

#[test]
fn name_is_the_first_non_empty_trimmed_text() {
    let matches = vec![
        vec!["   ".to_string(), String::new()],
        vec!["  Widget One  ".to_string(), "Other".to_string()],
    ];
    assert_eq!(query_name(&matches), Some("Widget One".to_string()));
    assert_eq!(query_name(&Vec::new()), None);
    assert_eq!(query_name(&vec![vec![" ".to_string()]]), None);
}

#[test]
fn price_index_picks_the_match() {
    let matches = vec![
        vec!["111".to_string()],
        vec!["was 2, now 22".to_string()],
        vec!["333".to_string()],
    ];
    assert_eq!(query_price(&matches, 1), Some(vec!['2', '2', '2']));
    let split = vec![vec!["1 2".to_string(), " zl ".to_string(), "95".to_string()]];
    assert_eq!(query_price(&split, 0), Some(vec!['1', '2', '9', '5']));
    assert_eq!(query_price(&matches, 0), Some(vec!['1', '1', '1']));
    assert_eq!(query_price(&matches, 3), None);
    assert_eq!(query_price(&vec![vec!["no digits".to_string()]], 0), None);
}

#[test]
fn extraction_reads_name_and_price_from_markup() {
    let html = br#"<html><body>
        <h1 class="title">  Widget One </h1>
        <span class="price">1 299,95 zl</span>
    </body></html>"#;
    let product = extract_product(html, ".title", ".price", Price::new(1, 100), 0).unwrap();
    assert_eq!(product.name, "Widget One");
    assert_eq!(product.price, Price::new(129995, 100));
}

#[test]
fn extraction_uses_the_price_index_to_disambiguate() {
    let html = br#"<html><body>
        <p class="name">Thing</p>
        <span class="price">999</span>
        <span class="price">129,95</span>
        <span class="price">555</span>
    </body></html>"#;
    let product = extract_product(html, ".name", ".price", Price::new(1, 100), 1).unwrap();
    assert_eq!(product.price, Price::new(12995, 100));
}

#[test]
fn extraction_reports_each_failure_kind() {
    let good = br#"<html><body><p class="n">N</p><p class="p">5</p></body></html>"#;
    assert_eq!(
        extract_product(good, "!!", ".p", Price::new(1, 1), 0),
        Err(ProductError::NameElementNotExists),
    );
    assert_eq!(
        extract_product(good, ".n", "!!", Price::new(1, 1), 0),
        Err(ProductError::PriceElementNotExists),
    );
    assert_eq!(
        extract_product(good, ".missing", ".p", Price::new(1, 1), 0),
        Err(ProductError::NameNotFound),
    );
    assert_eq!(
        extract_product(good, ".n", ".missing", Price::new(1, 1), 0),
        Err(ProductError::PriceNotFound),
    );
    assert_eq!(
        extract_product(good, ".n", ".p", Price::new(1, 1), 1),
        Err(ProductError::PriceNotFound),
    );
    let huge = br#"<html><body><p class="n">N</p>
        <p class="p">99999999999999999999999</p></body></html>"#;
    assert_eq!(
        extract_product(huge, ".n", ".p", Price::new(1, 1), 0),
        Err(ProductError::ParsePriceError),
    );
    let ok = extract_product(good, ".n", ".p", Price::new(1, 1), 0).unwrap();
    assert_eq!(ok.name, "N");
    assert_eq!(ok.price, Price::new(5, 1));
}

#[test]
fn error_constructors_build_their_variants() {
    assert_eq!(ProductError::invalid_schema(), ProductError::InvalidSchema);
    assert_eq!(ProductError::name_not_exists(()), ProductError::NameElementNotExists);
    assert_eq!(ProductError::price_not_exists(()), ProductError::PriceElementNotExists);
    assert_eq!(ProductError::name_not_found(), ProductError::NameNotFound);
    assert_eq!(ProductError::price_not_found(), ProductError::PriceNotFound);
    assert_eq!(ProductError::Timeout.message(), "Fetch timed out");
}

#[test]
fn malformed_markup_still_parses() {
    let html = b"<div class='n'>Name<div class='p'>42";
    let product = extract_product(html, ".n", ".p", Price::new(1, 1), 0).unwrap();
    assert_eq!(product.name, "Name");
    assert_eq!(product.price, Price::new(42, 1));
}

#[test]
fn price_comparison_is_exact_on_fractions() {
    assert!(Price::new(8, 1).lt(&Price::new(10, 1)));
    assert!(!Price::new(8, 1).lt(&Price::new(16, 2)));
    assert!(Price::new(8, 1).same_value(&Price::new(16, 2)));
    assert!(Price::new(8, 1).le(&Price::new(16, 2)));
    assert!(!Price::new(10, 1).le(&Price::new(999, 100)));
}
