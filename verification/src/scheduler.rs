//! Crawl-pass bookkeeping.
//!
//! A pass allocates a fresh iteration id, visits every configured product
//! in declaration order, and records each successful extraction; a single
//! product's failure never stops the rest of the pass.  The fetch itself is
//! outside work: the surrounding loop hands each product's outcome in, and
//! the recording of a whole pass is specified as a fold over those
//! outcomes.

use vstd::prelude::*;

use crate::config::Config;
use crate::config::ConfigError;
use crate::config::ProductConfig;
use crate::database::save_price_spec;
use crate::database::store_wf;
use crate::database::Database;
use crate::database::StoreModel;
use crate::price::PriceVal;
use crate::product::Product;
use crate::product::ProductError;

verus! {

/// Why a pass could not start: the configuration could not be read, parsed
/// or validated.  Fatal to the one pass, never to the process.
#[derive(Clone, Debug)]
pub enum ReadConfigError {
    /// The configuration file could not be read.
    IoError { description: String },
    /// The file is not well-formed; the position is given when known.
    ParsingError { line: Option<usize>, column: Option<usize> },
    /// The configuration parsed but broke a validation rule.
    InvalidConfig { error: ConfigError },
}

impl ReadConfigError {
    /// Wraps a validation failure.
    pub fn invalid_config(error: ConfigError) -> (r: ReadConfigError)
        ensures
            r matches ReadConfigError::InvalidConfig { error: e } && e == error,
    {
        ReadConfigError::InvalidConfig { error }
    }

    /// Short description of the error kind.
    pub fn description(&self) -> (r: &'static str)
        ensures
            self is IoError ==> r@ == "IO error"@,
            self is ParsingError ==> r@ == "Parsing error"@,
            self is InvalidConfig ==> r@ == "Invalid configuration"@,
    {
        match self {
            ReadConfigError::IoError { .. } => "IO error",
            ReadConfigError::ParsingError { .. } => "Parsing error",
            ReadConfigError::InvalidConfig { .. } => "Invalid configuration",
        }
    }
}

/// The iteration id the next pass gets: one past the saved counter, or one
/// for the very first pass.
pub open spec fn next_iteration_spec(last: Option<int>) -> int {
    match last {
        None => 1,
        Some(n) => n + 1,
    }
}

/// Allocates the iteration id of the next pass: strictly greater than the
/// previously used id.
pub fn next_iteration(last: Option<i64>) -> (r: i64)
    requires
        last matches Some(n) ==> n < i64::MAX,
    ensures
        r as int == next_iteration_spec(
            match last {
                Some(n) => Some(n as int),
                None => None,
            },
        ),
        last matches Some(n) ==> r > n,
{
    match last {
        None => 1,
        Some(n) => n + 1,
    }
}

/// Iteration ids strictly increase across consecutive passes: a pass saves
/// the id it allocated, and the id the next pass allocates from that saved
/// counter is strictly greater.
pub proof fn lemma_iteration_monotonic(m: StoreModel)
    ensures
        ({
            let first = next_iteration_spec(m.iteration);
            let after_save = StoreModel { iteration: Some(first), ..m };
            next_iteration_spec(after_save.iteration) > first
        }),
{
}

/// Starts a pass: reads the iteration counter, allocates the next id and
/// saves it.  The id is strictly greater than any id a previous pass used,
/// and the stored rows are untouched.
pub fn begin_pass(db: &mut Database) -> (r: Result<i64, crate::error::DatabaseError>)
    requires
        store_wf(old(db)@),
        old(db)@.iteration matches Some(n) ==> n < i64::MAX,
    ensures
        ({
            let it = next_iteration_spec(old(db)@.iteration);
            &&& r matches Ok(got) && got as int == it
            &&& final(db)@ == (StoreModel { iteration: Some(it), ..old(db)@ })
            &&& store_wf(final(db)@)
            &&& old(db)@.iteration matches Some(n) ==> it > n
        }),
{
    let last = db.iteration()?;
    let it = next_iteration(last);
    db.save_iteration(it)?;
    Ok(it)
}

/// What one fetched product contributes to the store: a failed product
/// contributes nothing.
pub open spec fn outcome_of(outcome: Result<Product, ProductError>) -> Option<(Seq<char>, PriceVal)> {
    match outcome {
        Ok(p) => Some((p.name@, p.price@)),
        Err(_) => None,
    }
}

/// The store after recording one product's outcome: a success records its
/// price under the product's configuration, a failure changes nothing.
pub open spec fn record_product_spec(
    m: StoreModel,
    product: ProductConfig,
    outcome: Result<Product, ProductError>,
    iteration: int,
    timestamp: int,
) -> StoreModel {
    match outcome_of(outcome) {
        None => m,
        Some((name, price)) => save_price_spec(
            m,
            product.shop_name@,
            product.category@,
            product.url@,
            name,
            iteration,
            timestamp,
            price,
        ),
    }
}

/// Records one product's outcome within a pass: a successful extraction is
/// saved under the pass's iteration id, a failure leaves the store exactly
/// as it was and is handed back to be logged.  Either way the pass goes on.
pub fn record_product(
    db: &mut Database,
    product: &ProductConfig,
    outcome: &Result<Product, ProductError>,
    iteration: i64,
    timestamp: i64,
) -> (r: Option<ProductError>)
    requires
        store_wf(old(db)@),
        crate::database::has_room(old(db)@),
        outcome matches Ok(p) ==> p.price.wf(),
    ensures
        final(db)@ == record_product_spec(old(db)@, *product, *outcome, iteration as int, timestamp as int),
        store_wf(final(db)@),
        old(db)@.prices.is_prefix_of(final(db)@.prices),
        match r {
            None => outcome is Ok,
            Some(e) => outcome matches Err(orig) && e == orig,
        },
{
    match outcome {
        Ok(extracted) => {
            let saved = db.save_price(
                product.shop_name.as_str(),
                product.category.as_str(),
                product.url.as_str(),
                extracted.name.as_str(),
                iteration,
                timestamp,
                extracted.price,
            );
            match saved {
                Ok(()) => None,
                Err(_) => None,
            }
        },
        Err(e) => {
            proof {
                assert(old(db)@.prices =~= final(db)@.prices.subrange(
                    0,
                    old(db)@.prices.len() as int,
                ));
            }
            Some(e.duplicate())
        },
    }
}

/// The store after a whole pass: the outcomes folded in, in declaration
/// order, failures contributing nothing.
pub open spec fn record_pass_spec(
    m: StoreModel,
    products: Seq<ProductConfig>,
    outcomes: Seq<Result<Product, ProductError>>,
    iteration: int,
    timestamps: Seq<i64>,
    n: int,
) -> StoreModel
    decreases n,
{
    if n <= 0 {
        m
    } else {
        record_product_spec(
            record_pass_spec(m, products, outcomes, iteration, timestamps, n - 1),
            products[n - 1],
            outcomes[n - 1],
            iteration,
            timestamps[n - 1] as int,
        )
    }
}

/// Projection of an outcome onto its error, if it failed.
pub open spec fn err_projection() -> spec_fn(Result<Product, ProductError>) -> Option<
    ProductError,
> {
    |o: Result<Product, ProductError>|
        match o {
            Ok(_) => None,
            Err(e) => Some(e),
        }
}

/// Recording one product grows each collection by at most one row and
/// leaves the iteration counter alone.
proof fn lemma_record_product_growth(
    m: StoreModel,
    product: ProductConfig,
    outcome: Result<Product, ProductError>,
    iteration: int,
    timestamp: int,
)
    ensures
        ({
            let m2 = record_product_spec(m, product, outcome, iteration, timestamp);
            &&& m2.shops.len() <= m.shops.len() + 1
            &&& m2.categories.len() <= m.categories.len() + 1
            &&& m2.products.len() <= m.products.len() + 1
            &&& m2.prices.len() <= m.prices.len() + 1
            &&& m2.iteration == m.iteration
        }),
{
}

/// What a finished pass reports: how many products were saved, and the
/// errors of the failed ones, in declaration order.
#[derive(Debug)]
pub struct PassSummary {
    pub saved: usize,
    pub errors: Vec<ProductError>,
}

/// Records a whole pass: every configured product's outcome, in
/// declaration order, under one iteration id.
///
/// Pass isolation, stated by the fold: a failed product contributes
/// nothing and stops nothing — every successful product is recorded
/// whatever happened before or after it, and each failure is reported in
/// the summary.
pub fn record_pass(
    db: &mut Database,
    config: &Config,
    outcomes: &Vec<Result<Product, ProductError>>,
    iteration: i64,
    timestamps: &Vec<i64>,
) -> (r: PassSummary)
    requires
        store_wf(old(db)@),
        outcomes@.len() == config.products@.len(),
        timestamps@.len() == config.products@.len(),
        old(db)@.shops.len() + outcomes@.len() + 1 < i64::MAX,
        old(db)@.categories.len() + outcomes@.len() + 1 < i64::MAX,
        old(db)@.products.len() + outcomes@.len() + 1 < i64::MAX,
        old(db)@.prices.len() + outcomes@.len() + 1 < i64::MAX,
        forall|k: int|
            0 <= k < outcomes@.len() ==> ((#[trigger] outcomes@[k]) matches Ok(p) ==> p.price.wf()),
    ensures
        final(db)@ == record_pass_spec(
            old(db)@,
            config.products@,
            outcomes@,
            iteration as int,
            timestamps@,
            outcomes@.len() as int,
        ),
        store_wf(final(db)@),
        old(db)@.prices.is_prefix_of(final(db)@.prices),
        r.saved + r.errors@.len() == outcomes@.len(),
        r.errors@ == outcomes@.filter_map(err_projection()),
{
    let ghost m0 = db@;
    let ghost products = config.products@;
    let ghost ts = timestamps@;
    let n = outcomes.len();
    let mut saved: usize = 0;
    let mut errors: Vec<ProductError> = Vec::new();
    let mut i: usize = 0;
    while i < n
        invariant
            0 <= i <= n,
            n == outcomes@.len(),
            products == config.products@,
            ts == timestamps@,
            products.len() == n,
            ts.len() == n,
            forall|k: int|
                0 <= k < outcomes@.len() ==> ((#[trigger] outcomes@[k]) matches Ok(p)
                    ==> p.price.wf()),
            m0.shops.len() + n + 1 < i64::MAX,
            m0.categories.len() + n + 1 < i64::MAX,
            m0.products.len() + n + 1 < i64::MAX,
            m0.prices.len() + n + 1 < i64::MAX,
            db@ == record_pass_spec(m0, products, outcomes@, iteration as int, ts, i as int),
            store_wf(db@),
            db@.shops.len() <= m0.shops.len() + i,
            db@.categories.len() <= m0.categories.len() + i,
            db@.products.len() <= m0.products.len() + i,
            db@.prices.len() <= m0.prices.len() + i,
            m0.prices.is_prefix_of(db@.prices),
            saved + errors@.len() == i,
            errors@ == outcomes@.take(i as int).filter_map(err_projection()),
        decreases n - i,
    {
        let ghost before = db@;
        proof {
            outcomes@.lemma_filter_map_take_succ(err_projection(), i as int);
        }
        let outcome = &outcomes[i];
        let failure = record_product(
            db,
            &config.products[i],
            outcome,
            iteration,
            timestamps[i],
        );
        proof {
            lemma_record_product_growth(
                before,
                products[i as int],
                outcomes@[i as int],
                iteration as int,
                ts[i as int] as int,
            );
            assert(m0.prices =~= db@.prices.subrange(0, m0.prices.len() as int));
        }
        match failure {
            None => {
                saved += 1;
            },
            Some(e) => {
                errors.push(e);
            },
        }
        i += 1;
    }
    proof {
        assert(outcomes@.take(n as int) =~= outcomes@);
    }
    PassSummary { saved, errors }
}

/// How long the loop rests after a pass: the remainder of the period, or
/// nothing when the pass already took the whole period — the next pass then
/// starts at once and the overrun is worth a warning.
pub fn sleep_duration(period_secs: u64, elapsed_secs: u64) -> (r: Option<u64>)
    ensures
        match r {
            Some(d) => elapsed_secs < period_secs && d == period_secs - elapsed_secs,
            None => elapsed_secs >= period_secs,
        },
{
    if elapsed_secs < period_secs {
        Some(period_secs - elapsed_secs)
    } else {
        None
    }
}

/// The crawl period in seconds, from the configured hours; fails only when
/// the product does not fit in a machine word.
pub fn period_seconds(period_hours: u64) -> (r: Option<u64>)
    ensures
        r is Some <==> period_hours * 3600 <= u64::MAX,
        r matches Some(s) ==> s == period_hours * 3600,
{
    period_hours.checked_mul(3600)
}

} // verus!
