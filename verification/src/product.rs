//! What one page fetch yields: an extracted product, or the error that made
//! this product unusable for the pass.

use vstd::prelude::*;

use crate::price::Price;

verus! {

/// A product as extracted from one shop page: the display name and the
/// price, already scaled by the shop's price factor.
#[derive(Clone, Debug, PartialEq, Eq)]
pub struct Product {
    pub name: String,
    pub price: Price,
}

impl Product {
    /// Builds an extracted product.
    pub fn new(name: String, price: Price) -> (r: Product)
        ensures
            r.name@ == name@,
            r.price == price,
    {
        Product { name, price }
    }
}

/// Why one product failed within a pass.  Such a failure is logged and the
/// pass moves on; it never aborts the pass or the process.
#[derive(Clone, Debug, PartialEq, Eq)]
pub enum ProductError {
    /// The url does not start with a supported scheme.
    InvalidSchema,
    /// The url does not parse as an absolute uri.
    InvalidUri,
    /// The fetch ran past its hard deadline.
    Timeout,
    /// The fetch itself failed.
    IoError { description: String },
    /// The name selector does not parse as a CSS selector.
    NameElementNotExists,
    /// The price selector does not parse as a CSS selector.
    PriceElementNotExists,
    /// No selector match carries a non-empty name text.
    NameNotFound,
    /// The chosen selector match carries no digit, or the index is out of
    /// range.
    PriceNotFound,
    /// The digit string does not fit the price arithmetic.
    ParsePriceError,
}

impl ProductError {
    /// The url carries an unsupported scheme.
    pub fn invalid_schema() -> (r: ProductError)
        ensures
            r is InvalidSchema,
    {
        ProductError::InvalidSchema
    }

    /// The name selector was rejected by the selector parser.
    pub fn name_not_exists(_reason: ()) -> (r: ProductError)
        ensures
            r is NameElementNotExists,
    {
        ProductError::NameElementNotExists
    }

    /// The price selector was rejected by the selector parser.
    pub fn price_not_exists(_reason: ()) -> (r: ProductError)
        ensures
            r is PriceElementNotExists,
    {
        ProductError::PriceElementNotExists
    }

    /// No name text was found on the page.
    pub fn name_not_found() -> (r: ProductError)
        ensures
            r is NameNotFound,
    {
        ProductError::NameNotFound
    }

    /// No price text was found on the page.
    pub fn price_not_found() -> (r: ProductError)
        ensures
            r is PriceNotFound,
    {
        ProductError::PriceNotFound
    }

    /// An owned copy of the error, equal to the original.  Written out by
    /// hand because contracts rely on the copy being equal, which a derived
    /// clone does not state.
    pub fn duplicate(&self) -> (r: ProductError)
        ensures
            r == *self,
    {
        match self {
            ProductError::InvalidSchema => ProductError::InvalidSchema,
            ProductError::InvalidUri => ProductError::InvalidUri,
            ProductError::Timeout => ProductError::Timeout,
            ProductError::IoError { description } => ProductError::IoError {
                description: description.clone(),
            },
            ProductError::NameElementNotExists => ProductError::NameElementNotExists,
            ProductError::PriceElementNotExists => ProductError::PriceElementNotExists,
            ProductError::NameNotFound => ProductError::NameNotFound,
            ProductError::PriceNotFound => ProductError::PriceNotFound,
            ProductError::ParsePriceError => ProductError::ParsePriceError,
        }
    }

    /// Short description of the error kind.
    pub fn message(&self) -> (r: &'static str)
        ensures
            self is InvalidSchema ==> r@ == "Invalid schema"@,
            self is InvalidUri ==> r@ == "Invalid URI"@,
            self is Timeout ==> r@ == "Fetch timed out"@,
            self is IoError ==> r@ == "IO error"@,
            self is NameElementNotExists ==> r@ == "DOM node for name does not exists"@,
            self is PriceElementNotExists ==> r@ == "DOM node for price does not exists"@,
            self is NameNotFound ==> r@ == "Name not found on a page"@,
            self is PriceNotFound ==> r@ == "Price not found on a page"@,
            self is ParsePriceError ==> r@ == "Price has non numeric format"@,
    {
        match self {
            ProductError::InvalidSchema => "Invalid schema",
            ProductError::InvalidUri => "Invalid URI",
            ProductError::Timeout => "Fetch timed out",
            ProductError::IoError { .. } => "IO error",
            ProductError::NameElementNotExists => "DOM node for name does not exists",
            ProductError::PriceElementNotExists => "DOM node for price does not exists",
            ProductError::NameNotFound => "Name not found on a page",
            ProductError::PriceNotFound => "Price not found on a page",
            ProductError::ParsePriceError => "Price has non numeric format",
        }
    }
}

} // verus!
