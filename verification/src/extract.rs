//! Extraction of a product name and price from a fetched page.
//!
//! The page is parsed with a tolerant HTML parser and the two configured
//! CSS selectors are run over the tree; both calls are trusted.  Everything
//! after them is verified: scanning the matches' text for the name, the
//! digit-string price rule, and the selector-index rule.

use vstd::prelude::*;

use tendril::TendrilSink;

use crate::price::Price;
use crate::price::PriceVal;
use crate::product::Product;
use crate::product::ProductError;
use crate::text::digit_chars;
use crate::text::digits_of;
use crate::text::digits_val;
use crate::text::is_digit;
use crate::text::parse_digits;
use crate::text::trim_text;
use crate::text::trimmed;

verus! {

/// Why the fetching machinery could not be brought up at all (as opposed to
/// one fetch failing, which is a [`ProductError`]).
#[derive(Clone, Debug, PartialEq, Eq)]
pub enum PriceLoaderError {
    /// The event loop or a connection pool could not be created.
    IoError { description: String },
    /// The TLS backend could not be initialised.
    TlsError { description: String },
}

impl PriceLoaderError {
    /// The underlying error's description.
    pub fn description(&self) -> (r: &str)
        ensures
            self matches PriceLoaderError::IoError { description } ==> r@ == description@,
            self matches PriceLoaderError::TlsError { description } ==> r@ == description@,
    {
        match self {
            PriceLoaderError::IoError { description } => description.as_str(),
            PriceLoaderError::TlsError { description } => description.as_str(),
        }
    }
}

/// A supported url scheme, deciding which connection pool a fetch uses.
#[derive(Clone, Copy, Debug, PartialEq, Eq, Structural)]
pub enum UriSchema {
    Http,
    Https,
}

/// Scheme of a url by its prefix: `https://` wins over `http://`; anything
/// else is unsupported.
pub open spec fn spec_uri_schema(s: Seq<char>) -> Option<UriSchema> {
    if s.len() >= 8 && s.subrange(0, 8) == "https://"@ {
        Some(UriSchema::Https)
    } else if s.len() >= 7 && s.subrange(0, 7) == "http://"@ {
        Some(UriSchema::Http)
    } else {
        None
    }
}

/// Decides the scheme of a url; anything but `http://` and `https://` is
/// rejected, as only those two have a connection pool.
pub fn uri_schema(url: &str) -> (r: Option<UriSchema>)
    ensures
        r == spec_uri_schema(url@),
{
    proof {
        reveal_strlit("https://");
        reveal_strlit("http://");
    }
    let n = url.unicode_len();
    if n >= 8 && url.get_char(0) == 'h' && url.get_char(1) == 't' && url.get_char(2) == 't'
        && url.get_char(3) == 'p' && url.get_char(4) == 's' && url.get_char(5) == ':'
        && url.get_char(6) == '/' && url.get_char(7) == '/' {
        proof {
            assert(url@.subrange(0, 8) =~= "https://"@);
        }
        Some(UriSchema::Https)
    } else if n >= 7 && url.get_char(0) == 'h' && url.get_char(1) == 't' && url.get_char(2) == 't'
        && url.get_char(3) == 'p' && url.get_char(4) == ':' && url.get_char(5) == '/'
        && url.get_char(6) == '/' {
        proof {
            assert(url@.subrange(0, 7) =~= "http://"@);
            if url@.len() >= 8 {
                assert(url@.subrange(0, 8)[4] == ':');
                assert(url@.subrange(0, 8) != "https://"@);
            }
        }
        Some(UriSchema::Http)
    } else {
        proof {
            if url@.len() >= 8 && url@.subrange(0, 8) == "https://"@ {
                assert(url@[0] == url@.subrange(0, 8)[0]);
                assert(url@[1] == url@.subrange(0, 8)[1]);
                assert(url@[2] == url@.subrange(0, 8)[2]);
                assert(url@[3] == url@.subrange(0, 8)[3]);
                assert(url@[4] == url@.subrange(0, 8)[4]);
                assert(url@[5] == url@.subrange(0, 8)[5]);
                assert(url@[6] == url@.subrange(0, 8)[6]);
                assert(url@[7] == url@.subrange(0, 8)[7]);
                assert(false);
            }
            if url@.len() >= 7 && url@.subrange(0, 7) == "http://"@ {
                assert(url@[0] == url@.subrange(0, 7)[0]);
                assert(url@[1] == url@.subrange(0, 7)[1]);
                assert(url@[2] == url@.subrange(0, 7)[2]);
                assert(url@[3] == url@.subrange(0, 7)[3]);
                assert(url@[4] == url@.subrange(0, 7)[4]);
                assert(url@[5] == url@.subrange(0, 7)[5]);
                assert(url@[6] == url@.subrange(0, 7)[6]);
                assert(false);
            }
        }
        None
    }
}

/// First text at or after index `i` whose trim is non-empty, trimmed.
pub open spec fn name_in_texts(texts: Seq<Seq<char>>, i: int) -> Option<Seq<char>>
    decreases texts.len() - i,
{
    if i < 0 || i >= texts.len() {
        None
    } else if trimmed(texts[i]).len() > 0 {
        Some(trimmed(texts[i]))
    } else {
        name_in_texts(texts, i + 1)
    }
}

/// First match at or after index `i` that yields a name; matches are
/// scanned in document order, and within one match its direct text children
/// in order.
pub open spec fn name_in_matches(matches: Seq<Seq<Seq<char>>>, i: int) -> Option<Seq<char>>
    decreases matches.len() - i,
{
    if i < 0 || i >= matches.len() {
        None
    } else {
        match name_in_texts(matches[i], 0) {
            Some(t) => Some(t),
            None => name_in_matches(matches, i + 1),
        }
    }
}

/// The name a selector's matches yield: the first non-empty trimmed text.
pub open spec fn extracted_name(matches: Seq<Seq<Seq<char>>>) -> Option<Seq<char>> {
    name_in_matches(matches, 0)
}

/// Scans the matches of the name selector — each given as the contents of
/// its direct text children, in document order — and returns the first text
/// that is non-empty after trimming, trimmed.
pub fn query_name(matches: &Vec<Vec<String>>) -> (r: Option<String>)
    ensures
        match r {
            Some(name) => extracted_name(matches.deep_view()) == Some(name@) && name@.len() > 0,
            None => extracted_name(matches.deep_view()) is None,
        },
{
    let ghost dv = matches.deep_view();
    let mut i: usize = 0;
    while i < matches.len()
        invariant
            0 <= i <= matches.len(),
            dv == matches.deep_view(),
            dv.len() == matches.len(),
            forall|k: int| 0 <= k < dv.len() ==> dv[k] == #[trigger] matches@[k].deep_view(),
            extracted_name(dv) == name_in_matches(dv, i as int),
        decreases matches.len() - i,
    {
        let texts = &matches[i];
        let ghost tv = dv[i as int];
        let mut j: usize = 0;
        while j < texts.len()
            invariant
                0 <= j <= texts.len(),
                tv == matches.deep_view()[i as int],
                i < matches.len() == matches.deep_view().len(),
                texts == &matches[i as int],
                tv.len() == texts.len(),
                forall|k: int| 0 <= k < tv.len() ==> tv[k] == #[trigger] texts@[k]@,
                name_in_texts(tv, 0) == name_in_texts(tv, j as int),
                extracted_name(matches.deep_view()) == name_in_matches(
                    matches.deep_view(),
                    i as int,
                ),
            decreases texts.len() - j,
        {
            let candidate = trim_text(texts[j].as_str());
            if !candidate.is_empty() {
                return Some(candidate.to_owned());
            }
            j += 1;
        }
        i += 1;
    }
    None
}

/// The digits of the texts up to index `n`, concatenated in order.
pub open spec fn concat_digits_upto(texts: Seq<Seq<char>>, n: int) -> Seq<char>
    decreases n,
{
    if n <= 0 {
        Seq::empty()
    } else {
        concat_digits_upto(texts, n - 1) + digits_of(texts[n - 1])
    }
}

/// The digit string of the match at the chosen zero-based index: the
/// decimal digits of all its direct text children, concatenated in document
/// order.  Nothing when the index has no match or no digit occurs.
pub open spec fn price_digits(matches: Seq<Seq<Seq<char>>>, index: int) -> Option<Seq<char>> {
    if 0 <= index < matches.len() {
        let joined = concat_digits_upto(matches[index], matches[index].len() as int);
        if joined.len() > 0 {
            Some(joined)
        } else {
            None
        }
    } else {
        None
    }
}

/// Everything in a concatenated digit string is a digit.
pub proof fn lemma_concat_digits_all_digits(texts: Seq<Seq<char>>, n: int)
    ensures
        forall|k: int|
            0 <= k < concat_digits_upto(texts, n).len() ==> is_digit(
                #[trigger] concat_digits_upto(texts, n)[k],
            ),
    decreases n,
{
    broadcast use vstd::seq_lib::group_filter_ensures;

    if n > 0 {
        lemma_concat_digits_all_digits(texts, n - 1);
        let left = concat_digits_upto(texts, n - 1);
        let right = digits_of(texts[n - 1]);
        assert forall|k: int| 0 <= k < (left + right).len() implies is_digit((left + right)[k]) by {
            if k < left.len() {
                assert((left + right)[k] == left[k]);
            } else {
                assert((left + right)[k] == right[k - left.len()]);
                assert(crate::text::digit_pred()(right[k - left.len()]));
            }
        }
    }
}

/// Scans the match at the chosen zero-based index — given as the contents
/// of its direct text children — and returns the concatenation of all
/// decimal digits found there, or nothing when the index has no match or no
/// digit occurs.
pub fn query_price(matches: &Vec<Vec<String>>, index: usize) -> (r: Option<Vec<char>>)
    ensures
        match r {
            Some(d) => price_digits(matches.deep_view(), index as int) == Some(d@) && d@.len() > 0,
            None => price_digits(matches.deep_view(), index as int) is None,
        },
{
    let ghost dv = matches.deep_view();
    if index >= matches.len() {
        return None;
    }
    let texts = &matches[index];
    let ghost tv = dv[index as int];
    let mut digits: Vec<char> = Vec::new();
    let mut j: usize = 0;
    while j < texts.len()
        invariant
            0 <= j <= texts.len(),
            tv == matches.deep_view()[index as int],
            index < matches.len() == matches.deep_view().len(),
            texts == &matches[index as int],
            tv.len() == texts.len(),
            forall|k: int| 0 <= k < tv.len() ==> tv[k] == #[trigger] texts@[k]@,
            digits@ =~= concat_digits_upto(tv, j as int),
        decreases texts.len() - j,
    {
        let mut found = digit_chars(texts[j].as_str());
        digits.append(&mut found);
        proof {
            assert(digits@ =~= concat_digits_upto(tv, j + 1 as int));
        }
        j += 1;
    }
    if digits.len() == 0 {
        None
    } else {
        Some(digits)
    }
}

/// Whether a CSS selector parses.  Selection fails on the selector alone,
/// never on the page, so this is a function of the selector.
pub uninterp spec fn selector_ok(selector: Seq<char>) -> bool;

/// What a selector yields on a page: for each match, in document order, the
/// contents of its direct text children.  The HTML parse and the selection
/// are deterministic in the bytes and the selector, so this is a function
/// of the two.
pub uninterp spec fn selected_texts(html: Seq<u8>, selector: Seq<char>) -> Seq<Seq<Seq<char>>>;

/// Relies on kuchiki::parse_html (driven through tendril::TendrilSink),
/// NodeRef::select, NodeRef::children and NodeRef::as_text: parses the
/// bytes tolerantly — malformed markup never fails — then compiles and runs
/// the CSS selector, failing exactly when the selector does not parse, and
/// hands back each match's direct text children in document order.
#[verifier::external_body]
fn select_page_texts(html: &[u8], selector: &str) -> (r: Result<Vec<Vec<String>>, ()>)
    ensures
        r is Ok <==> selector_ok(selector@),
        r matches Ok(v) ==> v.deep_view() == selected_texts(html@, selector@),
{
    let document = kuchiki::parse_html().from_utf8().one(html);
    let matches = match document.select(selector) {
        Ok(matches) => matches,
        Err(()) => return Err(()),
    };
    Ok(matches
        .map(|element| {
            element
                .as_node()
                .children()
                .filter_map(|child| child.as_text().map(|text| text.borrow().clone()))
                .collect()
        })
        .collect())
}

/// What the whole extraction yields on a page, over the named selector
/// results: the checks run in order — name selector, name, price selector,
/// digit string, arithmetic — and the first to fail decides the error.
/// When all pass, the name is the first non-empty trimmed text of the name
/// selector's matches and the price is the digit value of the chosen price
/// match scaled by the factor.
pub open spec fn extract_spec(
    html: Seq<u8>,
    name_selector: Seq<char>,
    price_selector: Seq<char>,
    factor: PriceVal,
    index: int,
) -> Result<(Seq<char>, PriceVal), ProductError> {
    if !selector_ok(name_selector) {
        Err(ProductError::NameElementNotExists)
    } else {
        match extracted_name(selected_texts(html, name_selector)) {
            None => Err(ProductError::NameNotFound),
            Some(name) => if !selector_ok(price_selector) {
                Err(ProductError::PriceElementNotExists)
            } else {
                match price_digits(selected_texts(html, price_selector), index) {
                    None => Err(ProductError::PriceNotFound),
                    Some(digits) => {
                        let amount = digits_val(digits);
                        if amount > u64::MAX || amount * factor.num > u64::MAX {
                            Err(ProductError::ParsePriceError)
                        } else {
                            Ok((name, PriceVal { num: amount * factor.num, den: factor.den }))
                        }
                    },
                }
            },
        }
    }
}

/// Extracts a product from a fetched page: exactly [`extract_spec`] over
/// the page bytes, the two selectors, the factor and the index.
pub fn extract_product(
    html: &[u8],
    name_selector: &str,
    price_selector: &str,
    price_factor: Price,
    price_index: usize,
) -> (r: Result<Product, ProductError>)
    requires
        price_factor.wf(),
    ensures
        ({
            let expected = extract_spec(
                html@,
                name_selector@,
                price_selector@,
                price_factor@,
                price_index as int,
            );
            match expected {
                Ok((name, price)) => r matches Ok(p) && p.name@ == name && p.price@ == price,
                Err(e) => r == Err::<Product, ProductError>(e),
            }
        }),
        r matches Ok(p) ==> p.name@.len() > 0 && p.price.wf() && p.price@.den
            == price_factor@.den,
{
    let name_texts = match select_page_texts(html, name_selector) {
        Ok(t) => t,
        Err(()) => {
            return Err(ProductError::NameElementNotExists);
        },
    };
    let name = match query_name(&name_texts) {
        Some(n) => n,
        None => {
            return Err(ProductError::NameNotFound);
        },
    };
    let price_texts = match select_page_texts(html, price_selector) {
        Ok(t) => t,
        Err(()) => {
            return Err(ProductError::PriceElementNotExists);
        },
    };
    let digits = match query_price(&price_texts, price_index) {
        Some(d) => d,
        None => {
            return Err(ProductError::PriceNotFound);
        },
    };
    proof {
        lemma_concat_digits_all_digits(
            price_texts.deep_view()[price_index as int],
            price_texts.deep_view()[price_index as int].len() as int,
        );
    }
    let amount = match parse_digits(&digits) {
        Some(v) => v,
        None => {
            return Err(ProductError::ParsePriceError);
        },
    };
    let price = match Price::of_amount(amount, &price_factor) {
        Some(p) => p,
        None => {
            return Err(ProductError::ParsePriceError);
        },
    };
    Ok(Product::new(name, price))
}

} // verus!
