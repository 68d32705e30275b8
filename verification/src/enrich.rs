//! The product enricher: turns the raw selector results of a product page
//! into the finished record, with the stub's lineage attached.

use crate::dom::{select_last_attr, select_last_text};
use crate::records::{level_name, level_url, Product, ProductStub};
use crate::text::{normalize_name, normalize_name_spec, remove_char, remove_char_spec};
use vstd::prelude::*;

verus! {

/// The raw selector results for the scalar fields of one product page. A
/// missing field resolves to the empty string rather than failing the row.
pub struct RawFields {
    pub id: Option<String>,
    pub name: Option<String>,
    pub typ: Option<String>,
    pub price: Option<String>,
    pub unit: Option<String>,
    pub metric: Option<String>,
    pub image_url: Option<String>,
}

/// The value of an optional field, empty when absent.
pub open spec fn or_empty(o: Option<String>) -> Seq<char> {
    match o {
        Some(s) => s@,
        None => Seq::empty(),
    }
}

/// The field's string, or an empty one when absent.
fn unwrap_or_empty(o: Option<String>) -> (r: String)
    ensures
        r@ == or_empty(o),
{
    match o {
        Some(s) => s,
        None => String::new(),
    }
}

/// Builds the enriched record from raw field values: the identifier loses
/// its embedded `'.'` punctuation, the display name is normalized (newlines
/// to spaces, space runs collapsed), every missing field becomes the empty
/// string, the country is the configured market — never scraped — and the
/// three lineage name/URL pairs are copied unchanged from the stub.
pub fn build_product(raw: RawFields, url: &str, country: &str, stub: &ProductStub) -> (p: Product)
    ensures
        p@.id == remove_char_spec(or_empty(raw.id), '.'),
        p@.name == normalize_name_spec(or_empty(raw.name)),
        p@.typ == or_empty(raw.typ),
        p@.price == or_empty(raw.price),
        p@.unit == or_empty(raw.unit),
        p@.metric == or_empty(raw.metric),
        p@.image_url == or_empty(raw.image_url),
        p@.url == url@,
        p@.country == country@,
        p@.department == level_name(stub@.lineage, 0),
        p@.category == level_name(stub@.lineage, 1),
        p@.subcategory == level_name(stub@.lineage, 2),
        p@.department_url == level_url(stub@.lineage, 0),
        p@.category_url == level_url(stub@.lineage, 1),
        p@.subcategory_url == level_url(stub@.lineage, 2),
{
    let id_raw = unwrap_or_empty(raw.id);
    let name_raw = unwrap_or_empty(raw.name);
    Product {
        id: remove_char(id_raw.as_str(), '.'),
        name: normalize_name(name_raw.as_str()),
        typ: unwrap_or_empty(raw.typ),
        country: country.to_owned(),
        price: unwrap_or_empty(raw.price),
        unit: unwrap_or_empty(raw.unit),
        metric: unwrap_or_empty(raw.metric),
        image_url: unwrap_or_empty(raw.image_url),
        url: url.to_owned(),
        department: stub.name_at(0),
        category: stub.name_at(1),
        subcategory: stub.name_at(2),
        department_url: stub.url_at(0),
        category_url: stub.url_at(1),
        subcategory_url: stub.url_at(2),
    }
}

/// Extracts the enriched record from a fetched product page: nine scalar
/// fields read by fixed selectors under the last-match-wins policy, the
/// identifier stripped of punctuation, the name normalized, and the stub's
/// URL and lineage carried over.
pub fn extract_product(doc: &kuchiki::NodeRef, stub: &ProductStub, country: &str) -> (p: Product)
    ensures
        p@.url == stub@.url,
        p@.country == country@,
        p@.department == level_name(stub@.lineage, 0),
        p@.category == level_name(stub@.lineage, 1),
        p@.subcategory == level_name(stub@.lineage, 2),
        p@.department_url == level_url(stub@.lineage, 0),
        p@.category_url == level_url(stub@.lineage, 1),
        p@.subcategory_url == level_url(stub@.lineage, 2),
{
    let raw = RawFields {
        id: select_last_text(doc, "#itemNumber"),
        name: select_last_text(doc, "#name"),
        typ: select_last_text(doc, "#type"),
        price: select_last_text(doc, "#price1"),
        unit: select_last_text(doc, ".productunit"),
        metric: select_last_text(doc, "#metric"),
        image_url: select_last_attr(doc, "#productImg", "src"),
    };
    build_product(raw, stub.url.as_str(), country, stub)
}

/// Parses a fetched product page's body and extracts the enriched record.
pub fn extract_product_html(html: &str, stub: &ProductStub, country: &str) -> (p: Product)
    ensures
        p@.url == stub@.url,
        p@.country == country@,
        p@.department == level_name(stub@.lineage, 0),
        p@.category == level_name(stub@.lineage, 1),
        p@.subcategory == level_name(stub@.lineage, 2),
        p@.department_url == level_url(stub@.lineage, 0),
        p@.category_url == level_url(stub@.lineage, 1),
        p@.subcategory_url == level_url(stub@.lineage, 2),
{
    let doc = crate::dom::parse_document(html);
    extract_product(&doc, stub, country)
}

} // verus!
