use category_spider::collector::Collector;
use category_spider::dom::{is_product_listing, read_departments, read_page};
use category_spider::enrich::extract_product;
use category_spider::errors::ErrorLog;
use category_spider::records::Department;
use category_spider::sink::{csv_row, parse_row};
use category_spider::walker::Walker;
use kuchiki::traits::TendrilSink;

fn parse(html: &str) -> kuchiki::NodeRef {
    kuchiki::parse_html().one(html.to_string())
}

fn dept(name: &str, url: &str) -> Department {
    Department { name: name.to_string(), url: url.to_string() }
}

#[test]
fn classifier_true_on_product_list() {
    let doc = parse("<div id=\"productLists\"><div class=\"productDetails\"><a href=\"/p/1\">P</a></div></div>");
    assert!(is_product_listing(&doc));
}

#[test]
fn classifier_true_on_legacy_marker() {
    let doc = parse("<div><a class=\"seoProduct\" href=\"/p/1\">P</a></div>");
    assert!(is_product_listing(&doc));
}

#[test]
fn classifier_false_on_department_page() {
    let doc = parse("<div class=\"visualNavContainer\"><a href=\"/r/a\">x</a></div>");
    assert!(!is_product_listing(&doc));
}

#[test]
fn identifier_last_match_wins() {
    let html = "<div id=\"itemNumber\">100.111</div>\
                <div id=\"itemNumber\">100.222</div>\
                <div id=\"name\">BILLY</div>";
    let doc = parse(html);
    let lineage = vec![dept("Root", "/r")];
    let stub = category_spider::records::ProductStub::new("/p/1".to_string(), &lineage);
    let p = extract_product(&doc, &stub, "Singapore");
    assert_eq!(p.id, "100222");
}

#[test]
fn missing_fields_resolve_to_empty() {
    let doc = parse("<div id=\"name\">BILLY</div>");
    let lineage = vec![dept("Root", "/r")];
    let stub = category_spider::records::ProductStub::new("/p/1".to_string(), &lineage);
    let p = extract_product(&doc, &stub, "Singapore");
    assert_eq!(p.name, "BILLY");
    assert_eq!(p.id, "");
    assert_eq!(p.typ, "");
    assert_eq!(p.price, "");
    assert_eq!(p.unit, "");
    assert_eq!(p.metric, "");
    assert_eq!(p.image_url, "");
    assert_eq!(p.country, "Singapore");
    assert_eq!(p.url, "/p/1");
    assert_eq!(p.department, "Root");
    assert_eq!(p.category, "");
    assert_eq!(p.subcategory, "");
}

#[test]
fn image_url_from_attribute() {
    let html = "<img id=\"productImg\" src=\"/img/a.jpg\"/><img id=\"productImg\" src=\"/img/b.jpg\"/>";
    let doc = parse(html);
    let lineage = vec![dept("Root", "/r")];
    let stub = category_spider::records::ProductStub::new("/p/1".to_string(), &lineage);
    let p = extract_product(&doc, &stub, "Singapore");
    assert_eq!(p.image_url, "/img/b.jpg");
}

#[test]
fn departments_read_from_entry_page() {
    let html = "<div class=\"departmentLinkBlock\">\
                  <a href=\"/cat/beds\"> Beds </a>\
                  <a href=\"#\">Skip me</a>\
                  <a href=\"/cat/sofas\">Sofas</a>\
                  <a href=\"/cat/empty\"><img src=\"x.png\"/></a>\
                </div>";
    let doc = parse(html);
    let departments = read_departments(&doc).expect("query succeeds");
    assert_eq!(departments.len(), 2);
    assert_eq!(departments[0].name, "Beds");
    assert_eq!(departments[0].url, "/cat/beds");
    assert_eq!(departments[1].name, "Sofas");
    assert_eq!(departments[1].url, "/cat/sofas");
}

#[test]
fn end_to_end_two_level_tree() {
    // root department page: one child category, label in a cousin node
    let root_html = "<div class=\"visualNavContainer\">\
                       <a href=\"/r/a\"><img src=\"nav.png\"/></a>\
                       <div class=\"categoryContainer\"><a href=\"/r/a\">Cat A</a></div>\
                     </div>";
    // category page: a listing with two anchors, one non-navigable
    let cat_html = "<div id=\"productLists\"><div class=\"productDetails\">\
                      <a href=\"#\">placeholder</a>\
                      <a href=\"/p/2\">Billy</a>\
                    </div></div>";
    // product page without an image tag
    let product_html = "<div id=\"itemNumber\">802.594.19</div>\
                        <div id=\"name\">BILLY   Bookcase</div>\
                        <div id=\"type\">Bookcase</div>\
                        <div id=\"price1\">$59</div>\
                        <div class=\"productunit\">each</div>\
                        <div id=\"metric\">80x28x202 cm</div>";

    let mut walker = Walker::new(dept("Root", "/r"));
    let mut collector = Collector::new();
    let mut errors = ErrorLog::new();

    let mut fetched: Vec<String> = Vec::new();
    while let Some(url) = walker.next_url() {
        fetched.push(url.clone());
        let html = if url == "/r" {
            root_html
        } else if url == "/r/a" {
            cat_html
        } else {
            panic!("unexpected fetch");
        };
        let page = read_page(&parse(html));
        let address = format!("http://www.ikea.com{}", url);
        walker.on_page(page, &mut collector, &mut errors, address.as_str());
    }
    assert_eq!(fetched, vec!["/r".to_string(), "/r/a".to_string()]);
    assert_eq!(errors.len(), 0);

    // exactly one stub: the placeholder anchor was skipped
    assert_eq!(collector.len(), 1);
    let stub = collector.get(0);
    assert_eq!(stub.url, "/p/2");
    assert_eq!(stub.lineage.len(), 2);
    assert_eq!(stub.lineage[0].name, "Root");
    assert_eq!(stub.lineage[1].name, "Cat A");

    // enrichment: every field populated but the missing image
    let product = extract_product(&parse(product_html), stub, "Singapore");
    assert_eq!(product.id, "80259419");
    assert_eq!(product.name, "BILLY Bookcase");
    assert_eq!(product.typ, "Bookcase");
    assert_eq!(product.price, "$59");
    assert_eq!(product.unit, "each");
    assert_eq!(product.metric, "80x28x202 cm");
    assert_eq!(product.image_url, "");
    assert_eq!(product.country, "Singapore");

    // the one data row the file sink writes
    let row = csv_row(&product);
    let fields = parse_row(row.as_str()).expect("row parses");
    assert_eq!(fields[6], "");
    assert_eq!(fields[8], "Root");
    assert_eq!(fields[9], "Cat A");
    assert_eq!(fields[10], "");
    assert_eq!(fields[11], "/r");
    assert_eq!(fields[12], "/r/a");
    assert_eq!(fields[13], "");
}
