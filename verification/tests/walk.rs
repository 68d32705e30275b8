use category_spider::collector::{Collector, VisitedSet};
use category_spider::errors::ErrorLog;
use category_spider::records::{Department, ProductStub};
use category_spider::walker::{ChildLink, PageData, Walker};

fn dept(name: &str, url: &str) -> Department {
    Department { name: name.to_string(), url: url.to_string() }
}

#[test]
fn upsert_same_url_last_write_wins() {
    let mut c = Collector::new();
    let lineage_a = vec![dept("Root", "/r"), dept("Cat A", "/r/a")];
    let lineage_b = vec![dept("Root", "/r"), dept("Cat B", "/r/b")];
    c.upsert(ProductStub::new("/p/1".to_string(), &lineage_a));
    c.upsert(ProductStub::new("/p/1".to_string(), &lineage_b));
    assert_eq!(c.len(), 1);
    let s = c.get(0);
    assert_eq!(s.url, "/p/1");
    assert_eq!(s.lineage.len(), 2);
    assert_eq!(s.lineage[1].name, "Cat B");
    assert_eq!(s.lineage[1].url, "/r/b");
}

#[test]
fn upsert_distinct_urls_keeps_both() {
    let mut c = Collector::new();
    let lineage = vec![dept("Root", "/r")];
    c.upsert(ProductStub::new("/p/1".to_string(), &lineage));
    c.upsert(ProductStub::new("/p/2".to_string(), &lineage));
    assert_eq!(c.len(), 2);
    assert_eq!(c.get(0).url, "/p/1");
    assert_eq!(c.get(1).url, "/p/2");
}

#[test]
fn visited_set_claims_urls() {
    let mut v = VisitedSet::new();
    assert!(!v.contains("/a"));
    v.insert("/a".to_string());
    assert!(v.contains("/a"));
    assert!(!v.contains("/b"));
}

#[test]
fn walker_cycle_terminates_each_url_once() {
    let mut w = Walker::new(dept("Root", "/a"));
    let mut c = Collector::new();
    let mut e = ErrorLog::new();

    let first = w.next_url();
    assert_eq!(first, Some("/a".to_string()));
    let page_a = PageData::Inner {
        children: Some(vec![ChildLink {
            href: Some("/b".to_string()),
            name: Some("B".to_string()),
        }]),
    };
    w.on_page(page_a, &mut c, &mut e, "http://www.ikea.com/a");

    let second = w.next_url();
    assert_eq!(second, Some("/b".to_string()));
    let page_b = PageData::Inner {
        children: Some(vec![ChildLink {
            href: Some("/a".to_string()),
            name: Some("A".to_string()),
        }]),
    };
    w.on_page(page_b, &mut c, &mut e, "http://www.ikea.com/b");

    // the cycle back to /a is skipped: each unique URL is visited once
    let third = w.next_url();
    assert_eq!(third, None);
    assert_eq!(e.len(), 0);
}

#[test]
fn walker_listing_collects_and_never_recurses() {
    let mut w = Walker::new(dept("Root", "/r"));
    let mut c = Collector::new();
    let mut e = ErrorLog::new();

    assert_eq!(w.next_url(), Some("/r".to_string()));
    let page = PageData::Listing {
        anchors: Some(vec![
            Some("/p/1".to_string()),
            Some("#".to_string()),
            None,
            Some("/p/2".to_string()),
        ]),
    };
    w.on_page(page, &mut c, &mut e, "http://www.ikea.com/r");

    // no child frames were pushed: the walk ends after the listing
    assert_eq!(w.next_url(), None);
    assert_eq!(c.len(), 2);
    assert_eq!(c.get(0).url, "/p/1");
    assert_eq!(c.get(1).url, "/p/2");
    assert_eq!(c.get(0).lineage.len(), 1);
    assert_eq!(c.get(0).lineage[0].name, "Root");
    assert_eq!(e.len(), 0);
}

#[test]
fn walker_inner_without_children_terminates_without_error() {
    let mut w = Walker::new(dept("Root", "/r"));
    let mut c = Collector::new();
    let mut e = ErrorLog::new();

    assert_eq!(w.next_url(), Some("/r".to_string()));
    let page = PageData::Inner { children: Some(vec![]) };
    w.on_page(page, &mut c, &mut e, "http://www.ikea.com/r");

    assert_eq!(w.next_url(), None);
    assert_eq!(c.len(), 0);
    assert_eq!(e.len(), 0);
}

#[test]
fn walker_skips_unresolvable_children() {
    let mut w = Walker::new(dept("Root", "/r"));
    let mut c = Collector::new();
    let mut e = ErrorLog::new();

    assert_eq!(w.next_url(), Some("/r".to_string()));
    let page = PageData::Inner {
        children: Some(vec![
            ChildLink { href: Some("/r/a".to_string()), name: None },
            ChildLink { href: None, name: Some("No Link".to_string()) },
            ChildLink { href: Some("/r/b".to_string()), name: Some("Cat B".to_string()) },
        ]),
    };
    w.on_page(page, &mut c, &mut e, "http://www.ikea.com/r");

    // only the fully resolvable child is descended into
    assert_eq!(w.next_url(), Some("/r/b".to_string()));
}

#[test]
fn walker_children_walked_in_document_order() {
    let mut w = Walker::new(dept("Root", "/r"));
    let mut c = Collector::new();
    let mut e = ErrorLog::new();

    assert_eq!(w.next_url(), Some("/r".to_string()));
    let page = PageData::Inner {
        children: Some(vec![
            ChildLink { href: Some("/r/a".to_string()), name: Some("Cat A".to_string()) },
            ChildLink { href: Some("/r/b".to_string()), name: Some("Cat B".to_string()) },
        ]),
    };
    w.on_page(page, &mut c, &mut e, "http://www.ikea.com/r");

    assert_eq!(w.next_url(), Some("/r/a".to_string()));
    let empty = PageData::Inner { children: Some(vec![]) };
    w.on_page(empty, &mut c, &mut e, "http://www.ikea.com/r/a");
    assert_eq!(w.next_url(), Some("/r/b".to_string()));
}

#[test]
fn walker_fetch_error_abandons_branch_and_logs() {
    let mut w = Walker::new(dept("Root", "/r"));
    let mut e = ErrorLog::new();

    assert_eq!(w.next_url(), Some("/r".to_string()));
    w.on_fetch_error("http://www.ikea.com/r", &mut e);

    assert_eq!(w.next_url(), None);
    assert_eq!(e.len(), 1);
    assert_eq!(e.get(0), "Failed to fetch HTML at http://www.ikea.com/r\n");
}

#[test]
fn walker_listing_query_failure_logs() {
    let mut w = Walker::new(dept("Root", "/r"));
    let mut c = Collector::new();
    let mut e = ErrorLog::new();

    assert_eq!(w.next_url(), Some("/r".to_string()));
    let page = PageData::Listing { anchors: None };
    w.on_page(page, &mut c, &mut e, "http://www.ikea.com/r");
    assert_eq!(c.len(), 0);
    assert_eq!(e.len(), 1);
    assert_eq!(e.get(0), "Failed to fetch product metadata at http://www.ikea.com/r\n");
}

#[test]
fn walker_inner_query_failure_logs() {
    let mut w = Walker::new(dept("Root", "/r"));
    let mut c = Collector::new();
    let mut e = ErrorLog::new();

    assert_eq!(w.next_url(), Some("/r".to_string()));
    let page = PageData::Inner { children: None };
    w.on_page(page, &mut c, &mut e, "http://www.ikea.com/r");
    assert_eq!(w.next_url(), None);
    assert_eq!(e.len(), 1);
    assert_eq!(e.get(0), "Failed to fetch department data at http://www.ikea.com/r\n");
}

#[test]
fn error_log_appends_in_order() {
    let mut e = ErrorLog::new();
    assert!(e.is_empty());
    e.record("Failed to fetch product data at ", "http://www.ikea.com/p/9");
    e.record("Failed to fetch HTML at ", "http://www.ikea.com/x");
    assert_eq!(e.len(), 2);
    assert_eq!(e.get(0), "Failed to fetch product data at http://www.ikea.com/p/9\n");
    assert_eq!(e.get(1), "Failed to fetch HTML at http://www.ikea.com/x\n");
}
