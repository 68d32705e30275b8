//! The data model of the crawl: departments, lineages, product stubs and
//! finished products.

use vstd::prelude::*;

verus! {

/// One node of the category hierarchy: a root department, a category or a
/// subcategory.
pub struct Department {
    pub name: String,
    pub url: String,
}

/// The mathematical value of a `Department`.
pub struct DeptView {
    pub name: Seq<char>,
    pub url: Seq<char>,
}

impl View for Department {
    type V = DeptView;

    open spec fn view(&self) -> DeptView {
        DeptView { name: self.name@, url: self.url@ }
    }
}

impl Department {
    /// An owned copy with the same name and URL, so sibling branches never
    /// share mutable state.
    pub fn duplicate(&self) -> (d: Department)
        ensures
            d@ == self@,
    {
        Department { name: self.name.clone(), url: self.url.clone() }
    }
}

/// The mathematical value of a lineage: the root-to-current path of
/// department values.
pub open spec fn lineage_view(l: Seq<Department>) -> Seq<DeptView> {
    Seq::new(l.len(), |i: int| l[i]@)
}

/// An owned copy of a lineage, element for element.
pub fn duplicate_lineage(l: &Vec<Department>) -> (r: Vec<Department>)
    ensures
        lineage_view(r@) == lineage_view(l@),
{
    let mut r: Vec<Department> = Vec::new();
    let mut i: usize = 0;
    while i < l.len()
        invariant
            i <= l@.len(),
            r@.len() == i,
            forall|j: int| 0 <= j < i ==> r@[j]@ == l@[j]@,
        decreases l@.len() - i,
    {
        r.push(l[i].duplicate());
        i = i + 1;
    }
    proof {
        assert(lineage_view(r@) =~= lineage_view(l@));
    }
    r
}

/// A discovered but not yet fetched product reference, keyed by its URL and
/// carrying the lineage under which it was found.
pub struct ProductStub {
    pub url: String,
    pub lineage: Vec<Department>,
}

/// The mathematical value of a `ProductStub`.
pub struct StubView {
    pub url: Seq<char>,
    pub lineage: Seq<DeptView>,
}

impl View for ProductStub {
    type V = StubView;

    open spec fn view(&self) -> StubView {
        StubView { url: self.url@, lineage: lineage_view(self.lineage@) }
    }
}

/// The name recorded at hierarchy level `i` of a lineage: empty past the
/// levels the lineage reaches.
pub open spec fn level_name(l: Seq<DeptView>, i: int) -> Seq<char> {
    if 0 <= i < l.len() {
        l[i].name
    } else {
        Seq::empty()
    }
}

/// The URL recorded at hierarchy level `i` of a lineage: empty past the
/// levels the lineage reaches.
pub open spec fn level_url(l: Seq<DeptView>, i: int) -> Seq<char> {
    if 0 <= i < l.len() {
        l[i].url
    } else {
        Seq::empty()
    }
}

impl ProductStub {
    /// A stub for the product at `url`, carrying an owned copy of `lineage`.
    pub fn new(url: String, lineage: &Vec<Department>) -> (s: ProductStub)
        ensures
            s@.url == url@,
            s@.lineage == lineage_view(lineage@),
    {
        ProductStub { url, lineage: duplicate_lineage(lineage) }
    }

    /// The department name at level `i` of this stub's lineage.
    pub fn name_at(&self, i: usize) -> (r: String)
        ensures
            r@ == level_name(self@.lineage, i as int),
    {
        if i < self.lineage.len() {
            self.lineage[i].name.clone()
        } else {
            String::new()
        }
    }

    /// The department URL at level `i` of this stub's lineage.
    pub fn url_at(&self, i: usize) -> (r: String)
        ensures
            r@ == level_url(self@.lineage, i as int),
    {
        if i < self.lineage.len() {
            self.lineage[i].url.clone()
        } else {
            String::new()
        }
    }
}

/// The enriched terminal record, one output row per product.
pub struct Product {
    pub id: String,
    pub name: String,
    pub typ: String,
    pub country: String,
    pub price: String,
    pub unit: String,
    pub metric: String,
    pub image_url: String,
    pub url: String,
    pub department: String,
    pub category: String,
    pub subcategory: String,
    pub department_url: String,
    pub category_url: String,
    pub subcategory_url: String,
}

/// The mathematical value of a `Product`.
pub struct ProductView {
    pub id: Seq<char>,
    pub name: Seq<char>,
    pub typ: Seq<char>,
    pub country: Seq<char>,
    pub price: Seq<char>,
    pub unit: Seq<char>,
    pub metric: Seq<char>,
    pub image_url: Seq<char>,
    pub url: Seq<char>,
    pub department: Seq<char>,
    pub category: Seq<char>,
    pub subcategory: Seq<char>,
    pub department_url: Seq<char>,
    pub category_url: Seq<char>,
    pub subcategory_url: Seq<char>,
}

impl View for Product {
    type V = ProductView;

    open spec fn view(&self) -> ProductView {
        ProductView {
            id: self.id@,
            name: self.name@,
            typ: self.typ@,
            country: self.country@,
            price: self.price@,
            unit: self.unit@,
            metric: self.metric@,
            image_url: self.image_url@,
            url: self.url@,
            department: self.department@,
            category: self.category@,
            subcategory: self.subcategory@,
            department_url: self.department_url@,
            category_url: self.category_url@,
            subcategory_url: self.subcategory_url@,
        }
    }
}

/// The fourteen sink columns of a product, in the order of the persisted
/// file format: item number, name, type, price, unit, metric, image URL,
/// URL, then the three lineage name/URL pairs.
pub open spec fn sink_fields(p: ProductView) -> Seq<Seq<char>> {
    seq![
        p.id,
        p.name,
        p.typ,
        p.price,
        p.unit,
        p.metric,
        p.image_url,
        p.url,
        p.department,
        p.category,
        p.subcategory,
        p.department_url,
        p.category_url,
        p.subcategory_url,
    ]
}

} // verus!
