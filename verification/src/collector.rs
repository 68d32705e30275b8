//! The product collector — the URL-keyed aggregate of discovered product
//! stubs — and the visited-URL set that keeps the tree walk from revisiting
//! a department.

use crate::records::{ProductStub, StubView};
use vstd::prelude::*;

verus! {

/// The index of the first stub with this URL, or -1 when none has it.
pub open spec fn index_of_url(s: Seq<StubView>, url: Seq<char>) -> int
    decreases s.len(),
{
    if s.len() == 0 {
        -1
    } else if s[0].url == url {
        0
    } else {
        let r = index_of_url(s.drop_first(), url);
        if r == -1 {
            -1
        } else {
            r + 1
        }
    }
}

/// Whether some stub in `s` has this URL.
pub open spec fn has_url(s: Seq<StubView>, url: Seq<char>) -> bool {
    index_of_url(s, url) >= 0
}

/// No two stubs share a URL.
pub open spec fn distinct_urls(s: Seq<StubView>) -> bool {
    forall|i: int, j: int| 0 <= i < j < s.len() ==> s[i].url != s[j].url
}

/// Insert-or-overwrite keyed by URL: a stub whose URL is already present
/// replaces the old entry in place; a new URL goes to the end.
pub open spec fn upsert_spec(s: Seq<StubView>, st: StubView) -> Seq<StubView> {
    let i = index_of_url(s, st.url);
    if i == -1 {
        s.push(st)
    } else {
        s.update(i, st)
    }
}

pub proof fn lemma_index_of_url(s: Seq<StubView>, url: Seq<char>)
    ensures
        -1 <= index_of_url(s, url) < s.len(),
        index_of_url(s, url) >= 0 ==> s[index_of_url(s, url)].url == url,
        forall|j: int|
            0 <= j < s.len() && (index_of_url(s, url) == -1 || j < index_of_url(s, url)) ==> s[j].url
                != url,
    decreases s.len(),
{
    if s.len() > 0 && s[0].url != url {
        lemma_index_of_url(s.drop_first(), url);
        assert(forall|j: int| 1 <= j < s.len() ==> s[j] == s.drop_first()[j - 1]);
    }
}

pub proof fn lemma_index_of_url_at(s: Seq<StubView>, url: Seq<char>, i: int)
    requires
        0 <= i < s.len(),
        s[i].url == url,
        forall|j: int| 0 <= j < i ==> s[j].url != url,
    ensures
        index_of_url(s, url) == i,
    decreases s.len(),
{
    if i > 0 {
        lemma_index_of_url_at(s.drop_first(), url, i - 1);
    }
}

proof fn lemma_index_of_url_push(s: Seq<StubView>, url: Seq<char>, st: StubView)
    requires
        index_of_url(s, url) == -1,
        st.url == url,
    ensures
        index_of_url(s.push(st), url) == s.len(),
    decreases s.len(),
{
    lemma_index_of_url(s, url);
    lemma_index_of_url_at(s.push(st), url, s.len() as int);
}

/// An upsert keeps URLs distinct.
pub proof fn lemma_upsert_distinct(s: Seq<StubView>, st: StubView)
    requires
        distinct_urls(s),
    ensures
        distinct_urls(upsert_spec(s, st)),
{
    lemma_index_of_url(s, st.url);
    let i = index_of_url(s, st.url);
    if i == -1 {
        assert forall|a: int, b: int|
            0 <= a < b < upsert_spec(s, st).len() implies upsert_spec(s, st)[a].url != upsert_spec(
            s,
            st,
        )[b].url by {
            if b == s.len() {
                assert(upsert_spec(s, st)[a] == s[a]);
            }
        }
    }
}

/// Upsert idempotence under one key: after inserting two stubs with the same
/// URL, the collection is exactly what inserting only the second one gives;
/// the later write wins.
pub proof fn lemma_upsert_last_wins(s: Seq<StubView>, a: StubView, b: StubView)
    requires
        a.url == b.url,
    ensures
        upsert_spec(upsert_spec(s, a), b) == upsert_spec(s, b),
{
    lemma_index_of_url(s, a.url);
    let i = index_of_url(s, a.url);
    if i == -1 {
        lemma_index_of_url_push(s, b.url, a);
        assert(upsert_spec(upsert_spec(s, a), b) =~= s.push(b));
    } else {
        let t = s.update(i, a);
        assert(forall|j: int| 0 <= j < i ==> t[j] == s[j]);
        lemma_index_of_url_at(t, b.url, i);
        assert(upsert_spec(upsert_spec(s, a), b) =~= s.update(i, b));
    }
}

/// After an upsert the inserted stub is present, and it is the only entry
/// under its URL.
pub proof fn lemma_upsert_present(s: Seq<StubView>, st: StubView)
    requires
        distinct_urls(s),
    ensures
        has_url(upsert_spec(s, st), st.url),
        upsert_spec(s, st)[index_of_url(upsert_spec(s, st), st.url)] == st,
        forall|j: int|
            0 <= j < upsert_spec(s, st).len() && j != index_of_url(upsert_spec(s, st), st.url)
                ==> upsert_spec(s, st)[j].url != st.url,
{
    lemma_index_of_url(s, st.url);
    let i = index_of_url(s, st.url);
    let r = upsert_spec(s, st);
    if i == -1 {
        lemma_index_of_url_push(s, st.url, st);
        assert(forall|j: int| 0 <= j < s.len() ==> r[j] == s[j]);
    } else {
        assert(forall|j: int| 0 <= j < i ==> r[j] == s[j]);
        lemma_index_of_url_at(r, st.url, i);
        assert(forall|j: int|
            0 <= j < s.len() && j != i ==> #[trigger] s[j].url != s[i].url);
        assert(forall|j: int| 0 <= j < r.len() && j != i ==> r[j] == s[j]);
    }
}

/// The URL-keyed aggregate of all product stubs discovered by the tree
/// walker. Insertion is idempotent: the last write under a URL wins.
pub struct Collector {
    stubs: Vec<ProductStub>,
}

impl View for Collector {
    type V = Seq<StubView>;

    closed spec fn view(&self) -> Seq<StubView> {
        Seq::new(self.stubs@.len(), |i: int| self.stubs@[i]@)
    }
}

impl Collector {
    /// Whether no two collected stubs share a URL.
    pub open spec fn wf(&self) -> bool {
        distinct_urls(self@)
    }

    /// An empty collector.
    pub fn new() -> (c: Collector)
        ensures
            c@ == Seq::<StubView>::empty(),
            c.wf(),
    {
        let c = Collector { stubs: Vec::new() };
        proof {
            assert(c@ =~= Seq::<StubView>::empty());
        }
        c
    }

    /// How many stubs are collected.
    pub fn len(&self) -> (n: usize)
        ensures
            n == self@.len(),
    {
        self.stubs.len()
    }

    /// The stub at position `i` of the collection order.
    pub fn get(&self, i: usize) -> (s: &ProductStub)
        requires
            i < self@.len(),
        ensures
            s@ == self@[i as int],
    {
        &self.stubs[i]
    }

    /// Inserts `stub` keyed by its URL: replaces the entry already holding
    /// that URL, or appends when the URL is new.
    pub fn upsert(&mut self, stub: ProductStub)
        requires
            old(self).wf(),
        ensures
            final(self)@ == upsert_spec(old(self)@, stub@),
            final(self).wf(),
    {
        let n = self.stubs.len();
        let mut i: usize = 0;
        while i < n
            invariant
                self@ == old(self)@,
                old(self).wf(),
                n == self@.len(),
                i <= n,
                forall|j: int| 0 <= j < i ==> self@[j].url != stub@.url,
            decreases n - i,
        {
            if self.stubs[i].url == stub.url {
                proof {
                    lemma_index_of_url_at(self@, stub@.url, i as int);
                    lemma_upsert_distinct(self@, stub@);
                }
                let ghost pre = self@;
                self.stubs.set(i, stub);
                proof {
                    assert(self@ =~= pre.update(i as int, stub@));
                }
                return ;
            }
            i = i + 1;
        }
        proof {
            lemma_index_of_url(self@, stub@.url);
            lemma_upsert_distinct(self@, stub@);
        }
        let ghost pre = self@;
        self.stubs.push(stub);
        proof {
            assert(self@ =~= pre.push(stub@));
        }
    }
}

/// The set of department URLs already claimed during one tree walk; it
/// prevents infinite recursion on cyclic navigation links and duplicate
/// work when two parents link the same child.
pub struct VisitedSet {
    urls: Vec<String>,
}

impl View for VisitedSet {
    type V = Set<Seq<char>>;

    closed spec fn view(&self) -> Set<Seq<char>> {
        Set::new(
            |u: Seq<char>| exists|i: int| 0 <= i < self.urls@.len() && self.urls@[i]@ == u,
        )
    }
}

impl VisitedSet {
    /// An empty visited set.
    pub fn new() -> (v: VisitedSet)
        ensures
            v@ == Set::<Seq<char>>::empty(),
    {
        let v = VisitedSet { urls: Vec::new() };
        proof {
            assert(v@ =~= Set::<Seq<char>>::empty());
        }
        v
    }

    /// Whether `url` was already claimed.
    pub fn contains(&self, url: &str) -> (r: bool)
        ensures
            r == self@.contains(url@),
    {
        let n = self.urls.len();
        let mut i: usize = 0;
        while i < n
            invariant
                n == self.urls@.len(),
                i <= n,
                forall|j: int| 0 <= j < i ==> self.urls@[j]@ != url@,
            decreases n - i,
        {
            if crate::text::str_eq(self.urls[i].as_str(), url) {
                return true;
            }
            i = i + 1;
        }
        false
    }

    /// Claims `url`.
    pub fn insert(&mut self, url: String)
        ensures
            final(self)@ == old(self)@.insert(url@),
    {
        let ghost pre = self@;
        let ghost ou = self.urls@;
        let ghost u = url@;
        self.urls.push(url);
        proof {
            assert forall|x: Seq<char>| self@.contains(x) implies pre.insert(u).contains(x) by {
                let i = choose|i: int| 0 <= i < self.urls@.len() && self.urls@[i]@ == x;
                if i < ou.len() {
                    assert(ou[i]@ == x);
                } else {
                    assert(x == u);
                }
            }
            assert forall|x: Seq<char>| pre.insert(u).contains(x) implies self@.contains(x) by {
                if pre.contains(x) {
                    let i = choose|i: int| 0 <= i < ou.len() && ou[i]@ == x;
                    assert(self.urls@[i]@ == x);
                } else {
                    assert(self.urls@[ou.len() as int]@ == x);
                }
            }
            assert(self@ =~= pre.insert(u));
        }
    }
}

} // verus!
