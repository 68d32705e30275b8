//! The tree walker: a depth-first descent of the category tree, driven as a
//! state machine. The caller fetches each URL the walker asks for and hands
//! back what the page showed; the walker decides everything else — which
//! branch to take for a listing versus an inner department page, which
//! children to descend into, which URLs to skip as already visited, and what
//! lands in the product collector.

use crate::collector::{upsert_spec, Collector, VisitedSet};
use crate::errors::ErrorLog;
use crate::records::{lineage_view, Department, DeptView, ProductStub, StubView};
use crate::text::str_eq;
use vstd::prelude::*;

verus! {

/// A link to a child department found on an inner page: the `href` of the
/// link element and the resolved human-readable label, either of which may
/// be missing.
pub struct ChildLink {
    pub href: Option<String>,
    pub name: Option<String>,
}

/// The mathematical value of a `ChildLink`.
pub struct ChildLinkView {
    pub href: Option<Seq<char>>,
    pub name: Option<Seq<char>>,
}

impl View for ChildLink {
    type V = ChildLinkView;

    open spec fn view(&self) -> ChildLinkView {
        ChildLinkView {
            href: match self.href {
                Some(h) => Some(h@),
                None => None,
            },
            name: match self.name {
                Some(n) => Some(n@),
                None => None,
            },
        }
    }
}

/// What one fetched page showed, after classification: a product listing
/// with its anchor hrefs, or an inner department page with its child links.
/// `None` in either variant records a failed selector query.
pub enum PageData {
    Listing { anchors: Option<Vec<Option<String>>> },
    Inner { children: Option<Vec<ChildLink>> },
}

/// The values of a sequence of optional anchor hrefs.
pub open spec fn anchors_view(a: Seq<Option<String>>) -> Seq<Option<Seq<char>>> {
    Seq::new(
        a.len(),
        |i: int|
            match a[i] {
                Some(h) => Some(h@),
                None => None,
            },
    )
}

/// The values of a sequence of child links.
pub open spec fn children_view(c: Seq<ChildLink>) -> Seq<ChildLinkView> {
    Seq::new(c.len(), |i: int| c[i]@)
}

/// The stub recorded for a product anchor found under this lineage.
pub open spec fn stub_for(url: Seq<char>, lin: Seq<DeptView>) -> StubView {
    StubView { url: url, lineage: lin }
}

/// What one product anchor contributes to the collector: nothing when the
/// href is absent or the non-navigable placeholder `"#"`, otherwise an
/// upsert of a stub keyed by the href.
pub open spec fn listing_step(
    c: Seq<StubView>,
    anchor: Option<Seq<char>>,
    lin: Seq<DeptView>,
) -> Seq<StubView> {
    match anchor {
        Some(h) => if h == "#"@ {
            c
        } else {
            upsert_spec(c, stub_for(h, lin))
        },
        None => c,
    }
}

/// The collector contents after upserting every product anchor of a listing
/// page, in document order.
pub open spec fn collect_listing(
    c: Seq<StubView>,
    anchors: Seq<Option<Seq<char>>>,
    lin: Seq<DeptView>,
) -> Seq<StubView>
    decreases anchors.len(),
{
    if anchors.len() == 0 {
        c
    } else {
        listing_step(collect_listing(c, anchors.drop_last(), lin), anchors.last(), lin)
    }
}

/// A child is descended into only when its link has an href and its label
/// could be resolved.
pub open spec fn accept_child(c: ChildLinkView) -> bool {
    c.href is Some && c.name is Some
}

/// The department a child link denotes.
pub open spec fn child_dept(c: ChildLinkView) -> DeptView
    recommends
        accept_child(c),
{
    DeptView { name: c.name->Some_0, url: c.href->Some_0 }
}

/// The frames an inner page pushes: one extended lineage per accepted
/// child, in reverse document order, so the first child ends on top of the
/// stack and is walked first.
pub open spec fn child_frames_rev(lin: Seq<DeptView>, ch: Seq<ChildLinkView>) -> Seq<
    Seq<DeptView>,
>
    decreases ch.len(),
{
    if ch.len() == 0 {
        Seq::empty()
    } else {
        let rest = child_frames_rev(lin, ch.drop_first());
        if accept_child(ch[0]) {
            rest.push(lin.push(child_dept(ch[0])))
        } else {
            rest
        }
    }
}

/// An inner page with no resolvable children pushes no frames: that branch
/// of the walk terminates without error.
pub proof fn lemma_no_children_no_frames(lin: Seq<DeptView>, ch: Seq<ChildLinkView>)
    requires
        forall|i: int| 0 <= i < ch.len() ==> !accept_child(#[trigger] ch[i]),
    ensures
        child_frames_rev(lin, ch) == Seq::<Seq<DeptView>>::empty(),
    decreases ch.len(),
{
    if ch.len() > 0 {
        assert(forall|i: int|
            0 <= i < ch.drop_first().len() ==> !accept_child(#[trigger] ch.drop_first()[i]));
        lemma_no_children_no_frames(lin, ch.drop_first());
    }
}

/// Each URL is fetched at most once per walk: a URL handed out earlier went
/// into the visited set, the visited set only grows, and a URL is handed out
/// only while outside the visited set — so no two fetches share a URL.
pub proof fn lemma_each_url_fetched_once(
    v0: Set<Seq<char>>,
    v1: Set<Seq<char>>,
    v2: Set<Seq<char>>,
    u1: Seq<char>,
    u2: Seq<char>,
)
    requires
        !v0.contains(u1),
        v1 == v0.insert(u1),
        v1.subset_of(v2),
        !v2.contains(u2),
    ensures
        u1 != u2,
{
    assert(v2.contains(u1));
}

/// A walk terminates: when every URL the site can show lies in a finite
/// universe, each URL handed out leaves the visited set one element larger
/// inside that universe, so a walk makes at most as many fetches as the
/// universe has URLs.
pub proof fn lemma_fetches_bounded(
    v: Set<Seq<char>>,
    u: Seq<char>,
    univ: Set<Seq<char>>,
)
    requires
        univ.finite(),
        v.subset_of(univ),
        !v.contains(u),
        univ.contains(u),
    ensures
        v.insert(u).subset_of(univ),
        v.insert(u).len() == v.len() + 1,
        v.insert(u).len() <= univ.len(),
{
    vstd::set_lib::lemma_len_subset(v, univ);
    vstd::set_lib::lemma_len_subset(v.insert(u), univ);
}

/// The URL a pending frame stands for: the last department of its lineage.
pub open spec fn frame_url(l: Seq<DeptView>) -> Seq<char>
    recommends
        l.len() >= 1,
{
    l.last().url
}

/// The pending stack with every frame whose URL was already visited popped
/// off the top.
pub open spec fn skip_visited(p: Seq<Seq<DeptView>>, v: Set<Seq<char>>) -> Seq<Seq<DeptView>>
    decreases p.len(),
{
    if p.len() == 0 {
        p
    } else if v.contains(frame_url(p.last())) {
        skip_visited(p.drop_last(), v)
    } else {
        p
    }
}

/// The mathematical state of a walker.
pub struct WalkerView {
    pub visited: Set<Seq<char>>,
    pub pending: Seq<Seq<DeptView>>,
    pub current: Option<Seq<DeptView>>,
}

/// The walker over one root department's subtree. `next_url` hands out the
/// next URL to fetch, claiming it in the visited set; exactly one of
/// `on_page` and `on_fetch_error` answers it.
pub struct Walker {
    visited: VisitedSet,
    pending: Vec<Vec<Department>>,
    current: Option<Vec<Department>>,
}

impl View for Walker {
    type V = WalkerView;

    closed spec fn view(&self) -> WalkerView {
        WalkerView {
            visited: self.visited@,
            pending: Seq::new(self.pending@.len(), |i: int| lineage_view(self.pending@[i]@)),
            current: match self.current {
                Some(l) => Some(lineage_view(l@)),
                None => None,
            },
        }
    }
}

impl Walker {
    /// Every frame of the walk carries a non-empty lineage: the root was
    /// pushed before the walk began.
    pub open spec fn wf(&self) -> bool {
        &&& forall|i: int| 0 <= i < self@.pending.len() ==> (#[trigger] self@.pending[i]).len() >= 1
        &&& (self@.current is Some ==> self@.current->Some_0.len() >= 1)
    }

    /// Whether a URL was handed out and not yet answered.
    pub open spec fn in_flight(&self) -> bool {
        self@.current is Some
    }

    /// The lineage of the page being answered.
    pub open spec fn current_lineage(&self) -> Seq<DeptView>
        recommends
            self.in_flight(),
    {
        self@.current->Some_0
    }

    /// A walker for the subtree under `root`, nothing visited yet.
    pub fn new(root: Department) -> (w: Walker)
        ensures
            w@.visited == Set::<Seq<char>>::empty(),
            w@.pending == seq![seq![root@]],
            !w.in_flight(),
            w.wf(),
    {
        let ghost rv = root@;
        let mut lin: Vec<Department> = Vec::new();
        lin.push(root);
        let mut pending: Vec<Vec<Department>> = Vec::new();
        pending.push(lin);
        let w = Walker { visited: VisitedSet::new(), pending, current: None };
        proof {
            assert(lineage_view(w.pending@[0]@) =~= seq![rv]);
            assert(w@.pending =~= seq![seq![rv]]);
        }
        w
    }

    /// Hands out the next URL to fetch. Frames whose URL was already
    /// visited are dropped unfetched; the URL handed out was not visited
    /// before and is claimed as visited at once, so no URL is handed out
    /// twice in one walk, cycles included.
    pub fn next_url(&mut self) -> (r: Option<String>)
        requires
            old(self).wf(),
            !old(self).in_flight(),
        ensures
            final(self).wf(),
            ({
                let rem = skip_visited(old(self)@.pending, old(self)@.visited);
                match r {
                    None => {
                        &&& rem.len() == 0
                        &&& final(self)@.pending == rem
                        &&& !final(self).in_flight()
                        &&& final(self)@.visited == old(self)@.visited
                    },
                    Some(u) => {
                        &&& rem.len() > 0
                        &&& u@ == frame_url(rem.last())
                        &&& !old(self)@.visited.contains(u@)
                        &&& final(self)@.visited == old(self)@.visited.insert(u@)
                        &&& final(self)@.pending == rem.drop_last()
                        &&& final(self).in_flight()
                        &&& final(self)@.current == Some(rem.last())
                    },
                }
            }),
    {
        while self.pending.len() > 0
            invariant
                self.wf(),
                !self.in_flight(),
                self@.visited == old(self)@.visited,
                skip_visited(old(self)@.pending, old(self)@.visited) == skip_visited(
                    self@.pending,
                    self@.visited,
                ),
            decreases self@.pending.len(),
        {
            let n = self.pending.len();
            let frame_len = self.pending[n - 1].len();
            assert(self@.pending[n - 1 as int].len() >= 1);
            assert(frame_len >= 1);
            let is_seen = {
                let url_ref: &String = &self.pending[n - 1][frame_len - 1].url;
                self.visited.contains(url_ref.as_str())
            };
            let ghost pre = self@.pending;
            if is_seen {
                self.pending.pop();
                proof {
                    assert(self@.pending =~= pre.drop_last());
                }
            } else {
                let frame = match self.pending.pop() {
                    Some(f) => f,
                    None => unreached(),
                };
                proof {
                    assert(self@.pending =~= pre.drop_last());
                    assert(lineage_view(frame@) == pre.last());
                }
                let u = frame[frame.len() - 1].url.clone();
                assert(u@ == frame_url(pre.last()));
                proof {
                    assert(skip_visited(pre, self@.visited) == pre);
                }
                self.visited.insert(u.clone());
                self.current = Some(frame);
                proof {
                    assert(self@.pending =~= pre.drop_last());
                }
                return Some(u);
            }
        }
        proof {
            assert(self@.pending =~= Seq::<Seq<DeptView>>::empty());
        }
        None
    }

    /// Answers a handed-out URL whose fetch failed: the branch is abandoned
    /// and the failure is logged; siblings are unaffected.
    pub fn on_fetch_error(&mut self, address: &str, errors: &mut ErrorLog)
        requires
            old(self).wf(),
            old(self).in_flight(),
        ensures
            final(self).wf(),
            !final(self).in_flight(),
            final(self)@.pending == old(self)@.pending,
            final(self)@.visited == old(self)@.visited,
            final(errors)@ == old(errors)@.push("Failed to fetch HTML at "@ + address@ + "\n"@),
    {
        self.current = None;
        proof {
            assert(self@.pending =~= old(self)@.pending);
        }
        errors.record("Failed to fetch HTML at ", address);
    }

    /// Answers a handed-out URL with what its page showed.
    ///
    /// A listing page never extends the pending stack: the walk does not
    /// recurse past it. Its anchors are upserted into the collector in
    /// document order, under the lineage the page was reached by; anchors
    /// without an href and the placeholder `"#"` are skipped. An inner page
    /// touches neither the collector nor the visited set: it pushes one
    /// extended-lineage frame per resolvable child, first child on top. A
    /// failed selector query on either kind of page only logs a failure and
    /// abandons the branch.
    pub fn on_page(
        &mut self,
        page: PageData,
        collector: &mut Collector,
        errors: &mut ErrorLog,
        address: &str,
    )
        requires
            old(self).wf(),
            old(self).in_flight(),
            old(collector).wf(),
        ensures
            final(self).wf(),
            !final(self).in_flight(),
            final(collector).wf(),
            final(self)@.visited == old(self)@.visited,
            ({
                let lin = old(self).current_lineage();
                match page {
                    PageData::Listing { anchors } => {
                        &&& final(self)@.pending == old(self)@.pending
                        &&& match anchors {
                            Some(a) => {
                                &&& final(collector)@ == collect_listing(
                                    old(collector)@,
                                    anchors_view(a@),
                                    lin,
                                )
                                &&& final(errors)@ == old(errors)@
                            },
                            None => {
                                &&& final(collector)@ == old(collector)@
                                &&& final(errors)@ == old(errors)@.push(
                                    "Failed to fetch product metadata at "@ + address@ + "\n"@,
                                )
                            },
                        }
                    },
                    PageData::Inner { children } => {
                        &&& final(collector)@ == old(collector)@
                        &&& match children {
                            Some(ch) => {
                                &&& final(self)@.pending == old(self)@.pending + child_frames_rev(
                                    lin,
                                    children_view(ch@),
                                )
                                &&& final(errors)@ == old(errors)@
                            },
                            None => {
                                &&& final(self)@.pending == old(self)@.pending
                                &&& final(errors)@ == old(errors)@.push(
                                    "Failed to fetch department data at "@ + address@ + "\n"@,
                                )
                            },
                        }
                    },
                }
            }),
    {
        let ghost linv = old(self).current_lineage();
        let lin = match self.current.take() {
            Some(l) => l,
            None => unreached(),
        };
        proof {
            assert(lineage_view(lin@) == linv);
            assert(self@.pending =~= old(self)@.pending);
        }
        match page {
            PageData::Listing { anchors } => {
                match anchors {
                    Some(a) => {
                        let n = a.len();
                        let mut i: usize = 0;
                        proof {
                            assert(anchors_view(a@.subrange(0, 0)) =~= Seq::<
                                Option<Seq<char>>,
                            >::empty());
                        }
                        while i < n
                            invariant
                                n == a@.len(),
                                i <= n,
                                self.wf(),
                                !self.in_flight(),
                                self@.pending == old(self)@.pending,
                                self@.visited == old(self)@.visited,
                                errors@ == old(errors)@,
                                collector.wf(),
                                lineage_view(lin@) == linv,
                                collector@ == collect_listing(
                                    old(collector)@,
                                    anchors_view(a@.subrange(0, i as int)),
                                    linv,
                                ),
                            decreases n - i,
                        {
                            match &a[i] {
                                Some(href) => {
                                    if !str_eq(href.as_str(), "#") {
                                        let stub = ProductStub::new(href.clone(), &lin);
                                        collector.upsert(stub);
                                    }
                                },
                                None => {},
                            }
                            proof {
                                let pre = anchors_view(a@.subrange(0, i as int));
                                let post = anchors_view(a@.subrange(0, i + 1 as int));
                                assert(post.drop_last() =~= pre);
                                assert(post.last() == anchors_view(a@)[i as int]);
                            }
                            i = i + 1;
                        }
                        proof {
                            assert(a@.subrange(0, n as int) =~= a@);
                        }
                    },
                    None => {
                        errors.record("Failed to fetch product metadata at ", address);
                    },
                }
            },
            PageData::Inner { children } => {
                match children {
                    Some(ch) => {
                        let n = ch.len();
                        let mut i: usize = n;
                        proof {
                            assert(children_view(ch@.subrange(n as int, n as int)) =~= Seq::<
                                ChildLinkView,
                            >::empty());
                            assert(self@.pending =~= old(self)@.pending + child_frames_rev(
                                linv,
                                children_view(ch@.subrange(n as int, n as int)),
                            ));
                        }
                        while i > 0
                            invariant
                                n == ch@.len(),
                                i <= n,
                                self.wf(),
                                !self.in_flight(),
                                self@.visited == old(self)@.visited,
                                collector@ == old(collector)@,
                                collector.wf(),
                                errors@ == old(errors)@,
                                lineage_view(lin@) == linv,
                                self@.pending == old(self)@.pending + child_frames_rev(
                                    linv,
                                    children_view(ch@.subrange(i as int, n as int)),
                                ),
                            decreases i,
                        {
                            i = i - 1;
                            let ghost pre_pending = self@.pending;
                            match (&ch[i].href, &ch[i].name) {
                                (Some(h), Some(nm)) => {
                                    let mut frame = crate::records::duplicate_lineage(&lin);
                                    frame.push(
                                        Department { name: nm.clone(), url: h.clone() },
                                    );
                                    proof {
                                        assert(lineage_view(frame@) =~= linv.push(
                                            child_dept(ch@[i as int]@),
                                        ));
                                    }
                                    self.pending.push(frame);
                                    proof {
                                        assert(self@.pending =~= pre_pending.push(
                                            linv.push(child_dept(ch@[i as int]@)),
                                        ));
                                    }
                                },
                                _ => {},
                            }
                            proof {
                                let suf = children_view(ch@.subrange(i as int, n as int));
                                let suf1 = children_view(ch@.subrange(i + 1 as int, n as int));
                                assert(suf.drop_first() =~= suf1);
                                assert(suf[0] == ch@[i as int]@);
                            }
                        }
                        proof {
                            assert(ch@.subrange(0, n as int) =~= ch@);
                        }
                    },
                    None => {
                        errors.record("Failed to fetch department data at ", address);
                    },
                }
            },
        }
    }
}

} // verus!
