//! A container that owns a set of widgets and keeps their tree links
//! consistent: a widget names `p` as its parent exactly when `p` lists it
//! among its children.
//!
//! A widget is referred to by its handle, its position in the container.
//! Links are made only through the container, which holds the one mutable
//! view of both ends that a link needs; a widget's own `set_parent` changes
//! that widget alone, and is not how a child is attached.
use vstd::prelude::*;
use vstd::set_lib::{lemma_int_range, lemma_len_subset, set_int_range};
use crate::control::{Control, ControlView};

verus! {

/// Why `ControlTree::attach` refused to link two widgets.
#[derive(Debug, Clone, Copy, PartialEq, Eq, Structural)]
pub enum AttachError {
    /// One of the handles names no widget of the container.
    NoSuchWidget,
    /// A widget cannot be its own parent.
    SameWidget,
    /// The child already has a parent; it keeps it.
    HasParent,
    /// The child is an ancestor of the parent: the link would close a loop.
    Cycle,
}

/// The tree aspect of the widget with handle `i`.
pub open spec fn node<W: Control>(ws: Seq<W>, i: int) -> ControlView {
    ws[i].control_view()
}

/// Every handle stored in a link names a widget of `ws`.
pub open spec fn handles_in_range<W: Control>(ws: Seq<W>) -> bool {
    &&& forall|i: int|
        0 <= i < ws.len() && (#[trigger] node(ws, i)).parent is Some ==> node(ws, i).parent->0
            < ws.len()
    &&& forall|i: int, k: int|
        0 <= i < ws.len() && 0 <= k < node(ws, i).children.len() ==> #[trigger] node(
            ws,
            i,
        ).children[k] < ws.len()
}

/// Parent links and child lists describe the same edges, and no child is
/// listed twice.
pub open spec fn links_agree<W: Control>(ws: Seq<W>) -> bool {
    &&& forall|c: int, p: int|
        0 <= c < ws.len() && 0 <= p < ws.len() ==> ((#[trigger] node(ws, c)).parent == Some(
            p as usize,
        ) <==> (#[trigger] node(ws, p)).children.contains(c as usize))
    &&& forall|i: int| 0 <= i < ws.len() ==> (#[trigger] node(ws, i)).children.no_duplicates()
}

/// The widgets of a tree, each with consistent links.
pub open spec fn well_linked<W: Control>(ws: Seq<W>) -> bool {
    handles_in_range(ws) && links_agree(ws)
}

/// The widget reached from `d` by following `k` parent links, or `None`
/// where a widget without parent comes first.
pub open spec fn up<W: Control>(ws: Seq<W>, d: int, k: nat) -> Option<int>
    decreases k,
{
    if k == 0 {
        Some(d)
    } else {
        match up(ws, d, (k - 1) as nat) {
            Some(x) => match node(ws, x).parent {
                Some(p) => Some(p as int),
                None => None,
            },
            None => None,
        }
    }
}

/// `a` is `d` or is reached from `d` by following parent links.
pub open spec fn is_ancestor<W: Control>(ws: Seq<W>, a: int, d: int) -> bool {
    exists|k: nat| up(ws, d, k) == Some(a)
}

/// Ranks that grow strictly from each child to its parent, which rules out
/// any loop of parent links.
pub open spec fn ranked<W: Control>(ws: Seq<W>, rank: Seq<int>) -> bool {
    &&& rank.len() == ws.len()
    &&& forall|c: int|
        0 <= c < ws.len() && (#[trigger] node(ws, c)).parent is Some ==> rank[c]
            < rank[node(ws, c).parent->0 as int]
}

/// Once the walk up has passed a widget without parent, walking further
/// finds nothing.
pub proof fn lemma_up_past_root<W: Control>(ws: Seq<W>, d: int, k: nat, j: nat)
    requires
        up(ws, d, k) is None,
        k <= j,
    ensures
        up(ws, d, j) is None,
    decreases j - k,
{
    if j > k {
        lemma_up_past_root(ws, d, k, (j - 1) as nat);
    }
}

proof fn lemma_up_rank<W: Control>(ws: Seq<W>, rank: Seq<int>, d: int, k: nat)
    requires
        well_linked(ws),
        ranked(ws, rank),
        0 <= d < ws.len(),
    ensures
        up(ws, d, k) matches Some(x) ==> 0 <= x < ws.len() && rank[x] >= rank[d] + k,
    decreases k,
{
    if k > 0 {
        lemma_up_rank(ws, rank, d, (k - 1) as nat);
    }
}

/// Owns widgets and the links between them.
pub struct ControlTree<W> {
    widgets: Vec<W>,
    rank: Ghost<Seq<int>>,
}

impl<W: Control> ControlTree<W> {
    /// The widgets, by handle.
    pub closed spec fn view(&self) -> Seq<W> {
        self.widgets@
    }

    /// The links agree and no chain of parent links loops.
    pub closed spec fn wf(&self) -> bool {
        well_linked(self.widgets@) && ranked(self.widgets@, self.rank@)
    }

    /// Following parent links from a widget never leads back to it.
    pub proof fn lemma_acyclic(&self, d: int, k: nat)
        requires
            self.wf(),
            0 <= d < self.view().len(),
            k > 0,
        ensures
            up(self.view(), d, k) != Some(d),
    {
        lemma_up_rank(self.widgets@, self.rank@, d, k);
    }

    /// The spec-level view of the container is well linked whenever it is well formed.
    pub proof fn lemma_wf(&self)
        requires
            self.wf(),
        ensures
            well_linked(self.view()),
    {
    }

    /// A container with no widgets.
    pub fn new() -> (r: ControlTree<W>)
        ensures
            r.wf(),
            r.view() == Seq::<W>::empty(),
    {
        ControlTree { widgets: Vec::new(), rank: Ghost(Seq::empty()) }
    }

    pub fn len(&self) -> (r: usize)
        ensures
            r == self.view().len(),
    {
        self.widgets.len()
    }

    /// The widget with handle `h`.
    pub fn get(&self, h: usize) -> (r: &W)
        requires
            h < self.view().len(),
        ensures
            *r == self.view()[h as int],
    {
        &self.widgets[h]
    }

    /// Puts a widget that has no parent and no children into the container
    /// and returns its handle; a widget with links is handed back unchanged.
    pub fn add(&mut self, w: W) -> (r: Result<usize, W>)
        requires
            old(self).wf(),
        ensures
            final(self).wf(),
            (w.control_view().parent is None && w.control_view().children.len() == 0) <==> r is Ok,
            r is Ok ==> r->Ok_0 == old(self).view().len() && final(self).view() == old(
                self,
            ).view().push(w),
            r is Err ==> r->Err_0 == w && final(self).view() == old(self).view(),
    {
        if w.parent().is_some() || w.children().len() != 0 {
            return Err(w);
        }
        let h = self.widgets.len();
        self.widgets.push(w);
        self.rank = Ghost(self.rank@.push(0));
        proof {
            let ws = self.widgets@;
            let ows = old(self).widgets@;
            assert forall|i: int| 0 <= i < ows.len() implies node(ws, i) == node(ows, i) by {
                assert(ws[i] == ows[i]);
            }
            assert(node(ws, h as int).children =~= Seq::<usize>::empty());
            assert forall|c: int, p: int| 0 <= c < ws.len() && 0 <= p < ws.len() implies ((
            #[trigger] node(ws, c)).parent == Some(p as usize) <==> (#[trigger] node(
                ws,
                p,
            )).children.contains(c as usize)) by {
                if c == h as int {
                    if p < h {
                        if node(ws, p).children.contains(c as usize) {
                            let k = choose|k: int|
                                0 <= k < node(ows, p).children.len() && node(ows, p).children[k]
                                    == c as usize;
                            assert(node(ows, p).children[k] < ows.len());
                        }
                    }
                } else if p == h as int {
                    assert(node(ws, p).children.len() == 0);
                }
            }
        }
        Ok(h)
    }

    /// Makes `parent` the parent of `child` and appends `child` to the end of
    /// `parent`'s children, updating both widgets together. Refused, with
    /// nothing changed, when a handle names no widget, when the two are the
    /// same widget, when `child` already has a parent, or when `child` is an
    /// ancestor of `parent`.
    pub fn attach(&mut self, child: usize, parent: usize) -> (r: Result<(), AttachError>)
        requires
            old(self).wf(),
        ensures
            final(self).wf(),
            final(self).view().len() == old(self).view().len(),
            child >= old(self).view().len() || parent >= old(self).view().len() <==> r == Err::<
                (),
                AttachError,
            >(AttachError::NoSuchWidget),
            child < old(self).view().len() && parent < old(self).view().len() ==> {
                &&& child == parent <==> r == Err::<(), AttachError>(AttachError::SameWidget)
                &&& child != parent && node(old(self).view(), child as int).parent is Some <==> r
                    == Err::<(), AttachError>(AttachError::HasParent)
                &&& child != parent && node(old(self).view(), child as int).parent is None && is_ancestor(
                    old(self).view(),
                    child as int,
                    parent as int,
                ) <==> r == Err::<(), AttachError>(AttachError::Cycle)
            },
            r is Ok <==> child < old(self).view().len() && parent < old(self).view().len() && child
                != parent && node(old(self).view(), child as int).parent is None && !is_ancestor(
                old(self).view(),
                child as int,
                parent as int,
            ),
            r is Err ==> final(self).view() == old(self).view(),
            r is Ok ==> {
                &&& node(final(self).view(), child as int) == (ControlView {
                    parent: Some(parent),
                    ..node(old(self).view(), child as int)
                })
                &&& node(final(self).view(), parent as int) == (ControlView {
                    children: node(old(self).view(), parent as int).children.push(child),
                    ..node(old(self).view(), parent as int)
                })
                &&& forall|i: int|
                    0 <= i < old(self).view().len() && i != child && i != parent ==> #[trigger] node(
                        final(self).view(),
                        i,
                    ) == node(old(self).view(), i)
            },
    {
        let n = self.widgets.len();
        if child >= n || parent >= n {
            return Err(AttachError::NoSuchWidget);
        }
        if child == parent {
            return Err(AttachError::SameWidget);
        }
        if self.widgets[child].parent().is_some() {
            return Err(AttachError::HasParent);
        }
        let ghost ows = self.widgets@;
        let ghost rank = self.rank@;
        // Walk up from `parent` until `child` or a widget without parent.
        let mut cur: usize = parent;
        let ghost mut steps: nat = 0;
        let ghost mut seen: Set<int> = Set::empty().insert(parent as int);
        proof {
            lemma_int_range(0, n as int);
        }
        loop
            invariant
                self.widgets@ == ows,
                self.rank@ == rank,
                well_linked(ows),
                ranked(ows, rank),
                n == ows.len(),
                child < n,
                parent < n,
                cur < n,
                set_int_range(0, n as int).finite(),
                set_int_range(0, n as int).len() == n,
                up(ows, parent as int, steps) == Some(cur as int),
                forall|j: nat| j < steps ==> #[trigger] up(ows, parent as int, j) != Some(child as int),
                seen.subset_of(set_int_range(0, n as int)),
                seen.finite(),
                seen.len() == steps + 1,
                seen.contains(cur as int),
                seen.contains(parent as int),
                forall|x: int| #[trigger] seen.contains(x) ==> rank[x] <= rank[cur as int],
                forall|x: int|
                    #[trigger] seen.contains(x) && x != cur ==> x != child && node(ows, x).parent is Some
                        && seen.contains(node(ows, x).parent->0 as int),
            ensures
                cur == child || node(ows, cur as int).parent is None,
            decreases n - seen.len(),
        {
            if cur == child {
                break;
            }
            let next: Option<usize> = *self.widgets[cur].parent();
            match next {
                None => {
                    break;
                },
                Some(p) => {
                    proof {
                        assert(node(ows, cur as int).parent == Some(p));
                        assert(rank[cur as int] < rank[p as int]);
                        assert(!seen.contains(p as int));
                        lemma_len_subset(seen.insert(p as int), set_int_range(0, n as int));
                        seen = seen.insert(p as int);
                        steps = steps + 1;
                    }
                    cur = p;
                },
            }
        }
        if cur == child {
            proof {
                assert(up(ows, parent as int, steps) == Some(child as int));
            }
            return Err(AttachError::Cycle);
        }
        proof {
            assert forall|k: nat| up(ows, parent as int, k) != Some(child as int) by {
                if k > steps {
                    lemma_up_past_root(ows, parent as int, steps + 1, k);
                }
            }
        }
        self.widgets[child].set_parent(Some(parent));
        self.widgets[parent].children_mut().push(child);
        let ghost m: int = if rank[child as int] >= rank[parent as int] {
            rank[child as int] - rank[parent as int] + 1
        } else {
            0
        };
        self.rank = Ghost(
            Seq::new(n as nat, |i: int| if seen.contains(i) { rank[i] + m } else { rank[i] }),
        );
        proof {
            let ws = self.widgets@;
            let nrank = self.rank@;
            assert(ws.len() == ows.len());
            assert forall|i: int| 0 <= i < ws.len() && i != child && i != parent implies node(ws, i)
                == node(ows, i) by {
                assert(ws[i] == ows[i]);
            }
            assert(node(ws, parent as int).children == node(ows, parent as int).children.push(
                child,
            ));
            assert forall|p: int| 0 <= p < ws.len() implies !node(ows, p).children.contains(
                child,
            ) by {
                if node(ows, p).children.contains(child) {
                    assert(node(ows, child as int).parent == Some(p as usize));
                }
            }
            assert forall|i: int, k: int|
                0 <= i < ws.len() && 0 <= k < node(ws, i).children.len() implies #[trigger] node(
                ws,
                i,
            ).children[k] < ws.len() by {
                if i == parent as int && k == node(ows, i).children.len() {
                } else {
                    assert(node(ows, i).children[k] < ows.len());
                }
            }
            assert forall|c: int, p: int| 0 <= c < ws.len() && 0 <= p < ws.len() implies ((
            #[trigger] node(ws, c)).parent == Some(p as usize) <==> (#[trigger] node(
                ws,
                p,
            )).children.contains(c as usize)) by {
                assert(node(ows, c).parent == Some(p as usize) <==> node(ows, p).children.contains(
                    c as usize,
                ));
                if p == parent as int {
                    let old_kids = node(ows, p).children;
                    let kids = node(ws, p).children;
                    if kids.contains(c as usize) && c != child as int {
                        let k = choose|k: int| 0 <= k < kids.len() && kids[k] == c as usize;
                        assert(old_kids[k] == c as usize);
                    }
                    if old_kids.contains(c as usize) {
                        let k = choose|k: int| 0 <= k < old_kids.len() && old_kids[k] == c as usize;
                        assert(kids[k] == c as usize);
                    }
                    if c == child as int {
                        assert(kids[old_kids.len() as int] == c as usize);
                    }
                }
            }
            assert forall|i: int| 0 <= i < ws.len() implies (#[trigger] node(
                ws,
                i,
            )).children.no_duplicates() by {
                assert(node(ows, i).children.no_duplicates());
                if i == parent as int {
                    assert(!node(ows, i).children.contains(child));
                }
            }
            assert(!seen.contains(child as int));
            assert forall|c: int|
                0 <= c < ws.len() && (#[trigger] node(ws, c)).parent is Some implies nrank[c]
                < nrank[node(ws, c).parent->0 as int] by {
                if c != child as int {
                    assert(node(ws, c).parent == node(ows, c).parent);
                    let p = node(ows, c).parent->0 as int;
                    assert(rank[c] < rank[p]);
                    assert(0 <= p < n);
                    if seen.contains(c) {
                        assert(c != cur as int);
                        assert(seen.contains(p));
                    }
                }
            }
        }
        Ok(())
    }
}

} // verus!
