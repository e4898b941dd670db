//! The graph of pull requests: which head branches are stacked on which base.
//!
//! A graph is built once from a list of pull requests and is read-only
//! afterwards. It holds the adjacency from each base branch to the head
//! branches built directly on it, in the order in which the pull requests
//! were listed, and an index from each edge to the pull request behind it.

use crate::assoc::{
    distinct_keys, has_key, keys_of, lemma_keys_of, lemma_to_map_keys, lemma_to_map_push, lemma_to_map_update,
    lemma_to_map_len, lemma_to_map_value, to_map,
};
use crate::parse::{pr_views, Pr, PrView};
use vstd::prelude::*;
use vstd::string::*;

verus! {

/// The mathematical content of a [`PrGraph`].
pub struct GraphView {
    /// The base branches, each once, in the order of their first appearance.
    pub bases: Seq<Seq<char>>,
    /// For each base branch, the head branches built directly on it, in the
    /// order of the pull requests; the same head may occur more than once.
    pub children: Map<Seq<char>, Seq<Seq<char>>>,
    /// For each edge `(head, base)`, the pull request behind it.
    pub index: Map<(Seq<char>, Seq<char>), PrView>,
}

impl GraphView {
    /// The graph of no pull requests.
    pub open spec fn empty() -> GraphView {
        GraphView { bases: Seq::empty(), children: Map::empty(), index: Map::empty() }
    }

    /// The graph with one more pull request: its edge is appended to the
    /// children of its base, which becomes a base if it was none, and the
    /// index maps the edge to this pull request, replacing an earlier one
    /// with the same edge.
    pub open spec fn add(self, pr: PrView) -> GraphView {
        let head = pr.effective_head();
        let base = pr.base_ref_name;
        if self.children.contains_key(base) {
            GraphView {
                bases: self.bases,
                children: self.children.insert(base, self.children[base].push(head)),
                index: self.index.insert((head, base), pr),
            }
        } else {
            GraphView {
                bases: self.bases.push(base),
                children: self.children.insert(base, seq![head]),
                index: self.index.insert((head, base), pr),
            }
        }
    }

    /// The graph of a list of pull requests, added in order.
    pub open spec fn build(prs: Seq<PrView>) -> GraphView
        decreases prs.len(),
    {
        if prs.len() == 0 {
            Self::empty()
        } else {
            Self::build(prs.drop_last()).add(prs.last())
        }
    }

    /// The pull request behind the edge from `base` to `head`, if there is
    /// one.
    pub open spec fn lookup(self, head: Seq<char>, base: Seq<char>) -> Option<PrView> {
        if self.index.contains_key((head, base)) {
            Some(self.index[(head, base)])
        } else {
            None
        }
    }

    /// The head branches built directly on `base`, if it is a base.
    pub open spec fn heads_on(self, base: Seq<char>) -> Option<Seq<Seq<char>>> {
        if self.children.contains_key(base) {
            Some(self.children[base])
        } else {
            None
        }
    }

    /// Whether `name` is the head of some edge.
    pub open spec fn is_head(self, name: Seq<char>) -> bool {
        exists|base: Seq<char>, i: int|
            self.children.contains_key(base) && 0 <= i < self.children[base].len()
                && #[trigger] self.children[base][i] == name
    }

    /// The test that a base passes when it is the head of no edge.
    pub open spec fn is_root(self) -> spec_fn(Seq<char>) -> bool {
        |name: Seq<char>| !self.is_head(name)
    }

    /// The roots of the forest: the bases that are the head of no edge, in
    /// the order of `bases`.
    pub open spec fn roots(self) -> Seq<Seq<char>> {
        self.bases.filter(self.is_root())
    }
}

impl GraphView {
    /// What holds of every graph built from pull requests: the bases are
    /// listed once each and are exactly the keys of the adjacency; every base
    /// has at least one child; every edge of the adjacency is indexed, every
    /// indexed edge is in the adjacency, and each indexed pull request is
    /// stored under its own edge.
    pub open spec fn wf(self) -> bool {
        &&& self.bases.no_duplicates()
        &&& forall|base: Seq<char>| self.bases.contains(base) <==> self.children.contains_key(base)
        &&& self.children.dom().finite()
        &&& self.index.dom().finite()
        &&& forall|base: Seq<char>| #[trigger]
            self.children.contains_key(base) ==> self.children[base].len() > 0
        &&& forall|base: Seq<char>, i: int|
            self.children.contains_key(base) && 0 <= i < self.children[base].len()
                ==> self.index.contains_key((#[trigger] self.children[base][i], base))
        &&& forall|head: Seq<char>, base: Seq<char>| #[trigger]
            self.index.contains_key((head, base)) ==> {
                &&& self.index[(head, base)].key() == (head, base)
                &&& self.children.contains_key(base)
                &&& self.children[base].contains(head)
            }
    }
}

/// The test that a pull request passes when it targets `base`.
pub open spec fn targets(base: Seq<char>) -> spec_fn(PrView) -> bool {
    |pr: PrView| pr.base_ref_name == base
}

/// The effective head names of the pull requests that target `base`, in the
/// order of the list.
pub open spec fn heads_for(prs: Seq<PrView>, base: Seq<char>) -> Seq<Seq<char>> {
    prs.filter(targets(base)).map_values(|pr: PrView| pr.effective_head())
}

/// The pull requests as pairs of an edge and the record behind it.
pub open spec fn edges(prs: Seq<PrView>) -> Seq<((Seq<char>, Seq<char>), PrView)> {
    prs.map_values(|pr: PrView| (pr.key(), pr))
}

/// The views of a sequence of strings, in order.
pub open spec fn names(strings: Seq<String>) -> Seq<Seq<char>> {
    strings.map_values(|s: String| s@)
}

/// The adjacency list as pairs of a base name and the head names on it.
pub open spec fn families(list: Seq<(String, Vec<String>)>) -> Seq<
    (Seq<char>, Seq<Seq<char>>),
> {
    list.map_values(|entry: (String, Vec<String>)| (entry.0@, names(entry.1@)))
}

/// The indexed pull requests as pairs of an edge and the record behind it.
pub open spec fn records(prs: Seq<Pr>) -> Seq<((Seq<char>, Seq<char>), PrView)> {
    prs.map_values(|pr: Pr| (pr@.key(), pr@))
}

/// The graph that an adjacency list and a list of indexed pull requests stand
/// for.
pub open spec fn graph_of(list: Seq<(String, Vec<String>)>, prs: Seq<Pr>) -> GraphView {
    GraphView {
        bases: keys_of(families(list)),
        children: to_map(families(list)),
        index: to_map(records(prs)),
    }
}

fn find_family(list: &Vec<(String, Vec<String>)>, base: &String) -> (r: Option<usize>)
    ensures
        match r {
            Some(i) => i < list.len() && list[i as int].0@ == base@,
            None => !has_key(families(list@), base@),
        },
{
    let mut i: usize = 0;
    while i < list.len()
        invariant
            i <= list.len(),
            forall|k: int| 0 <= k < i ==> list[k].0@ != base@,
        decreases list.len() - i,
    {
        if list[i].0 == *base {
            return Some(i);
        }
        i += 1;
    }
    assert(!has_key(families(list@), base@)) by {
        if has_key(families(list@), base@) {
            let k = choose|k: int|
                0 <= k < families(list@).len() && #[trigger] families(list@)[k].0 == base@;
            assert(list[k].0@ == base@);
        }
    }
    None
}

fn find_record(prs: &Vec<Pr>, head: &String, base: &String) -> (r: Option<usize>)
    ensures
        match r {
            Some(i) => i < prs.len() && prs[i as int]@.key() == (head@, base@),
            None => !has_key(records(prs@), (head@, base@)),
        },
{
    let mut i: usize = 0;
    while i < prs.len()
        invariant
            i <= prs.len(),
            forall|k: int| 0 <= k < i ==> prs[k]@.key() != (head@, base@),
        decreases prs.len() - i,
    {
        if prs[i].base_ref_name == *base {
            let name = prs[i].effective_head();
            if name == *head {
                return Some(i);
            }
        }
        i += 1;
    }
    assert(!has_key(records(prs@), (head@, base@))) by {
        if has_key(records(prs@), (head@, base@)) {
            let k = choose|k: int|
                0 <= k < records(prs@).len() && #[trigger] records(prs@)[k].0 == (head@, base@);
            assert(prs[k]@.key() == (head@, base@));
        }
    }
    None
}

/// A graph of pull requests.
pub struct PrGraph {
    adjacency_list: Vec<(String, Vec<String>)>,
    prs: Vec<Pr>,
}

impl View for PrGraph {
    type V = GraphView;

    closed spec fn view(&self) -> GraphView {
        graph_of(self.adjacency_list@, self.prs@)
    }
}

impl PrGraph {
    #[verifier::type_invariant]
    spec fn inv(&self) -> bool {
        distinct_keys(families(self.adjacency_list@)) && distinct_keys(records(self.prs@))
    }

    /// Constructs the graph of a list of pull requests.
    ///
    /// Each pull request is indexed under its edge, the pair of its effective
    /// head name and its base name; of two pull requests with the same edge
    /// the index keeps the later one.
    pub fn new(prs: Vec<Pr>) -> (graph: PrGraph)
        ensures
            graph@ == GraphView::build(pr_views(prs@)),
            graph@.wf(),
    {
        let ghost items = prs@;
        let ghost all = pr_views(prs@);
        proof {
            lemma_build_wf(all);
        }
        let mut adjacency_list: Vec<(String, Vec<String>)> = Vec::new();
        let mut index: Vec<Pr> = Vec::new();
        assert(graph_of(adjacency_list@, index@) == GraphView::empty()) by {
            assert(graph_of(adjacency_list@, index@).bases =~= Seq::empty());
        }
        assert(all.take(0) =~= Seq::empty());
        for pr in it: prs.into_iter()
            invariant
                it.seq() == items,
                all == pr_views(items),
                distinct_keys(families(adjacency_list@)),
                distinct_keys(records(index@)),
                graph_of(adjacency_list@, index@) == GraphView::build(all.take(it.index() as int)),
        {
            let ghost done = it.index() as int;
            let ghost before = graph_of(adjacency_list@, index@);
            let ghost old_list = adjacency_list@;
            let ghost old_index = index@;
            assert(pr@ == all[done]);
            let head = pr.effective_head();
            let base = pr.base_ref_name.clone();
            let ghost view = pr@;
            proof {
                lemma_to_map_keys(families(old_list));
                lemma_to_map_keys(records(old_index));
            }
            match find_record(&index, &head, &base) {
                Some(p) => {
                    proof {
                        lemma_to_map_update(records(old_index), p as int, view);
                    }
                    index.set(p, pr);
                    assert(records(index@) =~= records(old_index).update(
                        p as int,
                        (view.key(), view),
                    ));
                },
                None => {
                    proof {
                        lemma_to_map_push(records(old_index), view.key(), view);
                    }
                    index.push(pr);
                    assert(records(index@) =~= records(old_index).push((view.key(), view)));
                },
            }
            match find_family(&adjacency_list, &base) {
                Some(i) => {
                    let ghost heads = names(old_list[i as int].1@);
                    proof {
                        lemma_to_map_value(families(old_list), i as int);
                        lemma_to_map_update(families(old_list), i as int, heads.push(head@));
                    }
                    adjacency_list[i].1.push(head);
                    assert(names(adjacency_list@[i as int].1@) =~= heads.push(head@));
                    assert(families(adjacency_list@) =~= families(old_list).update(
                        i as int,
                        (base@, heads.push(head@)),
                    ));
                    assert(graph_of(adjacency_list@, index@).bases =~= before.bases);
                },
                None => {
                    proof {
                        lemma_to_map_push(families(old_list), base@, seq![head@]);
                    }
                    let mut heads_on: Vec<String> = Vec::new();
                    heads_on.push(head);
                    assert(names(heads_on@) =~= seq![head@]);
                    adjacency_list.push((base, heads_on));
                    assert(families(adjacency_list@) =~= families(old_list).push(
                        (base@, seq![head@]),
                    ));
                    assert(graph_of(adjacency_list@, index@).bases =~= before.bases.push(base@));
                },
            }
            proof {
                assert(graph_of(adjacency_list@, index@) == before.add(view));
                assert(all.take(done + 1).drop_last() =~= all.take(done));
                assert(all.take(done + 1).last() == view);
            }
        }
        assert(all.take(all.len() as int) =~= all);
        PrGraph { adjacency_list, prs: index }
    }

    /// The label of the edge from `base_ref_name` to `head_ref_name`, in the
    /// format `head_ref_name->base_ref_name`.
    pub fn identifier(head_ref_name: &str, base_ref_name: &str) -> (r: String)
        ensures
            r@ == head_ref_name@ + seq!['-', '>'] + base_ref_name@,
    {
        proof {
            reveal_strlit("->");
        }
        let mut label = String::from_str(head_ref_name);
        label.append("->");
        label.append(base_ref_name);
        assert("->"@ =~= seq!['-', '>']);
        label
    }

    /// A graph has finitely many bases and finitely many indexed edges.
    pub proof fn lemma_finite(&self)
        ensures
            self@.children.dom().finite(),
            self@.index.dom().finite(),
    {
        lemma_to_map_keys(families(self.adjacency_list@));
        lemma_to_map_keys(records(self.prs@));
    }

    /// The adjacency list: each base branch, in the order of first
    /// appearance, with the head branches built directly on it.
    pub fn adjacency_list(&self) -> (list: &Vec<(String, Vec<String>)>)
        ensures
            distinct_keys(families(list@)),
            self@.bases == keys_of(families(list@)),
            self@.children == to_map(families(list@)),
            list@.len() == self@.children.dom().len(),
    {
        proof {
            use_type_invariant(self);
            lemma_to_map_len(families(self.adjacency_list@));
        }
        &self.adjacency_list
    }

    /// The indexed pull requests, one for each edge.
    pub fn prs(&self) -> (prs: &Vec<Pr>)
        ensures
            distinct_keys(records(prs@)),
            self@.index == to_map(records(prs@)),
            prs@.len() == self@.index.dom().len(),
    {
        proof {
            use_type_invariant(self);
            lemma_to_map_len(records(self.prs@));
        }
        &self.prs
    }

    /// Gets the pull request behind the edge from `base_ref_name` to
    /// `head_ref_name`, where `head_ref_name` is an effective head name.
    pub fn get_pr(&self, head_ref_name: &str, base_ref_name: &str) -> (r: Option<&Pr>)
        ensures
            match r {
                Some(pr) => self@.lookup(head_ref_name@, base_ref_name@) == Some(pr@),
                None => self@.lookup(head_ref_name@, base_ref_name@) is None,
            },
    {
        proof {
            use_type_invariant(self);
            lemma_to_map_keys(records(self.prs@));
        }
        let head = String::from_str(head_ref_name);
        let base = String::from_str(base_ref_name);
        match find_record(&self.prs, &head, &base) {
            Some(i) => {
                proof {
                    lemma_to_map_value(records(self.prs@), i as int);
                }
                Some(&self.prs[i])
            },
            None => None,
        }
    }

    /// Gets the head branches built directly on `base_ref_name`, or `None`
    /// when no pull request targets that branch.
    pub fn heads_on(&self, base_ref_name: &str) -> (r: Option<&Vec<String>>)
        ensures
            match r {
                Some(heads) => self@.heads_on(base_ref_name@) == Some(names(heads@)),
                None => self@.heads_on(base_ref_name@) is None,
            },
    {
        proof {
            use_type_invariant(self);
            lemma_to_map_keys(families(self.adjacency_list@));
        }
        let base = String::from_str(base_ref_name);
        match find_family(&self.adjacency_list, &base) {
            Some(i) => {
                proof {
                    lemma_to_map_value(families(self.adjacency_list@), i as int);
                }
                Some(&self.adjacency_list[i].1)
            },
            None => None,
        }
    }

    /// Whether `name` is the head of some edge of the graph.
    pub fn is_head(&self, name: &String) -> (r: bool)
        ensures
            r == self@.is_head(name@),
    {
        proof {
            use_type_invariant(self);
        }
        let ghost entries = families(self.adjacency_list@);
        let mut i: usize = 0;
        while i < self.adjacency_list.len()
            invariant
                i <= self.adjacency_list.len(),
                entries == families(self.adjacency_list@),
                distinct_keys(entries),
                forall|a: int, b: int|
                    0 <= a < i && 0 <= b < entries[a].1.len() ==> #[trigger] entries[a].1[b]
                        != name@,
            decreases self.adjacency_list.len() - i,
        {
            let heads = &self.adjacency_list[i].1;
            assert(entries[i as int].1 == names(heads@));
            let mut j: usize = 0;
            while j < heads.len()
                invariant
                    j <= heads.len(),
                    i < self.adjacency_list.len(),
                    entries == families(self.adjacency_list@),
                    distinct_keys(entries),
                    entries[i as int].1 == names(heads@),
                    forall|b: int| 0 <= b < j ==> heads[b]@ != name@,
                decreases heads.len() - j,
            {
                if heads[j] == *name {
                    proof {
                        lemma_to_map_value(entries, i as int);
                        let base = entries[i as int].0;
                        assert(self@.children[base][j as int] == name@);
                    }
                    return true;
                }
                j += 1;
            }
            i += 1;
        }
        proof {
            if self@.is_head(name@) {
                let (base, k) = choose|base: Seq<char>, k: int|
                    self@.children.contains_key(base) && 0 <= k < self@.children[base].len()
                        && #[trigger] self@.children[base][k] == name@;
                lemma_to_map_keys(entries);
                assert(self@.children == to_map(entries));
                assert(has_key(entries, base));
                let a = choose|a: int| 0 <= a < entries.len() && #[trigger] entries[a].0 == base;
                lemma_to_map_value(entries, a);
                assert(entries[a].1[k] == name@);
            }
        }
        false
    }

    /// Gets the starting nodes of the graph: the base branches that are the
    /// head of no pull request, each once, in the order of their first
    /// appearance.
    ///
    /// Every base is tested against every list of heads, which is quadratic
    /// in the size of the graph; a set of all heads, built first, would make
    /// it linear should graphs grow large.
    pub fn get_starting_nodes(&self) -> (roots: Vec<String>)
        ensures
            names(roots@) == self@.roots(),
            names(roots@).no_duplicates(),
            forall|name: Seq<char>|
                names(roots@).contains(name) <==> (self@.children.contains_key(name)
                    && !self@.is_head(name)),
    {
        proof {
            use_type_invariant(self);
            lemma_keys_of(families(self.adjacency_list@));
            lemma_to_map_keys(families(self.adjacency_list@));
            lemma_filter_exact(self@.bases, self@.is_root());
            assert forall|name: Seq<char>|
                self@.roots().contains(name) <==> (self@.children.contains_key(name)
                    && !self@.is_head(name)) by {
                let entries = families(self.adjacency_list@);
                assert((self@.is_root())(name) == !self@.is_head(name));
                assert(self@.roots().contains(name) <==> (self@.bases.contains(name) && (
                self@.is_root())(name)));
                assert(keys_of(entries).contains(name) <==> has_key(entries, name));
                assert(to_map(entries).contains_key(name) <==> has_key(entries, name));
            }
        }
        let ghost bases = self@.bases;
        let mut roots: Vec<String> = Vec::new();
        let mut i: usize = 0;
        assert(bases.take(0) =~= Seq::empty());
        assert(names(roots@) =~= bases.take(0).filter(self@.is_root())) by {
            reveal(Seq::filter);
        }
        while i < self.adjacency_list.len()
            invariant
                i <= self.adjacency_list.len(),
                bases == self@.bases,
                bases.len() == self.adjacency_list.len(),
                names(roots@) == bases.take(i as int).filter(self@.is_root()),
            decreases self.adjacency_list.len() - i,
        {
            let base = &self.adjacency_list[i].0;
            let ghost shorter = bases.take(i as int);
            let ghost longer = bases.take(i + 1);
            let ghost kept = names(roots@);
            proof {
                reveal(Seq::filter);
                assert(longer.drop_last() =~= shorter);
                assert(longer.last() == base@);
            }
            if !self.is_head(base) {
                roots.push(base.clone());
                assert(names(roots@) =~= kept.push(base@));
            }
            i += 1;
        }
        assert(bases.take(i as int) =~= bases);
        roots
    }
}

/// The index of a built graph is the map of the pull requests' edges, a later
/// pull request replacing an earlier one with the same edge.
pub proof fn lemma_build_index(prs: Seq<PrView>)
    ensures
        GraphView::build(prs).index == to_map(edges(prs)),
    decreases prs.len(),
{
    if prs.len() > 0 {
        lemma_build_index(prs.drop_last());
        assert(edges(prs).drop_last() =~= edges(prs.drop_last()));
        assert(edges(prs).last() == (prs.last().key(), prs.last()));
    }
}

/// When no two pull requests share an edge, the index of the built graph has
/// exactly one entry for each pull request.
pub proof fn lemma_index_counts_records(prs: Seq<PrView>)
    requires
        forall|i: int, j: int| 0 <= i < j < prs.len() ==> prs[i].key() != prs[j].key(),
    ensures
        GraphView::build(prs).index.dom().finite(),
        GraphView::build(prs).index.dom().len() == prs.len(),
{
    lemma_build_index(prs);
    assert(distinct_keys(edges(prs))) by {
        assert forall|i: int, j: int| 0 <= i < j < edges(prs).len() implies edges(prs)[i].0
            != edges(prs)[j].0 by {
            assert(prs[i].key() != prs[j].key());
        }
    }
    lemma_to_map_len(edges(prs));
}

/// The index of the built graph maps the edge of a pull request to that pull
/// request, unless a later pull request has the same edge: where edges
/// collide, the last one listed is kept.
pub proof fn lemma_index_keeps_last(prs: Seq<PrView>, i: int)
    requires
        0 <= i < prs.len(),
        forall|j: int| i < j < prs.len() ==> prs[j].key() != prs[i].key(),
    ensures
        GraphView::build(prs).lookup(prs[i].effective_head(), prs[i].base_ref_name) == Some(
            prs[i],
        ),
    decreases prs.len(),
{
    if i < prs.len() - 1 {
        let front = prs.drop_last();
        assert(front[i] == prs[i]);
        assert forall|j: int| i < j < front.len() implies front[j].key() != front[i].key() by {
            assert(prs[j].key() != prs[i].key());
        }
        lemma_index_keeps_last(front, i);
        assert(prs[prs.len() - 1].key() != prs[i].key());
    }
}

/// The children of a base in the built graph are the effective head names of
/// the pull requests that target it, in the order of the list, and a branch
/// that no pull request targets is no base.
pub proof fn lemma_build_children(prs: Seq<PrView>, base: Seq<char>)
    ensures
        GraphView::build(prs).heads_on(base) == if heads_for(prs, base).len() > 0 {
            Some(heads_for(prs, base))
        } else {
            None
        },
    decreases prs.len(),
{
    reveal(Seq::filter);
    if prs.len() > 0 {
        let front = prs.drop_last();
        let pr = prs.last();
        lemma_build_children(front, base);
        if pr.base_ref_name == base {
            assert(prs.filter(targets(base)) == front.filter(targets(base)).push(pr));
            assert(heads_for(prs, base) =~= heads_for(front, base).push(pr.effective_head()));
        } else {
            assert(prs.filter(targets(base)) == front.filter(targets(base)));
        }
    } else {
        assert(heads_for(prs, base) =~= Seq::empty());
    }
}

/// Every built graph is well formed.
pub proof fn lemma_build_wf(prs: Seq<PrView>)
    ensures
        GraphView::build(prs).wf(),
    decreases prs.len(),
{
    if prs.len() == 0 {
        assert(GraphView::build(prs) == GraphView::empty());
    } else {
        let before = GraphView::build(prs.drop_last());
        let pr = prs.last();
        let head = pr.effective_head();
        let base = pr.base_ref_name;
        let after = before.add(pr);
        lemma_build_wf(prs.drop_last());
        assert(after.bases.no_duplicates() && (forall|name: Seq<char>|
            after.bases.contains(name) <==> after.children.contains_key(name))) by {
            if !before.children.contains_key(base) {
                assert(!before.bases.contains(base));
                assert(after.bases.last() == base);
                assert forall|name: Seq<char>| after.bases.contains(name) implies (
                before.bases.contains(name) || name == base) by {
                    let k = choose|k: int| 0 <= k < after.bases.len() && after.bases[k] == name;
                    if k < before.bases.len() {
                        assert(before.bases[k] == name);
                    }
                }
                assert forall|name: Seq<char>| before.bases.contains(name) implies (
                after.bases.contains(name)) by {
                    let k = choose|k: int| 0 <= k < before.bases.len() && before.bases[k] == name;
                    assert(after.bases[k] == name);
                }
                assert(after.bases[before.bases.len() as int] == base);
            }
        }
        assert forall|name: Seq<char>, i: int|
            after.children.contains_key(name) && 0 <= i < after.children[name].len()
            implies after.index.contains_key((#[trigger] after.children[name][i], name)) by {
            if name == base {
                if before.children.contains_key(base) && i < before.children[base].len() {
                    assert(before.index.contains_key((before.children[base][i], base)));
                }
            } else {
                assert(before.index.contains_key((before.children[name][i], name)));
            }
        }
        assert forall|h: Seq<char>, b: Seq<char>| #[trigger]
            after.index.contains_key((h, b)) implies ({
            &&& after.index[(h, b)].key() == (h, b)
            &&& after.children.contains_key(b)
            &&& after.children[b].contains(h)
        }) by {
            if (h, b) == (head, base) {
                let last = after.children[base].len() - 1;
                assert(after.children[base][last] == head);
            } else {
                assert(before.index.contains_key((h, b)));
                if b == base {
                    let k = choose|k: int|
                        0 <= k < before.children[b].len() && before.children[b][k] == h;
                    assert(after.children[b][k] == h);
                }
            }
        }
    }
}

/// In a built graph, every edge of the adjacency is indexed, and the pull
/// request found under it is one of those listed, with that very edge.
pub proof fn lemma_lookup_edge(prs: Seq<PrView>, base: Seq<char>, i: int)
    requires
        GraphView::build(prs).children.contains_key(base),
        0 <= i < GraphView::build(prs).children[base].len(),
    ensures
        ({
            let graph = GraphView::build(prs);
            let head = graph.children[base][i];
            &&& graph.lookup(head, base) is Some
            &&& graph.lookup(head, base)->0.key() == (head, base)
            &&& exists|j: int| 0 <= j < prs.len() && #[trigger] prs[j] == graph.lookup(head, base)->0
        }),
{
    let graph = GraphView::build(prs);
    let head = graph.children[base][i];
    lemma_build_wf(prs);
    lemma_build_index(prs);
    lemma_to_map_keys(edges(prs));
    assert(graph.index.contains_key((head, base)));
    assert(has_key(edges(prs), (head, base)));
    lemma_index_holds_listed(prs, (head, base));
}

/// Whatever the index of a built graph holds under an edge is one of the
/// pull requests listed.
proof fn lemma_index_holds_listed(prs: Seq<PrView>, key: (Seq<char>, Seq<char>))
    requires
        GraphView::build(prs).index.contains_key(key),
    ensures
        exists|j: int| 0 <= j < prs.len() && #[trigger] prs[j] == GraphView::build(prs).index[key],
    decreases prs.len(),
{
    if prs.len() > 0 {
        let front = prs.drop_last();
        if prs.last().key() == key {
            assert(prs[prs.len() - 1] == GraphView::build(prs).index[key]);
        } else {
            lemma_index_holds_listed(front, key);
            let j = choose|j: int|
                0 <= j < front.len() && #[trigger] front[j] == GraphView::build(front).index[key];
            assert(prs[j] == GraphView::build(prs).index[key]);
        }
    }
}

/// An element is in a sequence with one more element when it is in the
/// sequence or is that element.
proof fn lemma_contains_push<A>(s: Seq<A>, last: A, x: A)
    ensures
        s.push(last).contains(x) <==> (s.contains(x) || x == last),
{
    let longer = s.push(last);
    if longer.contains(x) {
        let k = choose|k: int| 0 <= k < longer.len() && longer[k] == x;
        if k < s.len() {
            assert(s[k] == x);
        }
    }
    if s.contains(x) {
        let k = choose|k: int| 0 <= k < s.len() && s[k] == x;
        assert(longer[k] == x);
    }
    if x == last {
        assert(longer[s.len() as int] == x);
    }
}

/// Filtering a sequence without duplicates leaves no duplicates, and keeps
/// exactly the elements that pass the test.
proof fn lemma_filter_exact<A>(s: Seq<A>, pred: spec_fn(A) -> bool)
    requires
        s.no_duplicates(),
    ensures
        s.filter(pred).no_duplicates(),
        forall|x: A| #[trigger] s.filter(pred).contains(x) <==> (s.contains(x) && pred(x)),
    decreases s.len(),
{
    reveal(Seq::filter);
    if s.len() > 0 {
        let front = s.drop_last();
        let last = s.last();
        let kept = front.filter(pred);
        assert(front.push(last) =~= s);
        assert(front.no_duplicates());
        lemma_filter_exact(front, pred);
        assert(!front.contains(last)) by {
            if front.contains(last) {
                let k = choose|k: int| 0 <= k < front.len() && front[k] == last;
                assert(s[k] == s[s.len() - 1]);
            }
        }
        assert forall|x: A| #[trigger]
            s.filter(pred).contains(x) <==> (s.contains(x) && pred(x)) by {
            lemma_contains_push(front, last, x);
            if pred(last) {
                lemma_contains_push(kept, last, x);
            }
        }
        if pred(last) {
            assert(!kept.contains(last));
            assert forall|a: int, b: int|
                0 <= a < kept.push(last).len() && 0 <= b < kept.push(last).len() && a
                    != b implies kept.push(last)[a] != kept.push(last)[b] by {
                if a == kept.len() {
                    assert(kept.contains(kept[b]));
                } else if b == kept.len() {
                    assert(kept.contains(kept[a]));
                }
            }
        }
    } else {
        assert(s.filter(pred) =~= Seq::empty());
    }
}

/// The roots of a well-formed graph are exactly the bases that are the head
/// of no edge, each listed once.
pub proof fn lemma_roots_exact(graph: GraphView)
    requires
        graph.wf(),
    ensures
        graph.roots().no_duplicates(),
        forall|name: Seq<char>|
            graph.roots().contains(name) <==> (graph.children.contains_key(name)
                && !graph.is_head(name)),
{
    lemma_filter_exact(graph.bases, graph.is_root());
    assert forall|name: Seq<char>|
        graph.roots().contains(name) <==> (graph.children.contains_key(name) && !graph.is_head(
            name,
        )) by {
        assert(graph.bases.contains(name) <==> graph.children.contains_key(name));
        assert((graph.is_root())(name) == !graph.is_head(name));
    }
}

/// A graph that holds an edge from a base to one of the bases does not have
/// that base among its roots.
pub proof fn lemma_head_is_no_root(graph: GraphView, base: Seq<char>, i: int)
    requires
        graph.wf(),
        graph.children.contains_key(base),
        0 <= i < graph.children[base].len(),
    ensures
        !graph.roots().contains(graph.children[base][i]),
{
    lemma_roots_exact(graph);
    assert(graph.is_head(graph.children[base][i]));
}

} // verus!
