//! The tree rendering of a pull-request graph.
//!
//! The graph is laid out depth first from each root as a sequence of spans,
//! pieces of text with a tone. A branch is expanded where the traversal first
//! reaches it and nowhere else, so shared branches are not repeated and
//! cycles end. The layout is then written out as text, plain or with the
//! tones painted in terminal colors.

use crate::graph::{names, GraphView, PrGraph};
use crate::parse::{pr_views, Pr, PrView};
use crate::text::{decimal, decimal_text};
use vstd::hash_map::StringHashMap;
use vstd::prelude::*;
use vstd::set_lib::lemma_len_subset;
use vstd::string::*;

verus! {

/// How a span is to be styled.
#[derive(Clone, Copy, Debug, PartialEq, Eq, Structural)]
pub enum Tone {
    /// Unstyled text.
    Plain,
    /// Tree structure and root names: bold blue.
    Accent,
    /// Annotations: dimmed.
    Muted,
}

/// A piece of output text with its tone.
#[derive(Debug)]
pub struct Span {
    pub tone: Tone,
    pub text: String,
}

/// The mathematical content of a [`Span`].
pub struct SpanView {
    pub tone: Tone,
    pub text: Seq<char>,
}

impl View for Span {
    type V = SpanView;

    open spec fn view(&self) -> SpanView {
        SpanView { tone: self.tone, text: self.text@ }
    }
}

/// The views of a sequence of spans, in order.
pub open spec fn span_views(spans: Seq<Span>) -> Seq<SpanView> {
    spans.map_values(|span: Span| span@)
}

/// An unstyled span.
pub open spec fn plain(text: Seq<char>) -> SpanView {
    SpanView { tone: Tone::Plain, text }
}

/// A span in the tone of the tree structure.
pub open spec fn accent(text: Seq<char>) -> SpanView {
    SpanView { tone: Tone::Accent, text }
}

/// A span in the tone of annotations.
pub open spec fn muted(text: Seq<char>) -> SpanView {
    SpanView { tone: Tone::Muted, text }
}

/// The outcome of walking part of the graph: the spans written, and the
/// branches seen so far.
pub struct Walk {
    pub spans: Seq<SpanView>,
    pub seen: Set<Seq<char>>,
}

/// The line that opens the segment of a root.
pub open spec fn root_line(root: Seq<char>) -> Seq<SpanView> {
    seq![accent("┌"@), plain(" "@), accent(root), plain("\n"@)]
}

/// The indentation below a child: that of the child's own line, then a
/// vertical bar if further children follow the child and a blank if it is
/// the last, then two blanks.
pub open spec fn deeper(indent: Seq<SpanView>, last: bool) -> Seq<SpanView> {
    indent + seq![
        accent(
            if last {
                " "@
            } else {
                "│"@
            },
        ),
        plain("  "@),
    ]
}

impl GraphView {
    /// The number of bases that are not among `seen`.
    pub open spec fn unseen(self, seen: Set<Seq<char>>) -> nat {
        self.children.dom().difference(seen).len()
    }

    /// The line for the edge from `base` to `head`. With a pull request
    /// behind the edge it shows a connector, the number, the head name and
    /// the title, which is empty when the pull request has none; without one
    /// it shows the bare head name.
    pub open spec fn edge_line(
        self,
        head: Seq<char>,
        base: Seq<char>,
        last: bool,
        indent: Seq<SpanView>,
    ) -> Seq<SpanView> {
        match self.lookup(head, base) {
            Some(pr) => indent + seq![
                accent(
                    if last {
                        "└──○"@
                    } else {
                        "├──○"@
                    },
                ),
                plain(" "@),
                muted("[#"@ + decimal(pr.number as nat) + "]"@),
                plain(" "@),
                plain(head),
                plain(" - "@),
                muted(
                    match pr.title {
                        Some(title) => title,
                        None => Seq::empty(),
                    },
                ),
                plain("\n"@),
            ],
            None => indent + seq![plain("  "@), plain(head), plain("\n"@)],
        }
    }

    /// Walks the graph depth first from `node`.
    ///
    /// A node that has been seen writes nothing. Otherwise the node counts as
    /// seen from now on, and the edges to its children are written in order,
    /// each followed by the walk from that child.
    pub open spec fn walk(self, node: Seq<char>, seen: Set<Seq<char>>, indent: Seq<SpanView>) -> Walk
        decreases self.unseen(seen), 0nat, 0nat,
        when self.children.dom().finite()
    {
        if seen.contains(node) {
            Walk { spans: Seq::empty(), seen }
        } else if self.children.contains_key(node) {
            proof {
                lemma_unseen_less(self, seen, node);
            }
            self.walk_heads(node, self.children[node], 0, seen.insert(node), indent)
        } else {
            Walk { spans: Seq::empty(), seen: seen.insert(node) }
        }
    }

    /// Writes the edges from `base` to `heads[from..]`, each followed by
    /// the walk from its head.
    pub open spec fn walk_heads(
        self,
        base: Seq<char>,
        heads: Seq<Seq<char>>,
        from: int,
        seen: Set<Seq<char>>,
        indent: Seq<SpanView>,
    ) -> Walk
        decreases self.unseen(seen), 1nat, heads.len() - from,
        when self.children.dom().finite()
    {
        if from < 0 || from >= heads.len() {
            Walk { spans: Seq::empty(), seen }
        } else {
            let last = from == heads.len() - 1;
            let below = self.walk(heads[from], seen, deeper(indent, last));
            proof {
                lemma_unseen_more(self, seen, below.seen);
            }
            let rest = self.walk_heads(base, heads, from + 1, seen.union(below.seen), indent);
            Walk {
                spans: self.edge_line(heads[from], base, last, indent) + below.spans + rest.spans,
                seen: rest.seen,
            }
        }
    }

    /// Writes the segments of `roots[from..]`: for each root its line, the
    /// walk from it, and a blank line.
    pub open spec fn forest(self, roots: Seq<Seq<char>>, from: int, seen: Set<Seq<char>>) -> Walk
        decreases roots.len() - from,
    {
        if from < 0 || from >= roots.len() {
            Walk { spans: Seq::empty(), seen }
        } else {
            let below = self.walk(roots[from], seen, Seq::empty());
            let rest = self.forest(roots, from + 1, below.seen);
            Walk {
                spans: root_line(roots[from]) + below.spans + seq![plain("\n"@)] + rest.spans,
                seen: rest.seen,
            }
        }
    }

    /// The whole layout: the header, a blank line, and the segment of every
    /// root.
    pub open spec fn layout(self) -> Seq<SpanView> {
        seq![plain("Pull Request Graph\n\n"@)] + self.forest(self.roots(), 0, Set::empty()).spans
    }
}

/// Seeing a base that was not seen leaves fewer bases unseen.
pub proof fn lemma_unseen_less(graph: GraphView, seen: Set<Seq<char>>, node: Seq<char>)
    requires
        graph.children.dom().finite(),
        graph.children.contains_key(node),
        !seen.contains(node),
    ensures
        graph.unseen(seen.insert(node)) < graph.unseen(seen),
{
    let bases = graph.children.dom();
    assert(bases.difference(seen.insert(node)) =~= bases.difference(seen).remove(node));
}

/// Seeing more branches leaves no more bases unseen.
pub proof fn lemma_unseen_more(graph: GraphView, seen: Set<Seq<char>>, more: Set<Seq<char>>)
    requires
        graph.children.dom().finite(),
    ensures
        graph.unseen(seen.union(more)) <= graph.unseen(seen),
{
    let bases = graph.children.dom();
    lemma_len_subset(bases.difference(seen.union(more)), bases.difference(seen));
}

/// The texts of a sequence of pieces, joined in order.
pub open spec fn concat(pieces: Seq<Seq<char>>) -> Seq<char>
    decreases pieces.len(),
{
    if pieces.len() == 0 {
        Seq::empty()
    } else {
        concat(pieces.drop_last()) + pieces.last()
    }
}

/// The texts of a sequence of spans, in order.
pub open spec fn texts(spans: Seq<SpanView>) -> Seq<Seq<char>> {
    spans.map_values(|span: SpanView| span.text)
}

/// The text of a layout without any styling.
pub open spec fn plain_text(spans: Seq<SpanView>) -> Seq<char> {
    concat(texts(spans))
}

/// Whether `pieces` can be the written forms of `spans`, one piece for each
/// span. An unstyled span is written as its own text, and so is every span
/// when styling is off; how a styled span is painted is left to the terminal
/// styling in use.
pub open spec fn is_painting(spans: Seq<SpanView>, pieces: Seq<Seq<char>>, styled: bool) -> bool {
    &&& pieces.len() == spans.len()
    &&& forall|i: int|
        0 <= i < spans.len() && (!styled || spans[i].tone == Tone::Plain) ==> #[trigger] pieces[i]
            == spans[i].text
}

/// Paints a text bold blue with `colored`, through `Colorize::blue` and
/// `Colorize::bold`.
///
/// Trusted, with nothing claimed of the result: whether escape sequences are
/// added depends on the color settings of the process.
#[verifier::external_body]
fn paint_accent(text: &str) -> String {
    colored::Colorize::bold(colored::Colorize::blue(text)).to_string()
}

/// Paints a text dimmed with `colored`, through `Colorize::dimmed`.
///
/// Trusted, with nothing claimed of the result: whether escape sequences are
/// added depends on the color settings of the process.
#[verifier::external_body]
fn paint_muted(text: &str) -> String {
    colored::Colorize::dimmed(text).to_string()
}

fn push_span(result: &mut Vec<Span>, tone: Tone, text: &str)
    ensures
        span_views(final(result)@) == span_views(old(result)@).push(SpanView { tone, text: text@ }),
{
    let span = Span { tone, text: String::from_str(text) };
    result.push(span);
    assert(span_views(result@) =~= span_views(old(result)@).push(
        SpanView { tone, text: text@ },
    ));
}

fn append_spans(result: &mut Vec<Span>, spans: &Vec<Span>)
    ensures
        span_views(final(result)@) == span_views(old(result)@) + span_views(spans@),
{
    let mut i: usize = 0;
    assert(span_views(result@) =~= span_views(old(result)@) + span_views(spans@).take(0));
    while i < spans.len()
        invariant
            i <= spans.len(),
            span_views(result@) == span_views(old(result)@) + span_views(spans@).take(i as int),
        decreases spans.len() - i,
    {
        let ghost before = span_views(result@);
        let copy = Span { tone: spans[i].tone, text: spans[i].text.clone() };
        result.push(copy);
        assert(span_views(result@) =~= before.push(spans[i as int]@));
        assert(span_views(spans@).take(i + 1) =~= span_views(spans@).take(i as int).push(
            spans[i as int]@,
        ));
        i += 1;
    }
    assert(span_views(spans@).take(i as int) =~= span_views(spans@));
}

fn deeper_indent(ident: &Vec<Span>, last: bool) -> (r: Vec<Span>)
    ensures
        span_views(r@) == deeper(span_views(ident@), last),
{
    let mut r: Vec<Span> = Vec::new();
    assert(span_views(r@) =~= Seq::empty());
    append_spans(&mut r, ident);
    push_span(
        &mut r,
        Tone::Accent,
        if last {
            " "
        } else {
            "│"
        },
    );
    push_span(&mut r, Tone::Plain, "  ");
    assert(span_views(r@) =~= deeper(span_views(ident@), last));
    r
}

impl PrGraph {
    fn write_edge(&self, head: &str, base: &str, last: bool, ident: &Vec<Span>, result: &mut Vec<Span>)
        ensures
            span_views(final(result)@) == span_views(old(result)@) + self@.edge_line(
                head@,
                base@,
                last,
                span_views(ident@),
            ),
    {
        append_spans(result, ident);
        match self.get_pr(head, base) {
            Some(pr) => {
                let mut number = String::from_str("[#");
                number.append(decimal_text(pr.number as u64).as_str());
                number.append("]");
                push_span(
                    result,
                    Tone::Accent,
                    if last {
                        "└──○"
                    } else {
                        "├──○"
                    },
                );
                push_span(result, Tone::Plain, " ");
                push_span(result, Tone::Muted, number.as_str());
                push_span(result, Tone::Plain, " ");
                push_span(result, Tone::Plain, head);
                push_span(result, Tone::Plain, " - ");
                match &pr.title {
                    Some(title) => {
                        push_span(result, Tone::Muted, title.as_str());
                    },
                    None => {
                        proof {
                            reveal_strlit("");
                        }
                        assert(""@ =~= Seq::<char>::empty());
                        push_span(result, Tone::Muted, "");
                    },
                }
                push_span(result, Tone::Plain, "\n");
                assert(span_views(result@) =~= span_views(old(result)@) + self@.edge_line(
                    head@,
                    base@,
                    last,
                    span_views(ident@),
                ));
            },
            None => {
                push_span(result, Tone::Plain, "  ");
                push_span(result, Tone::Plain, head);
                push_span(result, Tone::Plain, "\n");
                assert(span_views(result@) =~= span_views(old(result)@) + self@.edge_line(
                    head@,
                    base@,
                    last,
                    span_views(ident@),
                ));
            },
        }
    }

    /// Walks the graph depth first from `node` and appends what the walk
    /// writes to `result`.
    ///
    /// `visited` holds the branches that earlier walks have seen; a branch
    /// among them writes nothing. Every branch that this walk reaches is added
    /// to it. `ident` is the indentation of the lines for the children of
    /// `node`.
    fn dfs_print(
        &self,
        node: &str,
        visited: &mut StringHashMap<bool>,
        ident: &Vec<Span>,
        result: &mut Vec<Span>,
    )
        ensures
            ({
                let walk = self@.walk(node@, old(visited)@.dom(), span_views(ident@));
                &&& final(visited)@.dom() == walk.seen
                &&& old(visited)@.dom().subset_of(final(visited)@.dom())
                &&& span_views(final(result)@) == span_views(old(result)@) + walk.spans
            }),
        decreases self@.unseen(old(visited)@.dom()),
    {
        let ghost graph = self@;
        let ghost seen = visited@.dom();
        let ghost indent = span_views(ident@);
        let ghost written = span_views(result@);
        proof {
            self.lemma_finite();
        }
        if visited.contains_key(node) {
            assert(written + Seq::<SpanView>::empty() =~= written);
            return ;
        }
        visited.insert(String::from_str(node), true);
        assert(visited@.dom() =~= seen.insert(node@));
        match self.heads_on(node) {
            None => {
                assert(written + Seq::<SpanView>::empty() =~= written);
            },
            Some(heads) => {
                let ghost all = names(heads@);
                let ghost total = graph.walk_heads(node@, all, 0, seen.insert(node@), indent);
                let ghost mut emitted: Seq<SpanView> = Seq::empty();
                proof {
                    lemma_unseen_less(graph, seen, node@);
                    assert(written + emitted =~= written);
                    assert(emitted + total.spans =~= total.spans);
                }
                let count = heads.len();
                let mut i: usize = 0;
                while i < count
                    invariant
                        i <= count,
                        count == heads.len(),
                        graph == self@,
                        graph.children.dom().finite(),
                        seen == old(visited)@.dom(),
                        all == names(heads@),
                        indent == span_views(ident@),
                        seen.insert(node@).subset_of(visited@.dom()),
                        graph.unseen(visited@.dom()) < graph.unseen(seen),
                        span_views(result@) == written + emitted,
                        total.spans == emitted + graph.walk_heads(
                            node@,
                            all,
                            i as int,
                            visited@.dom(),
                            indent,
                        ).spans,
                        total.seen == graph.walk_heads(
                            node@,
                            all,
                            i as int,
                            visited@.dom(),
                            indent,
                        ).seen,
                    decreases count - i,
                {
                    let last = i == count - 1;
                    let head = heads[i].as_str();
                    let ghost current = visited@.dom();
                    let ghost line = graph.edge_line(head@, node@, last, indent);
                    let ghost below = graph.walk(head@, current, deeper(indent, last));
                    let ghost rest = graph.walk_heads(
                        node@,
                        all,
                        i + 1,
                        current.union(below.seen),
                        indent,
                    );
                    assert(all[i as int] == head@);
                    self.write_edge(head, node, last, ident, result);
                    let inner = deeper_indent(ident, last);
                    self.dfs_print(head, visited, &inner, result);
                    proof {
                        assert(current.union(below.seen) =~= below.seen);
                        lemma_unseen_more(graph, current, below.seen);
                        assert(span_views(result@) =~= written + (emitted + line + below.spans));
                        assert(emitted + (line + below.spans + rest.spans) =~= (emitted + line
                            + below.spans) + rest.spans);
                        emitted = emitted + line + below.spans;
                    }
                    i += 1;
                }
                proof {
                    assert(emitted + Seq::<SpanView>::empty() =~= emitted);
                }
            },
        }
    }

    /// Lays the graph out as spans: the header, then for every starting node
    /// its line, the tree below it, and a blank line.
    pub fn layout(&self) -> (spans: Vec<Span>)
        ensures
            span_views(spans@) == self@.layout(),
    {
        let roots = self.get_starting_nodes();
        let ghost graph = self@;
        let ghost all = names(roots@);
        let ghost total = graph.forest(all, 0, Set::empty());
        let ghost mut emitted: Seq<SpanView> = Seq::empty();
        let mut visited: StringHashMap<bool> = StringHashMap::new();
        let mut result: Vec<Span> = Vec::new();
        let ident: Vec<Span> = Vec::new();
        assert(span_views(result@) =~= Seq::empty());
        push_span(&mut result, Tone::Plain, "Pull Request Graph\n\n");
        let ghost header = span_views(result@);
        assert(header =~= seq![plain("Pull Request Graph\n\n"@)]);
        assert(span_views(ident@) =~= Seq::empty());
        assert(visited@.dom() =~= Set::empty());
        assert(header + emitted =~= header);
        assert(emitted + total.spans =~= total.spans);
        let mut i: usize = 0;
        while i < roots.len()
            invariant
                i <= roots.len(),
                graph == self@,
                all == names(roots@),
                span_views(ident@) == Seq::<SpanView>::empty(),
                span_views(result@) == header + emitted,
                total.spans == emitted + graph.forest(all, i as int, visited@.dom()).spans,
            decreases roots.len() - i,
        {
            let root = roots[i].as_str();
            let ghost current = visited@.dom();
            let ghost below = graph.walk(root@, current, Seq::empty());
            let ghost rest = graph.forest(all, i + 1, below.seen);
            assert(all[i as int] == root@);
            push_span(&mut result, Tone::Accent, "┌");
            push_span(&mut result, Tone::Plain, " ");
            push_span(&mut result, Tone::Accent, root);
            push_span(&mut result, Tone::Plain, "\n");
            self.dfs_print(root, &mut visited, &ident, &mut result);
            push_span(&mut result, Tone::Plain, "\n");
            proof {
                let segment = root_line(root@) + below.spans + seq![plain("\n"@)];
                assert(span_views(result@) =~= header + (emitted + segment));
                assert(emitted + (segment + rest.spans) =~= (emitted + segment) + rest.spans);
                emitted = emitted + segment;
            }
            i += 1;
        }
        proof {
            assert(emitted + Seq::<SpanView>::empty() =~= emitted);
        }
        result
    }

    /// Writes the layout of the graph as text.
    ///
    /// Without color the result is the plain text of the layout. With color,
    /// the spans of the structure and of the annotations are painted as the
    /// terminal styling of the process decides, and the unstyled spans are
    /// written as they are.
    pub fn render(&self, enable_color: bool) -> (text: String)
        ensures
            !enable_color ==> text@ == plain_text(self@.layout()),
            exists|pieces: Seq<Seq<char>>|
                is_painting(self@.layout(), pieces, enable_color) && text@ == concat(pieces),
    {
        let spans = self.layout();
        let ghost views = span_views(spans@);
        let ghost mut pieces: Seq<Seq<char>> = Seq::empty();
        let mut text = String::new();
        let mut i: usize = 0;
        assert(texts(views).take(0) =~= pieces);
        while i < spans.len()
            invariant
                i <= spans.len(),
                views == span_views(spans@),
                pieces.len() == i,
                text@ == concat(pieces),
                !enable_color ==> pieces == texts(views).take(i as int),
                forall|k: int|
                    0 <= k < i && (!enable_color || views[k].tone == Tone::Plain)
                        ==> #[trigger] pieces[k] == views[k].text,
            decreases spans.len() - i,
        {
            let span = &spans[i];
            let piece = if !enable_color {
                span.text.clone()
            } else {
                match span.tone {
                    Tone::Plain => span.text.clone(),
                    Tone::Accent => paint_accent(span.text.as_str()),
                    Tone::Muted => paint_muted(span.text.as_str()),
                }
            };
            text.append(piece.as_str());
            proof {
                let longer = pieces.push(piece@);
                assert(longer.drop_last() =~= pieces);
                assert(views[i as int] == span@);
                if !enable_color {
                    assert(longer =~= texts(views).take(i + 1));
                }
                pieces = longer;
            }
            i += 1;
        }
        proof {
            assert(texts(views).take(i as int) =~= texts(views));
            assert(is_painting(views, pieces, enable_color));
        }
        text
    }

    /// Writes the graph as a tree for the terminal, styled as the color
    /// settings of the process allow.
    pub fn format(&self) -> (text: String)
        ensures
            exists|pieces: Seq<Seq<char>>|
                is_painting(self@.layout(), pieces, true) && text@ == concat(pieces),
    {
        self.render(true)
    }
}

/// A walk only adds to the branches seen, and the branch it starts from is
/// among them afterwards.
pub proof fn lemma_walk_grows(
    graph: GraphView,
    node: Seq<char>,
    seen: Set<Seq<char>>,
    indent: Seq<SpanView>,
)
    requires
        graph.children.dom().finite(),
    ensures
        seen.subset_of(graph.walk(node, seen, indent).seen),
        graph.walk(node, seen, indent).seen.contains(node),
    decreases graph.unseen(seen), 0nat, 0nat,
{
    if !seen.contains(node) && graph.children.contains_key(node) {
        lemma_unseen_less(graph, seen, node);
        lemma_walk_heads_grows(graph, node, graph.children[node], 0, seen.insert(node), indent);
    }
}

/// Writing the edges to some children, with the walks below them, only adds
/// to the branches seen.
pub proof fn lemma_walk_heads_grows(
    graph: GraphView,
    base: Seq<char>,
    heads: Seq<Seq<char>>,
    from: int,
    seen: Set<Seq<char>>,
    indent: Seq<SpanView>,
)
    requires
        graph.children.dom().finite(),
    ensures
        seen.subset_of(graph.walk_heads(base, heads, from, seen, indent).seen),
    decreases graph.unseen(seen), 1nat, heads.len() - from,
{
    if 0 <= from < heads.len() {
        let last = from == heads.len() - 1;
        let below = graph.walk(heads[from], seen, deeper(indent, last));
        lemma_walk_grows(graph, heads[from], seen, deeper(indent, last));
        lemma_unseen_more(graph, seen, below.seen);
        lemma_walk_heads_grows(graph, base, heads, from + 1, seen.union(below.seen), indent);
    }
}

/// A branch is expanded once: after a walk from a branch, a further walk
/// from it, under whatever parent and at whatever depth, writes nothing and
/// sees nothing new. So a branch with two parents has its subtree under the
/// first of them only, and a cycle ends where it closes.
pub proof fn lemma_walked_once(
    graph: GraphView,
    node: Seq<char>,
    seen: Set<Seq<char>>,
    indent: Seq<SpanView>,
    again: Seq<SpanView>,
)
    requires
        graph.children.dom().finite(),
    ensures
        ({
            let first = graph.walk(node, seen, indent);
            let second = graph.walk(node, first.seen, again);
            second.spans == Seq::<SpanView>::empty() && second.seen == first.seen
        }),
{
    lemma_walk_grows(graph, node, seen, indent);
}

/// The layout is a function of the content of the graph: graphs with the
/// same content have the same layout and the same plain text, however often
/// they are laid out.
pub proof fn lemma_layout_repeatable(first: &PrGraph, second: &PrGraph)
    requires
        first@ == second@,
    ensures
        first@.layout() == second@.layout(),
        plain_text(first@.layout()) == plain_text(second@.layout()),
{
}

/// A pull request without a title is written like one whose title is empty.
pub proof fn lemma_absent_title_is_empty(
    graph: GraphView,
    head: Seq<char>,
    base: Seq<char>,
    last: bool,
    indent: Seq<SpanView>,
)
    requires
        graph.lookup(head, base) matches Some(pr) && pr.title is None,
    ensures
        ({
            let pr = graph.index[(head, base)];
            let titled = PrView { title: Some(Seq::empty()), ..pr };
            let other = GraphView { index: graph.index.insert((head, base), titled), ..graph };
            graph.edge_line(head, base, last, indent) == other.edge_line(head, base, last, indent)
        }),
{
}

/// What there is to show for a list of pull requests.
#[derive(Debug)]
pub enum Report {
    /// The list is empty: there is no tree to draw.
    NoPrsFound,
    /// The tree of the pull requests, as text.
    Tree(String),
}

impl Report {
    /// The text to show.
    pub fn into_text(self) -> (text: String)
        ensures
            match self {
                Report::NoPrsFound => text@ == "No PRs found"@,
                Report::Tree(tree) => text@ == tree@,
            },
    {
        match self {
            Report::NoPrsFound => String::from_str("No PRs found"),
            Report::Tree(tree) => tree,
        }
    }
}

/// Reports on a list of pull requests: an empty list is reported as such and
/// no graph is built for it; any other list is rendered as the tree of its
/// graph.
pub fn report(prs: Vec<Pr>, enable_color: bool) -> (r: Report)
    ensures
        prs@.len() == 0 <==> r is NoPrsFound,
        r matches Report::Tree(text) ==> {
            let layout = GraphView::build(pr_views(prs@)).layout();
            &&& !enable_color ==> text@ == plain_text(layout)
            &&& exists|pieces: Seq<Seq<char>>|
                is_painting(layout, pieces, enable_color) && text@ == concat(pieces)
        },
{
    if prs.len() == 0 {
        Report::NoPrsFound
    } else {
        let graph = PrGraph::new(prs);
        Report::Tree(graph.render(enable_color))
    }
}

} // verus!
