//! Graphs of filters.
use vstd::prelude::*;

use crate::common::media_type::MediaType;
use crate::common::rational::Rational;

verus! {

/// What flows over a link.
#[derive(Debug, Clone)]
pub struct FilterLinkConfig {
    pub media_type: MediaType,
    pub time_base: Rational,
}

/// A link from a pad of one node to a pad of another.
#[derive(Debug)]
pub struct FilterLink {
    pub src_node: usize,
    pub src_pad: usize,
    pub dst_node: usize,
    pub dst_pad: usize,
    pub config: FilterLinkConfig,
}

/// A filter in a graph.
pub struct FilterNode<F> {
    pub name: String,
    pub filter: F,
    /// Links that lead to it.
    pub input_links: Vec<usize>,
    /// Links that start from it.
    pub output_links: Vec<usize>,
}

/// Filters and the links between them.
pub struct FilterGraph<F> {
    nodes: Vec<FilterNode<F>>,
    links: Vec<FilterLink>,
}

/// The first `n` links that start from a node, in their order.
pub open spec fn links_from(links: Seq<FilterLink>, node: int, n: nat) -> Seq<usize>
    decreases n,
{
    if n == 0 {
        Seq::empty()
    } else {
        let rest = links_from(links, node, (n - 1) as nat);
        if links[n - 1].src_node == node {
            rest.push((n - 1) as usize)
        } else {
            rest
        }
    }
}

/// The first `n` links that lead to a node, in their order.
pub open spec fn links_to(links: Seq<FilterLink>, node: int, n: nat) -> Seq<usize>
    decreases n,
{
    if n == 0 {
        Seq::empty()
    } else {
        let rest = links_to(links, node, (n - 1) as nat);
        if links[n - 1].dst_node == node {
            rest.push((n - 1) as usize)
        } else {
            rest
        }
    }
}

/// Whether links and nodes agree: every link joins nodes that exist, and each node lists its links.
pub open spec fn graph_wf<F>(nodes: Seq<FilterNode<F>>, links: Seq<FilterLink>) -> bool {
    &&& forall|i: int|
        0 <= i < links.len() ==> (#[trigger] links[i]).src_node < nodes.len() && links[i].dst_node
            < nodes.len()
    &&& forall|k: int|
        0 <= k < nodes.len() ==> (#[trigger] nodes[k]).output_links@ == links_from(
            links,
            k,
            links.len(),
        ) && nodes[k].input_links@ == links_to(links, k, links.len())
}

proof fn lemma_links_same(a: Seq<FilterLink>, b: Seq<FilterLink>, node: int, n: nat)
    requires
        n <= a.len(),
        n <= b.len(),
        forall|i: int| 0 <= i < n ==> (#[trigger] a[i]) == b[i],
    ensures
        links_from(a, node, n) == links_from(b, node, n),
        links_to(a, node, n) == links_to(b, node, n),
    decreases n,
{
    if n > 0 {
        lemma_links_same(a, b, node, (n - 1) as nat);
    }
}

proof fn lemma_no_links_outside(links: Seq<FilterLink>, node: int, n: nat)
    requires
        n <= links.len(),
        forall|i: int|
            0 <= i < links.len() ==> (#[trigger] links[i]).src_node < node && links[i].dst_node
                < node,
    ensures
        links_from(links, node, n) == Seq::<usize>::empty(),
        links_to(links, node, n) == Seq::<usize>::empty(),
    decreases n,
{
    if n > 0 {
        lemma_no_links_outside(links, node, (n - 1) as nat);
    }
}

impl<F> FilterGraph<F> {
    /// The nodes.
    pub closed spec fn node_seq(&self) -> Seq<FilterNode<F>> {
        self.nodes@
    }

    /// The links.
    pub closed spec fn link_seq(&self) -> Seq<FilterLink> {
        self.links@
    }

    /// Whether links and nodes agree.
    pub open spec fn wf(&self) -> bool {
        graph_wf(self.node_seq(), self.link_seq())
    }

    /// A graph without nodes.
    pub fn new() -> (r: FilterGraph<F>)
        ensures
            r.wf(),
            r.node_seq().len() == 0,
            r.link_seq().len() == 0,
    {
        FilterGraph { nodes: Vec::new(), links: Vec::new() }
    }

    /// Adds a node without links, and returns its place.
    pub fn add_node(&mut self, name: String, filter: F) -> (r: usize)
        requires
            old(self).wf(),
        ensures
            final(self).wf(),
            r == old(self).node_seq().len(),
            final(self).link_seq() == old(self).link_seq(),
            final(self).node_seq().len() == r + 1,
            final(self).node_seq().drop_last() == old(self).node_seq(),
            ({
                let n = final(self).node_seq().last();
                n.name == name && n.filter == filter && n.input_links@.len() == 0
                    && n.output_links@.len() == 0
            }),
    {
        let index: usize = self.nodes.len();
        let ghost nodes = self.nodes@;
        self.nodes.push(
            FilterNode { name, filter, input_links: Vec::new(), output_links: Vec::new() },
        );
        proof {
            lemma_no_links_outside(self.links@, nodes.len() as int, self.links@.len());
            assert(self.nodes@.drop_last() =~= nodes);
            assert(self.nodes@.last().output_links@ =~= Seq::<usize>::empty());
            assert(self.nodes@.last().input_links@ =~= Seq::<usize>::empty());
            assert forall|k: int| 0 <= k < self.nodes@.len() implies (
            #[trigger] self.nodes@[k]).output_links@ == links_from(
                self.links@,
                k,
                self.links@.len(),
            ) && self.nodes@[k].input_links@ == links_to(self.links@, k, self.links@.len()) by {
                if k < nodes.len() {
                    assert(self.nodes@[k] == nodes[k]);
                }
            }
        }
        index
    }

    /// Adds a link between two nodes, and returns its place.
    pub fn add_link(
        &mut self,
        src_node: usize,
        src_pad: usize,
        dst_node: usize,
        dst_pad: usize,
        config: FilterLinkConfig,
    ) -> (r: usize)
        requires
            old(self).wf(),
            src_node < old(self).node_seq().len(),
            dst_node < old(self).node_seq().len(),
        ensures
            final(self).wf(),
            r == old(self).link_seq().len(),
            final(self).link_seq() == old(self).link_seq().push(
                FilterLink { src_node, src_pad, dst_node, dst_pad, config },
            ),
            final(self).node_seq().len() == old(self).node_seq().len(),
            forall|k: int|
                0 <= k < old(self).node_seq().len() ==> (#[trigger] final(self).node_seq()[k]).name
                    == old(self).node_seq()[k].name && final(self).node_seq()[k].filter
                    == old(self).node_seq()[k].filter,
    {
        let index: usize = self.links.len();
        let ghost links = self.links@;
        let ghost nodes = self.nodes@;
        self.links.push(FilterLink { src_node, src_pad, dst_node, dst_pad, config });
        self.nodes[src_node].output_links.push(index);
        self.nodes[dst_node].input_links.push(index);
        proof {
            let n = links.len();
            assert forall|k: int| 0 <= k < nodes.len() implies (
            #[trigger] self.nodes@[k]).output_links@ == links_from(self.links@, k, n + 1)
                && self.nodes@[k].input_links@ == links_to(self.links@, k, n + 1) by {
                lemma_links_same(links, self.links@, k, n);
                assert(nodes[k].output_links@ == links_from(links, k, n));
                assert(nodes[k].input_links@ == links_to(links, k, n));
            }
        }
        index
    }

    /// Number of nodes.
    pub fn nb_nodes(&self) -> (r: usize)
        ensures
            r == self.node_seq().len(),
    {
        self.nodes.len()
    }

    /// Number of links.
    pub fn nb_links(&self) -> (r: usize)
        ensures
            r == self.link_seq().len(),
    {
        self.links.len()
    }
}

impl<F> Default for FilterGraph<F> {
    fn default() -> (r: FilterGraph<F>)
        ensures
            r.wf(),
            r.node_seq().len() == 0,
            r.link_seq().len() == 0,
    {
        FilterGraph::new()
    }
}

} // verus!
