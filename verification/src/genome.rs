//! The genome: a weighted directed graph over input, hidden and output nodes.

use crate::random::{draw_u32, draw_u64};
use crate::storage::{
    can_store_square, cells, lemma_storable_fits, lemma_storable_less, rectangular, storable,
    with_column, with_row, zero_matrix, WeightMatrix, ONE, ZERO,
};
use rand::rngs::StdRng;
use vstd::prelude::*;

verus! {

/// What a genome is: its square weight matrix and its fixed numbers of input
/// and output nodes.
///
/// Nodes are told apart by position. The first `n_in` are inputs, the last
/// `n_out` are outputs, and those between are hidden. `weights[r][c]` is the
/// weight of the edge at row `r`, column `c`.
pub struct GenomeView {
    pub weights: Seq<Seq<u32>>,
    pub n_in: nat,
    pub n_out: nat,
}

impl GenomeView {
    /// Number of nodes.
    pub open spec fn size(self) -> nat {
        self.weights.len()
    }

    /// Number of hidden nodes.
    pub open spec fn hidden(self) -> int {
        self.size() - self.n_in - self.n_out
    }

    /// The matrix is square and fits the machine, there is at least one node,
    /// and every input and output node has its place.
    pub open spec fn wf(self) -> bool {
        &&& rectangular(self.weights, self.size())
        &&& storable(self.size(), self.size())
        &&& self.n_in + self.n_out >= 1
        &&& self.size() >= self.n_in + self.n_out
    }

    /// The genome of `n_in` inputs and `n_out` outputs that has no hidden
    /// node and no connection.
    pub open spec fn blank(n_in: nat, n_out: nat) -> GenomeView {
        GenomeView { weights: zero_matrix(n_in + n_out), n_in, n_out }
    }

    /// Whether the machine can hold the genome with one more node.
    pub open spec fn can_grow(self) -> bool {
        storable(self.size() + 1, self.size() + 1)
    }

    /// Index of the first output node, which is where a new hidden node goes.
    pub open spec fn first_output(self) -> int {
        self.size() - self.n_out
    }

    /// The genome with the weight at (`row`, `col`) replaced by `weight`.
    pub open spec fn with_weight(self, row: int, col: int, weight: u32) -> GenomeView {
        GenomeView {
            weights: self.weights.update(row, self.weights[row].update(col, weight)),
            ..self
        }
    }

    /// Where the node at `index` stands once a hidden node has been inserted
    /// in front of the outputs.
    pub open spec fn moved(self, index: int) -> int {
        if index < self.first_output() {
            index
        } else {
            index + 1
        }
    }

    /// Where the node at `index` of the grown genome stood before the
    /// insertion. Meaningful for every index but that of the new node.
    pub open spec fn origin(self, index: int) -> int {
        if index < self.first_output() {
            index
        } else {
            index - 1
        }
    }

    /// The genome with the edge at (`row`, `col`) split by a new hidden node.
    ///
    /// The new node takes the index in front of the outputs. The split edge
    /// falls to zero, the edge at (`row`, new node) is one, and the edge at
    /// (new node, `col`) carries the weight the split edge had. Every other
    /// edge keeps its weight between the same two nodes, and the new node has
    /// no other edge.
    pub open spec fn with_node(self, row: int, col: int) -> GenomeView {
        let node = self.first_output();
        GenomeView {
            weights: Seq::new(
                self.size() + 1,
                |r: int|
                    Seq::new(
                        self.size() + 1,
                        |c: int|
                            if r == node && c == node {
                                ZERO
                            } else if r == node {
                                if c == self.moved(col) {
                                    self.weights[row][col]
                                } else {
                                    ZERO
                                }
                            } else if c == node {
                                if r == self.moved(row) {
                                    ONE
                                } else {
                                    ZERO
                                }
                            } else if self.origin(r) == row && self.origin(c) == col {
                                ZERO
                            } else {
                                self.weights[self.origin(r)][self.origin(c)]
                            },
                    ),
            ),
            ..self
        }
    }
}

/// The index that a draw selects among `size` nodes: the draw modulo `size`.
pub open spec fn picked(draw: u64, size: nat) -> int {
    draw as int % size as int
}

/// Whether `child` is `parent` with the edge at (`row`, `col`) perturbed: that
/// edge has a weight that `perturb` gave for its old weight, `strength` and
/// `draw`, and nothing else differs.
pub open spec fn edge_perturbed<F: Fn(u32, u32, u32) -> u32>(
    parent: GenomeView,
    child: GenomeView,
    row: int,
    col: int,
    strength: u32,
    draw: u32,
    perturb: F,
) -> bool {
    exists|weight: u32|
        {
            &&& #[trigger] call_ensures(
                perturb,
                (parent.weights[row][col], strength, draw),
                weight,
            )
            &&& child == parent.with_weight(row, col, weight)
        }
}

/// Whether `child` is `parent` after one edge mutation: some one edge has been
/// perturbed, with some draw.
pub open spec fn edge_mutated<F: Fn(u32, u32, u32) -> u32>(
    parent: GenomeView,
    child: GenomeView,
    strength: u32,
    perturb: F,
) -> bool {
    exists|row: int, col: int, draw: u32|
        {
            &&& 0 <= row < parent.size()
            &&& 0 <= col < parent.size()
            &&& #[trigger] edge_perturbed(parent, child, row, col, strength, draw, perturb)
        }
}

/// Whether `child` has the weights of `parent` everywhere but, possibly, at
/// (`row`, `col`).
pub open spec fn same_but_at(parent: GenomeView, child: GenomeView, row: int, col: int) -> bool {
    forall|r: int, c: int|
        0 <= r < parent.size() && 0 <= c < parent.size() && !(r == row && c == col)
            ==> #[trigger] child.weights[r][c] == parent.weights[r][c]
}

/// Whether `child` is `parent` after one node mutation: some one edge has been
/// split by a new hidden node.
pub open spec fn node_mutated(parent: GenomeView, child: GenomeView) -> bool {
    exists|row: int, col: int|
        {
            &&& 0 <= row < parent.size()
            &&& 0 <= col < parent.size()
            &&& child == #[trigger] parent.with_node(row, col)
        }
}

/// An evolvable recurrent network.
pub struct Genome {
    pub network: WeightMatrix,
    pub n_in: usize,
    pub n_out: usize,
}

impl View for Genome {
    type V = GenomeView;

    open spec fn view(&self) -> GenomeView {
        GenomeView {
            weights: cells(self.network),
            n_in: self.n_in as nat,
            n_out: self.n_out as nat,
        }
    }
}

impl Clone for Genome {
    fn clone(&self) -> (copy: Genome)
        ensures
            copy@ == self@,
    {
        Genome { network: self.network.duplicate(), n_in: self.n_in, n_out: self.n_out }
    }
}

impl Genome {
    /// Whether the genome is well formed.
    pub open spec fn wf(&self) -> bool {
        self@.wf()
    }

    /// Whether the machine can hold the genome with one more node.
    pub open spec fn can_grow(&self) -> bool {
        self@.can_grow()
    }

    /// A genome of `N_IN` input and `N_OUT` output nodes, no hidden node, and
    /// every weight zero.
    #[must_use]
    pub fn new<const N_IN: usize, const N_OUT: usize>() -> (genome: Genome)
        requires
            N_IN + N_OUT >= 1,
            storable((N_IN + N_OUT) as nat, (N_IN + N_OUT) as nat),
        ensures
            genome.wf(),
            genome@ == GenomeView::blank(N_IN as nat, N_OUT as nat),
    {
        proof {
            lemma_storable_fits((N_IN + N_OUT) as nat);
        }
        Genome { network: WeightMatrix::zeros(N_IN + N_OUT), n_in: N_IN, n_out: N_OUT }
    }

    /// Decides whether the machine can hold the genome with one more node.
    pub fn has_room(&self) -> (ok: bool)
        requires
            self.wf(),
        ensures
            ok == self.can_grow(),
    {
        let size = self.network.nrows();
        if size == usize::MAX {
            assert((size + 1) * (size + 1) * 4 > isize::MAX) by (nonlinear_arith)
                requires
                    size >= isize::MAX,
            ;
            false
        } else {
            can_store_square(size + 1)
        }
    }

    /// Number of nodes.
    #[must_use]
    pub fn size(&self) -> (n: usize)
        requires
            self.wf(),
        ensures
            n == self@.size(),
            n >= self.n_in + self.n_out,
    {
        self.network.nrows()
    }

    /// Number of hidden nodes.
    #[must_use]
    pub fn nodes(&self) -> (n: usize)
        requires
            self.wf(),
        ensures
            n == self@.hidden(),
    {
        self.network.nrows() - self.n_in - self.n_out
    }

    /// The weight of the edge at (`row`, `col`).
    pub fn weight(&self, row: usize, col: usize) -> (weight: u32)
        requires
            self.wf(),
            row < self@.size(),
            col < self@.size(),
        ensures
            weight == self@.weights[row as int][col as int],
    {
        self.network.get(row, col)
    }

    /// All weights, row by row.
    pub fn rows(&self) -> (rows: Vec<Vec<u32>>)
        requires
            self.wf(),
        ensures
            rows.deep_view() == self@.weights,
    {
        let size = self.network.nrows();
        let mut rows: Vec<Vec<u32>> = Vec::new();
        let mut r: usize = 0;
        while r < size
            invariant
                r <= size,
                size == self@.size(),
                self.wf(),
                rows.len() == r,
                forall|k: int| 0 <= k < r ==> (#[trigger] rows@[k])@ == self@.weights[k],
            decreases size - r,
        {
            let mut row: Vec<u32> = Vec::new();
            let mut c: usize = 0;
            while c < size
                invariant
                    c <= size,
                    r < size,
                    size == self@.size(),
                    self.wf(),
                    row@ == self@.weights[r as int].subrange(0, c as int),
                decreases size - c,
            {
                row.push(self.network.get(r, c));
                assert(row@ =~= self@.weights[r as int].subrange(0, c + 1));
                c += 1;
            }
            assert(row@ =~= self@.weights[r as int]);
            rows.push(row);
            r += 1;
        }
        assert(rows.deep_view() =~~= self@.weights);
        rows
    }

    /// A copy of the genome in which the edge at (`row`, `col`) has the given
    /// weight.
    #[must_use]
    pub fn with_weight(&self, row: usize, col: usize, weight: u32) -> (child: Genome)
        requires
            self.wf(),
            row < self@.size(),
            col < self@.size(),
        ensures
            child.wf(),
            child@ == self@.with_weight(row as int, col as int, weight),
    {
        let mut network = self.network.duplicate();
        network.set(row, col, weight);
        Genome { network, n_in: self.n_in, n_out: self.n_out }
    }

    /// The cell that two draws select: each draw is reduced modulo the number
    /// of nodes.
    pub fn cell_from(&self, first: u64, second: u64) -> (cell: (usize, usize))
        requires
            self.wf(),
        ensures
            cell.0 == picked(first, self@.size()),
            cell.1 == picked(second, self@.size()),
            cell.0 < self@.size(),
            cell.1 < self@.size(),
    {
        let size = self.network.nrows() as u64;
        ((first % size) as usize, (second % size) as usize)
    }

    /// A cell of the matrix picked by two draws from `rng`.
    #[must_use]
    fn random_idx(&self, rng: &mut StdRng) -> (cell: (usize, usize))
        requires
            self.wf(),
        ensures
            cell.0 < self@.size(),
            cell.1 < self@.size(),
    {
        let first = draw_u64(rng);
        let second = draw_u64(rng);
        self.cell_from(first, second)
    }

    /// A copy of the genome with the edge at (`row`, `col`) perturbed.
    ///
    /// `perturb` is handed the old weight, `strength` and `draw`, 32 random
    /// bits, and returns the new weight.
    #[must_use]
    pub fn perturb_edge<F: Fn(u32, u32, u32) -> u32>(
        &self,
        row: usize,
        col: usize,
        strength: u32,
        draw: u32,
        perturb: &F,
    ) -> (child: Genome)
        requires
            self.wf(),
            row < self@.size(),
            col < self@.size(),
            forall|weight: u32| call_requires(*perturb, (weight, strength, draw)),
        ensures
            child.wf(),
            edge_perturbed(self@, child@, row as int, col as int, strength, draw, *perturb),
    {
        let old_weight = self.weight(row, col);
        let weight = perturb(old_weight, strength, draw);
        let child = self.with_weight(row, col, weight);
        assert(call_ensures(
            *perturb,
            (self@.weights[row as int][col as int], strength, draw),
            weight,
        ));
        child
    }

    /// A copy of the genome with one edge, picked by `rng`, perturbed.
    ///
    /// Two 64-bit draws pick the edge, and 32 more random bits go to
    /// `perturb`.
    #[must_use]
    pub fn mutate_edge<F: Fn(u32, u32, u32) -> u32>(
        &self,
        strength: u32,
        rng: &mut StdRng,
        perturb: &F,
    ) -> (child: Genome)
        requires
            self.wf(),
            forall|weight: u32, draw: u32| call_requires(*perturb, (weight, strength, draw)),
        ensures
            child.wf(),
            edge_mutated(self@, child@, strength, *perturb),
    {
        let (row, col) = self.random_idx(rng);
        let draw = draw_u32(rng);
        self.perturb_edge(row, col, strength, draw, perturb)
    }

    /// A copy of the genome with one edge, picked by `rng`, split by a new
    /// hidden node.
    #[must_use]
    pub fn mutate_addnode(&self, rng: &mut StdRng) -> (child: Genome)
        requires
            self.wf(),
            self.can_grow(),
        ensures
            child.wf(),
            node_mutated(self@, child@),
            child@.size() == self@.size() + 1,
            child@.n_in == self@.n_in,
            child@.n_out == self@.n_out,
    {
        let (row, col) = self.random_idx(rng);
        self.split_edge(row, col)
    }

    /// A copy of the genome in which a new hidden node splits the edge at
    /// (`row`, `col`).
    #[must_use]
    pub fn split_edge(&self, row: usize, col: usize) -> (child: Genome)
        requires
            self.wf(),
            self.can_grow(),
            row < self@.size(),
            col < self@.size(),
        ensures
            child.wf(),
            child@ == self@.with_node(row as int, col as int),
    {
        let size = self.network.nrows();
        proof {
            lemma_storable_fits((size + 1) as nat);
            lemma_storable_less(size as nat);
        }
        let node = size - self.n_out;
        let weight = self.network.get(row, col);
        let mut network = self.network.duplicate();
        network.set(row, col, ZERO);
        let taller = network.insert_row(node, ZERO);
        let mut network = taller.insert_column(node, ZERO);
        let moved_row = if row < node { row } else { row + 1 };
        let moved_col = if col < node { col } else { col + 1 };
        network.set(moved_row, node, ONE);
        network.set(node, moved_col, weight);
        proof {
            lemma_split_cells(self@, row as int, col as int);
        }
        Genome { network, n_in: self.n_in, n_out: self.n_out }
    }
}

/// The cells that `with_node` describes are those reached by zeroing the split
/// edge, inserting an empty row and an empty column in front of the outputs,
/// and storing the two new weights.
proof fn lemma_split_cells(g: GenomeView, row: int, col: int)
    requires
        g.wf(),
        0 <= row < g.size(),
        0 <= col < g.size(),
    ensures
        ({
            let node = g.first_output();
            let cleared = g.weights.update(row, g.weights[row].update(col, ZERO));
            let taller = with_row(cleared, node, g.size(), ZERO);
            let wider = with_column(taller, node, ZERO);
            let relayed = wider.update(g.moved(row), wider[g.moved(row)].update(node, ONE));
            let fed = relayed.update(
                node,
                relayed[node].update(g.moved(col), g.weights[row][col]),
            );
            fed == g.with_node(row, col).weights
        }),
{
    let n = g.size() as int;
    let node = g.first_output();
    let cleared = g.weights.update(row, g.weights[row].update(col, ZERO));
    let taller = with_row(cleared, node, g.size(), ZERO);
    let wider = with_column(taller, node, ZERO);
    let relayed = wider.update(g.moved(row), wider[g.moved(row)].update(node, ONE));
    let fed = relayed.update(node, relayed[node].update(g.moved(col), g.weights[row][col]));
    let target = g.with_node(row, col).weights;
    assert(rectangular(cleared, g.size()));
    assert(taller.len() == n + 1);
    assert forall|r: int| 0 <= r < n + 1 implies (#[trigger] taller[r]).len() == n by {
        if r < node {
        } else if r == node {
        } else {
            assert(taller[r] == cleared[r - 1]);
        }
    }
    assert forall|r: int| 0 <= r < n + 1 implies (#[trigger] wider[r]).len() == n + 1 by {
        assert(wider[r] == taller[r].insert(node, ZERO));
    }
    assert forall|r: int| 0 <= r < n + 1 implies #[trigger] fed[r] =~= target[r] by {
        assert(wider[r] == taller[r].insert(node, ZERO));
        assert forall|c: int| 0 <= c < n + 1 implies fed[r][c] == target[r][c] by {
            if r == node {
            } else {
                let from = g.origin(r);
                assert(taller[r] == cleared[from]);
                if c == node {
                } else {
                    assert(wider[r][c] == taller[r][g.origin(c)]);
                }
            }
        }
    }
    assert(fed =~= target);
}

/// A genome has at least as many nodes as it has inputs and outputs, and a
/// node mutation adds exactly one node, hidden, without touching the numbers
/// of inputs and outputs.
pub proof fn lemma_node_mutation_grows_by_one(parent: GenomeView, child: GenomeView)
    requires
        parent.wf(),
        node_mutated(parent, child),
    ensures
        parent.size() >= parent.n_in + parent.n_out,
        child.size() >= child.n_in + child.n_out,
        child.size() == parent.size() + 1,
        child.hidden() == parent.hidden() + 1,
        child.n_in == parent.n_in,
        child.n_out == parent.n_out,
        parent.can_grow() ==> child.wf(),
{
}

/// An edge mutation leaves the shape of the genome alone and changes the
/// weight of at most one edge. That edge gets a weight that `perturb` gave
/// for its old weight and `strength`; every other cell of the child holds the
/// bits that the parent holds there.
pub proof fn lemma_edge_mutation_changes_one_cell<F: Fn(u32, u32, u32) -> u32>(
    parent: GenomeView,
    child: GenomeView,
    strength: u32,
    perturb: F,
)
    requires
        parent.wf(),
        edge_mutated(parent, child, strength, perturb),
    ensures
        child.wf(),
        child.size() == parent.size(),
        child.n_in == parent.n_in,
        child.n_out == parent.n_out,
        exists|row: int, col: int, draw: u32|
            {
                &&& 0 <= row < parent.size()
                &&& 0 <= col < parent.size()
                &&& #[trigger] call_ensures(
                    perturb,
                    (parent.weights[row][col], strength, draw),
                    child.weights[row][col],
                )
                &&& same_but_at(parent, child, row, col)
            },
{
    let (row, col, draw) = choose|row: int, col: int, draw: u32|
        {
            &&& 0 <= row < parent.size()
            &&& 0 <= col < parent.size()
            &&& #[trigger] edge_perturbed(parent, child, row, col, strength, draw, perturb)
        };
    let weight = choose|weight: u32|
        {
            &&& #[trigger] call_ensures(
                perturb,
                (parent.weights[row][col], strength, draw),
                weight,
            )
            &&& child == parent.with_weight(row, col, weight)
        };
    assert(child.weights[row][col] == weight);
    assert(same_but_at(parent, child, row, col));
}

} // verus!
