//! Topology of the structured meshes: node numbering, cell connectivity,
//! boundary nodes, and the grid hierarchy of geometric multigrid.
//!
//! Nodes of a grid with `nx` by `ny` (by `nz`) cells are numbered row by
//! row: node `(i, j)` is `j * (nx + 1) + i`, node `(i, j, k)` is
//! `(k * (ny + 1) + j) * (nx + 1) + i`. Node coordinates are not held here.

use vstd::prelude::*;
use vstd::arithmetic::div_mod::{lemma_fundamental_div_mod_converse_div, lemma_fundamental_div_mod_converse_mod};

verus! {

// ---------------------------------------------------------------------------
// 2D
// ---------------------------------------------------------------------------

/// The number of node `(i, j)`.
pub open spec fn node_id_2d(nx: int, i: int, j: int) -> int {
    j * (nx + 1) + i
}

/// The nodes of cell `(i, j)`, counter-clockwise from its lower left corner.
pub open spec fn quad_cell(nx: int, i: int, j: int) -> Seq<int> {
    seq![node_id_2d(nx, i, j), node_id_2d(nx, i + 1, j), node_id_2d(nx, i + 1, j + 1), node_id_2d(nx, i, j + 1)]
}

/// A cell's node numbers as integers.
pub open spec fn quad_ids(c: [usize; 4]) -> Seq<int> {
    c@.map_values(|x: usize| x as int)
}

/// Whether node `n` lies on the boundary of the grid.
pub open spec fn on_boundary_2d(nx: int, ny: int, n: int) -> bool {
    let i = n % (nx + 1);
    let j = n / (nx + 1);
    i == 0 || i == nx || j == 0 || j == ny
}

/// The boundary nodes among the nodes numbered below `n`, increasing.
pub open spec fn boundary_below_2d(nx: int, ny: int, n: nat) -> Seq<int>
    decreases n,
{
    if n == 0 {
        Seq::empty()
    } else {
        let m = (n - 1) as nat;
        boundary_below_2d(nx, ny, m) + if on_boundary_2d(nx, ny, m as int) {
            seq![m as int]
        } else {
            Seq::empty()
        }
    }
}

proof fn lemma_row_major(nx: int, i: int, j: int)
    requires
        nx >= 1,
        0 <= i < nx + 1,
        0 <= j,
    ensures
        node_id_2d(nx, i, j) % (nx + 1) == i,
        node_id_2d(nx, i, j) / (nx + 1) == j,
{
    lemma_fundamental_div_mod_converse_mod(node_id_2d(nx, i, j), nx + 1, j, i);
    lemma_fundamental_div_mod_converse_div(node_id_2d(nx, i, j), nx + 1, j, i);
}

proof fn lemma_cell_position(nx: int, c: int, i: int, j: int)
    requires
        nx >= 1,
        0 <= i < nx,
        0 <= j,
        c == j * nx + i,
    ensures
        c % nx == i,
        c / nx == j,
{
    lemma_fundamental_div_mod_converse_mod(c, nx, j, i);
    lemma_fundamental_div_mod_converse_div(c, nx, j, i);
}

proof fn lemma_node_in_grid_2d(nx: int, ny: int, i: int, j: int)
    requires
        0 <= i <= nx,
        0 <= j <= ny,
    ensures
        0 <= node_id_2d(nx, i, j) < (nx + 1) * (ny + 1),
        j * (nx + 1) <= node_id_2d(nx, i, j),
        nx + 1 <= (nx + 1) * (ny + 1),
{
    assert(nx + 1 <= (nx + 1) * (ny + 1)) by (nonlinear_arith)
        requires
            0 <= nx,
            0 <= ny,
    ;
    assert(0 <= j * (nx + 1) <= ny * (nx + 1)) by (nonlinear_arith)
        requires
            0 <= i <= nx,
            0 <= j <= ny,
    ;
    assert((nx + 1) * (ny + 1) == ny * (nx + 1) + nx + 1) by (nonlinear_arith);
}

/// The number of node `(i, j)` of a grid `nx` cells wide.
pub fn node_index(nx: usize, i: usize, j: usize) -> (n: usize)
    requires
        nx < usize::MAX,
        node_id_2d(nx as int, i as int, j as int) <= usize::MAX,
    ensures
        n == node_id_2d(nx as int, i as int, j as int),
{
    proof {
        assert(0 <= j * (nx + 1)) by (nonlinear_arith)
            requires
                0 <= j,
                0 <= nx,
        ;
    }
    j * (nx + 1) + i
}

/// The number of node `(i, j)` of a grid of `nx` by `ny` cells.
fn grid_node(nx: usize, ny: usize, i: usize, j: usize) -> (n: usize)
    requires
        i <= nx,
        j <= ny,
        (nx + 1) * (ny + 1) <= usize::MAX,
    ensures
        n == node_id_2d(nx as int, i as int, j as int),
{
    proof {
        lemma_node_in_grid_2d(nx as int, ny as int, i as int, j as int);
    }
    node_index(nx, i, j)
}

/// The cells of a grid of `nx` by `ny` cells, row by row: the cell at
/// position `c` is cell `(c % nx, c / nx)`.
pub fn quad_cells(nx: usize, ny: usize) -> (cells: Vec<[usize; 4]>)
    requires
        nx >= 1,
        ny >= 1,
        (nx + 1) * (ny + 1) <= usize::MAX,
    ensures
        cells@.len() == nx * ny,
        forall|c: int| 0 <= c < cells@.len() ==> quad_ids(#[trigger] cells@[c]) == quad_cell(nx as int, c % nx as int, c / nx as int),
{
    let mut cells: Vec<[usize; 4]> = Vec::new();
    let mut j: usize = 0;
    while j < ny
        invariant
            1 <= nx,
            1 <= ny,
            (nx + 1) * (ny + 1) <= usize::MAX,
            j <= ny,
            cells@.len() == j * nx,
            forall|c: int| 0 <= c < cells@.len() ==> quad_ids(#[trigger] cells@[c]) == quad_cell(nx as int, c % nx as int, c / nx as int),
        decreases ny - j,
    {
        let mut i: usize = 0;
        while i < nx
            invariant
                1 <= nx,
                1 <= ny,
                (nx + 1) * (ny + 1) <= usize::MAX,
                j < ny,
                i <= nx,
                cells@.len() == j * nx + i,
                forall|c: int| 0 <= c < cells@.len() ==> quad_ids(#[trigger] cells@[c]) == quad_cell(nx as int, c % nx as int, c / nx as int),
            decreases nx - i,
        {
            let n0 = grid_node(nx, ny, i, j);
            let n1 = grid_node(nx, ny, i + 1, j);
            let n2 = grid_node(nx, ny, i + 1, j + 1);
            let n3 = grid_node(nx, ny, i, j + 1);
            let cell: [usize; 4] = [n0, n1, n2, n3];
            let ghost c = cells@.len() as int;
            proof {
                lemma_cell_position(nx as int, c, i as int, j as int);
                assert(quad_ids(cell) =~= quad_cell(nx as int, i as int, j as int));
            }
            cells.push(cell);
            i = i + 1;
        }
        proof {
            assert((j + 1) * nx == j * nx + nx) by (nonlinear_arith);
        }
        j = j + 1;
    }
    assert(ny * nx == nx * ny) by (nonlinear_arith);
    cells
}

/// The boundary nodes of a grid of `nx` by `ny` cells, in increasing order.
pub fn quad_boundary_nodes(nx: usize, ny: usize) -> (out: Vec<usize>)
    requires
        nx >= 1,
        ny >= 1,
        (nx + 1) * (ny + 1) <= usize::MAX,
    ensures
        out@.map_values(|x: usize| x as int) == boundary_below_2d(nx as int, ny as int, ((nx + 1) * (ny + 1)) as nat),
{
    let mut out: Vec<usize> = Vec::new();
    let mut j: usize = 0;
    proof {
        assert((nx + 1) * (ny + 1) == ny * (nx + 1) + nx + 1) by (nonlinear_arith);
        assert(ny + 1 <= (nx + 1) * (ny + 1)) by (nonlinear_arith)
            requires
                nx >= 1,
        ;
    }
    while j <= ny
        invariant
            1 <= nx,
            ny + 1 <= usize::MAX,
            1 <= ny,
            (nx + 1) * (ny + 1) <= usize::MAX,
            (nx + 1) * (ny + 1) == ny * (nx + 1) + nx + 1,
            j <= ny + 1,
            out@.map_values(|x: usize| x as int) == boundary_below_2d(nx as int, ny as int, (j * (nx + 1)) as nat),
        decreases ny + 1 - j,
    {
        let mut i: usize = 0;
        while i <= nx
            invariant
                1 <= nx,
                1 <= ny,
                (nx + 1) * (ny + 1) <= usize::MAX,
                j <= ny,
                i <= nx + 1,
                out@.map_values(|x: usize| x as int) == boundary_below_2d(nx as int, ny as int, (j * (nx + 1) + i) as nat),
            decreases nx + 1 - i,
        {
            let ghost before = out@;
            let n = grid_node(nx, ny, i, j);
            proof {
                lemma_row_major(nx as int, i as int, j as int);
                lemma_node_in_grid_2d(nx as int, ny as int, i as int, j as int);
            }
            if i == 0 || i == nx || j == 0 || j == ny {
                out.push(n);
                assert(out@.map_values(|x: usize| x as int) =~= before.map_values(|x: usize| x as int).push(n as int));
            }
            assert(out@.map_values(|x: usize| x as int) =~= boundary_below_2d(nx as int, ny as int, (j * (nx + 1) + i + 1) as nat));
            i = i + 1;
        }
        proof {
            assert((j + 1) * (nx + 1) == j * (nx + 1) + nx + 1) by (nonlinear_arith);
        }
        j = j + 1;
    }
    assert((ny + 1) * (nx + 1) == (nx + 1) * (ny + 1)) by (nonlinear_arith);
    out
}

/// The boundary nodes listed below `n` are exactly the nodes below `n`
/// that lie on the boundary, each once, in increasing order.
pub proof fn lemma_boundary_below_2d(nx: int, ny: int, n: nat)
    ensures
        forall|p: int| 0 <= p < boundary_below_2d(nx, ny, n).len() ==> {
            let m = #[trigger] boundary_below_2d(nx, ny, n)[p];
            0 <= m < n && on_boundary_2d(nx, ny, m)
        },
        forall|p: int, q: int| 0 <= p < q < boundary_below_2d(nx, ny, n).len() ==> #[trigger] boundary_below_2d(nx, ny, n)[p]
            < #[trigger] boundary_below_2d(nx, ny, n)[q],
        forall|m: int| 0 <= m < n && on_boundary_2d(nx, ny, m) ==> #[trigger] boundary_below_2d(nx, ny, n).contains(m),
    decreases n,
{
    if n > 0 {
        let k = (n - 1) as nat;
        lemma_boundary_below_2d(nx, ny, k);
        let prev = boundary_below_2d(nx, ny, k);
        let cur = boundary_below_2d(nx, ny, n);
        assert forall|m: int| 0 <= m < n && on_boundary_2d(nx, ny, m) implies #[trigger] cur.contains(m) by {
            if m < k {
                assert(prev.contains(m));
                let p = choose|p: int| 0 <= p < prev.len() && prev[p] == m;
                assert(cur[p] == m);
            } else {
                assert(cur[cur.len() - 1] == m);
            }
        }
    }
}

// ---------------------------------------------------------------------------
// 3D
// ---------------------------------------------------------------------------

/// The number of node `(i, j, k)`.
pub open spec fn node_id_3d(nx: int, ny: int, i: int, j: int, k: int) -> int {
    (k * (ny + 1) + j) * (nx + 1) + i
}

/// The nodes of cell `(i, j, k)`: the bottom face counter-clockwise from
/// its lower left corner, then the top face in the same order.
pub open spec fn hex_cell(nx: int, ny: int, i: int, j: int, k: int) -> Seq<int> {
    seq![
        node_id_3d(nx, ny, i, j, k),
        node_id_3d(nx, ny, i + 1, j, k),
        node_id_3d(nx, ny, i + 1, j + 1, k),
        node_id_3d(nx, ny, i, j + 1, k),
        node_id_3d(nx, ny, i, j, k + 1),
        node_id_3d(nx, ny, i + 1, j, k + 1),
        node_id_3d(nx, ny, i + 1, j + 1, k + 1),
        node_id_3d(nx, ny, i, j + 1, k + 1),
    ]
}

/// A hexahedral cell's node numbers as integers.
pub open spec fn hex_ids(c: [usize; 8]) -> Seq<int> {
    c@.map_values(|x: usize| x as int)
}

/// Whether node `n` lies on the boundary of the grid.
pub open spec fn on_boundary_3d(nx: int, ny: int, nz: int, n: int) -> bool {
    let i = n % (nx + 1);
    let j = (n / (nx + 1)) % (ny + 1);
    let k = (n / (nx + 1)) / (ny + 1);
    i == 0 || i == nx || j == 0 || j == ny || k == 0 || k == nz
}

/// The boundary nodes among the nodes numbered below `n`, increasing.
pub open spec fn boundary_below_3d(nx: int, ny: int, nz: int, n: nat) -> Seq<int>
    decreases n,
{
    if n == 0 {
        Seq::empty()
    } else {
        let m = (n - 1) as nat;
        boundary_below_3d(nx, ny, nz, m) + if on_boundary_3d(nx, ny, nz, m as int) {
            seq![m as int]
        } else {
            Seq::empty()
        }
    }
}

proof fn lemma_node_3d(nx: int, ny: int, nz: int, i: int, j: int, k: int)
    requires
        nx >= 1,
        ny >= 1,
        0 <= i <= nx,
        0 <= j <= ny,
        0 <= k <= nz,
    ensures
        node_id_3d(nx, ny, i, j, k) % (nx + 1) == i,
        (node_id_3d(nx, ny, i, j, k) / (nx + 1)) % (ny + 1) == j,
        (node_id_3d(nx, ny, i, j, k) / (nx + 1)) / (ny + 1) == k,
        0 <= node_id_3d(nx, ny, i, j, k) < (nx + 1) * (ny + 1) * (nz + 1),
        node_id_3d(nx, ny, i, j, k) == k * (ny + 1) * (nx + 1) + j * (nx + 1) + i,
        0 <= k * (ny + 1) * (nx + 1) <= k * (ny + 1) * (nx + 1) + j * (nx + 1),
        0 <= j * (nx + 1),
{
    let r = k * (ny + 1) + j;
    lemma_fundamental_div_mod_converse_mod(node_id_3d(nx, ny, i, j, k), nx + 1, r, i);
    lemma_fundamental_div_mod_converse_div(node_id_3d(nx, ny, i, j, k), nx + 1, r, i);
    lemma_fundamental_div_mod_converse_mod(r, ny + 1, k, j);
    lemma_fundamental_div_mod_converse_div(r, ny + 1, k, j);
    assert(0 <= r <= nz * (ny + 1) + ny) by (nonlinear_arith)
        requires
            r == k * (ny + 1) + j,
            0 <= j <= ny,
            0 <= k <= nz,
    ;
    assert(0 <= r * (nx + 1) + i < (nx + 1) * (ny + 1) * (nz + 1)) by (nonlinear_arith)
        requires
            0 <= r <= nz * (ny + 1) + ny,
            0 <= i <= nx,
            nx >= 1,
            ny >= 1,
            nz >= 0,
    ;
    assert(r * (nx + 1) == k * (ny + 1) * (nx + 1) + j * (nx + 1)) by (nonlinear_arith)
        requires
            r == k * (ny + 1) + j,
    ;
    assert(0 <= k * (ny + 1) * (nx + 1) && 0 <= j * (nx + 1)) by (nonlinear_arith)
        requires
            0 <= j,
            0 <= k,
            nx >= 1,
            ny >= 1,
    ;
}

/// The number of node `(i, j, k)` of a grid `nx` cells wide and `ny` cells
/// deep.
pub fn node_index_3d(nx: usize, ny: usize, i: usize, j: usize, k: usize) -> (n: usize)
    requires
        nx < usize::MAX,
        ny < usize::MAX,
        node_id_3d(nx as int, ny as int, i as int, j as int, k as int) <= usize::MAX,
    ensures
        n == node_id_3d(nx as int, ny as int, i as int, j as int, k as int),
{
    proof {
        let r = k * (ny + 1) + j;
        assert(r * (nx + 1) == k * (ny + 1) * (nx + 1) + j * (nx + 1)) by (nonlinear_arith)
            requires
                r == k * (ny + 1) + j,
        ;
        assert(0 <= k * (ny + 1) <= k * (ny + 1) * (nx + 1) && 0 <= j * (nx + 1)) by (nonlinear_arith)
            requires
                0 <= j,
                0 <= k,
                0 <= nx,
                0 <= ny,
        ;
    }
    k * (ny + 1) * (nx + 1) + j * (nx + 1) + i
}

/// The number of node `(i, j, k)` of a grid of `nx` by `ny` by `nz` cells.
fn grid_node_3d(nx: usize, ny: usize, nz: usize, i: usize, j: usize, k: usize) -> (n: usize)
    requires
        nx >= 1,
        ny >= 1,
        i <= nx,
        j <= ny,
        k <= nz,
        (nx + 1) * (ny + 1) * (nz + 1) <= usize::MAX,
    ensures
        n == node_id_3d(nx as int, ny as int, i as int, j as int, k as int),
{
    proof {
        lemma_node_3d(nx as int, ny as int, nz as int, i as int, j as int, k as int);
        assert(nx + 1 <= (nx + 1) * (ny + 1) * (nz + 1) && ny + 1 <= (nx + 1) * (ny + 1) * (nz + 1)) by (nonlinear_arith)
            requires
                nx >= 1,
                ny >= 1,
        ;
    }
    node_index_3d(nx, ny, i, j, k)
}

proof fn lemma_hex_position(nx: int, ny: int, c: int, i: int, j: int, k: int)
    requires
        nx >= 1,
        ny >= 1,
        0 <= i < nx,
        0 <= j < ny,
        0 <= k,
        c == (k * ny + j) * nx + i,
    ensures
        c % nx == i,
        (c / nx) % ny == j,
        (c / nx) / ny == k,
{
    lemma_fundamental_div_mod_converse_mod(c, nx, k * ny + j, i);
    lemma_fundamental_div_mod_converse_div(c, nx, k * ny + j, i);
    lemma_fundamental_div_mod_converse_mod(k * ny + j, ny, k, j);
    lemma_fundamental_div_mod_converse_div(k * ny + j, ny, k, j);
}

/// The cells of a grid of `nx` by `ny` by `nz` cells, layer by layer and
/// row by row: the cell at position `c` is cell
/// `(c % nx, (c / nx) % ny, (c / nx) / ny)`.
pub fn hex_cells(nx: usize, ny: usize, nz: usize) -> (cells: Vec<[usize; 8]>)
    requires
        nx >= 1,
        ny >= 1,
        nz >= 1,
        (nx + 1) * (ny + 1) * (nz + 1) <= usize::MAX,
    ensures
        cells@.len() == nx * ny * nz,
        forall|c: int| 0 <= c < cells@.len() ==> hex_ids(#[trigger] cells@[c]) == hex_cell(
            nx as int,
            ny as int,
            c % nx as int,
            (c / nx as int) % ny as int,
            (c / nx as int) / ny as int,
        ),
{
    let mut cells: Vec<[usize; 8]> = Vec::new();
    let mut k: usize = 0;
    while k < nz
        invariant
            1 <= nx,
            1 <= ny,
            1 <= nz,
            (nx + 1) * (ny + 1) * (nz + 1) <= usize::MAX,
            k <= nz,
            cells@.len() == k * ny * nx,
            forall|c: int| 0 <= c < cells@.len() ==> hex_ids(#[trigger] cells@[c]) == hex_cell(
                nx as int,
                ny as int,
                c % nx as int,
                (c / nx as int) % ny as int,
                (c / nx as int) / ny as int,
            ),
        decreases nz - k,
    {
        let mut j: usize = 0;
        while j < ny
            invariant
                1 <= nx,
                1 <= ny,
                1 <= nz,
                (nx + 1) * (ny + 1) * (nz + 1) <= usize::MAX,
                k < nz,
                j <= ny,
                cells@.len() == (k * ny + j) * nx,
                forall|c: int| 0 <= c < cells@.len() ==> hex_ids(#[trigger] cells@[c]) == hex_cell(
                    nx as int,
                    ny as int,
                    c % nx as int,
                    (c / nx as int) % ny as int,
                    (c / nx as int) / ny as int,
                ),
            decreases ny - j,
        {
            let mut i: usize = 0;
            while i < nx
                invariant
                    1 <= nx,
                    1 <= ny,
                    1 <= nz,
                    (nx + 1) * (ny + 1) * (nz + 1) <= usize::MAX,
                    k < nz,
                    j < ny,
                    i <= nx,
                    cells@.len() == (k * ny + j) * nx + i,
                    forall|c: int| 0 <= c < cells@.len() ==> hex_ids(#[trigger] cells@[c]) == hex_cell(
                        nx as int,
                        ny as int,
                        c % nx as int,
                        (c / nx as int) % ny as int,
                        (c / nx as int) / ny as int,
                    ),
                decreases nx - i,
            {
                let n000 = grid_node_3d(nx, ny, nz, i, j, k);
                let n100 = grid_node_3d(nx, ny, nz, i + 1, j, k);
                let n110 = grid_node_3d(nx, ny, nz, i + 1, j + 1, k);
                let n010 = grid_node_3d(nx, ny, nz, i, j + 1, k);
                let n001 = grid_node_3d(nx, ny, nz, i, j, k + 1);
                let n101 = grid_node_3d(nx, ny, nz, i + 1, j, k + 1);
                let n111 = grid_node_3d(nx, ny, nz, i + 1, j + 1, k + 1);
                let n011 = grid_node_3d(nx, ny, nz, i, j + 1, k + 1);
                let cell: [usize; 8] = [n000, n100, n110, n010, n001, n101, n111, n011];
                let ghost c = cells@.len() as int;
                proof {
                    lemma_hex_position(nx as int, ny as int, c, i as int, j as int, k as int);
                    assert(hex_ids(cell) =~= hex_cell(nx as int, ny as int, i as int, j as int, k as int));
                }
                cells.push(cell);
                i = i + 1;
            }
            proof {
                assert((k * ny + j + 1) * nx == (k * ny + j) * nx + nx) by (nonlinear_arith);
            }
            j = j + 1;
        }
        proof {
            assert((k * ny + ny) * nx == (k + 1) * ny * nx) by (nonlinear_arith);
        }
        k = k + 1;
    }
    assert(nz * ny * nx == nx * ny * nz) by (nonlinear_arith);
    cells
}

/// The boundary nodes of a grid of `nx` by `ny` by `nz` cells, in
/// increasing order.
pub fn hex_boundary_nodes(nx: usize, ny: usize, nz: usize) -> (out: Vec<usize>)
    requires
        nx >= 1,
        ny >= 1,
        nz >= 1,
        (nx + 1) * (ny + 1) * (nz + 1) <= usize::MAX,
    ensures
        out@.map_values(|x: usize| x as int) == boundary_below_3d(
            nx as int,
            ny as int,
            nz as int,
            ((nx + 1) * (ny + 1) * (nz + 1)) as nat,
        ),
{
    let mut out: Vec<usize> = Vec::new();
    proof {
        assert(nz + 1 <= (nx + 1) * (ny + 1) * (nz + 1) && ny + 1 <= (nx + 1) * (ny + 1) * (nz + 1)) by (nonlinear_arith)
            requires
                nx >= 1,
                ny >= 1,
        ;
    }
    let mut k: usize = 0;
    assert(0 * (ny + 1) * (nx + 1) == 0) by (nonlinear_arith);
    assert(out@.map_values(|x: usize| x as int) =~= boundary_below_3d(nx as int, ny as int, nz as int, 0));
    while k <= nz
        invariant
            1 <= nx,
            1 <= ny,
            1 <= nz,
            (nx + 1) * (ny + 1) * (nz + 1) <= usize::MAX,
            nz + 1 <= usize::MAX,
            ny + 1 <= usize::MAX,
            k <= nz + 1,
            out@.map_values(|x: usize| x as int) == boundary_below_3d(nx as int, ny as int, nz as int, (k * (ny + 1) * (nx + 1)) as nat),
        decreases nz + 1 - k,
    {
        let mut j: usize = 0;
        while j <= ny
            invariant
                1 <= nx,
                1 <= ny,
                1 <= nz,
                (nx + 1) * (ny + 1) * (nz + 1) <= usize::MAX,
                ny + 1 <= usize::MAX,
                k <= nz,
                j <= ny + 1,
                out@.map_values(|x: usize| x as int) == boundary_below_3d(nx as int, ny as int, nz as int, ((k * (ny + 1) + j) * (nx + 1)) as nat),
            decreases ny + 1 - j,
        {
            let mut i: usize = 0;
            while i <= nx
                invariant
                    1 <= nx,
                    1 <= ny,
                    1 <= nz,
                    (nx + 1) * (ny + 1) * (nz + 1) <= usize::MAX,
                    k <= nz,
                    j <= ny,
                    i <= nx + 1,
                    out@.map_values(|x: usize| x as int) == boundary_below_3d(nx as int, ny as int, nz as int, ((k * (ny + 1) + j) * (nx + 1) + i) as nat),
                decreases nx + 1 - i,
            {
                let ghost before = out@;
                let n = grid_node_3d(nx, ny, nz, i, j, k);
                proof {
                    lemma_node_3d(nx as int, ny as int, nz as int, i as int, j as int, k as int);
                }
                if i == 0 || i == nx || j == 0 || j == ny || k == 0 || k == nz {
                    out.push(n);
                    assert(out@.map_values(|x: usize| x as int) =~= before.map_values(|x: usize| x as int).push(n as int));
                }
                assert(out@.map_values(|x: usize| x as int) =~= boundary_below_3d(nx as int, ny as int, nz as int, ((k * (ny + 1) + j) * (nx + 1) + i + 1) as nat));
                i = i + 1;
            }
            proof {
                assert((k * (ny + 1) + j) * (nx + 1) + nx + 1 == (k * (ny + 1) + j + 1) * (nx + 1)) by (nonlinear_arith);
            }
            j = j + 1;
        }
        proof {
            assert((k * (ny + 1) + ny + 1) * (nx + 1) == (k + 1) * (ny + 1) * (nx + 1)) by (nonlinear_arith);
        }
        k = k + 1;
    }
    assert((nz + 1) * (ny + 1) * (nx + 1) == (nx + 1) * (ny + 1) * (nz + 1)) by (nonlinear_arith);
    out
}

/// The boundary nodes listed below `n` are exactly the nodes below `n`
/// that lie on the boundary, each once, in increasing order.
pub proof fn lemma_boundary_below_3d(nx: int, ny: int, nz: int, n: nat)
    ensures
        forall|p: int| 0 <= p < boundary_below_3d(nx, ny, nz, n).len() ==> {
            let m = #[trigger] boundary_below_3d(nx, ny, nz, n)[p];
            0 <= m < n && on_boundary_3d(nx, ny, nz, m)
        },
        forall|p: int, q: int| 0 <= p < q < boundary_below_3d(nx, ny, nz, n).len() ==> #[trigger] boundary_below_3d(nx, ny, nz, n)[p]
            < #[trigger] boundary_below_3d(nx, ny, nz, n)[q],
        forall|m: int| 0 <= m < n && on_boundary_3d(nx, ny, nz, m) ==> #[trigger] boundary_below_3d(nx, ny, nz, n).contains(m),
    decreases n,
{
    if n > 0 {
        let k = (n - 1) as nat;
        lemma_boundary_below_3d(nx, ny, nz, k);
        let prev = boundary_below_3d(nx, ny, nz, k);
        let cur = boundary_below_3d(nx, ny, nz, n);
        assert forall|m: int| 0 <= m < n && on_boundary_3d(nx, ny, nz, m) implies #[trigger] cur.contains(m) by {
            if m < k {
                assert(prev.contains(m));
                let p = choose|p: int| 0 <= p < prev.len() && prev[p] == m;
                assert(cur[p] == m);
            } else {
                assert(cur[cur.len() - 1] == m);
            }
        }
    }
}

// ---------------------------------------------------------------------------
// Multigrid hierarchy
// ---------------------------------------------------------------------------

/// The grids of a 2D multigrid hierarchy, finest first: the grid is kept,
/// and halved again while both counts are above `min` and even.
pub open spec fn mg_levels_2d(cx: nat, cy: nat, min: nat) -> Seq<(nat, nat)>
    decreases cx,
{
    if cx <= min || cy <= min || cx % 2 != 0 || cy % 2 != 0 {
        seq![(cx, cy)]
    } else {
        seq![(cx, cy)] + mg_levels_2d(cx / 2, cy / 2, min)
    }
}

/// The grids of a 3D multigrid hierarchy, finest first.
pub open spec fn mg_levels_3d(cx: nat, cy: nat, cz: nat, min: nat) -> Seq<(nat, nat, nat)>
    decreases cx,
{
    if cx <= min || cy <= min || cz <= min || cx % 2 != 0 || cy % 2 != 0 || cz % 2 != 0 {
        seq![(cx, cy, cz)]
    } else {
        seq![(cx, cy, cz)] + mg_levels_3d(cx / 2, cy / 2, cz / 2, min)
    }
}

/// The grid sizes of the levels of a 2D multigrid preconditioner, finest
/// first; an error when the grid has no cell.
pub fn multigrid_levels_2d(nx: usize, ny: usize, min_cells_per_axis: usize) -> (r: Result<Vec<(usize, usize)>, String>)
    ensures
        r is Err <==> (nx < 1 || ny < 1),
        r matches Err(msg) ==> msg@ == "multigrid requires nx and ny >= 1"@,
        r matches Ok(levels) ==> levels@.map_values(|l: (usize, usize)| (l.0 as nat, l.1 as nat))
            == mg_levels_2d(nx as nat, ny as nat, min_cells_per_axis as nat),
{
    if nx < 1 || ny < 1 {
        return Err(String::from_str("multigrid requires nx and ny >= 1"));
    }
    let ghost min = min_cells_per_axis as nat;
    let mut levels: Vec<(usize, usize)> = Vec::new();
    let mut cx = nx;
    let mut cy = ny;
    loop
        invariant_except_break
            levels@.map_values(|l: (usize, usize)| (l.0 as nat, l.1 as nat)) + mg_levels_2d(cx as nat, cy as nat, min)
                == mg_levels_2d(nx as nat, ny as nat, min),
        invariant
            min == min_cells_per_axis as nat,
        ensures
            levels@.map_values(|l: (usize, usize)| (l.0 as nat, l.1 as nat)) == mg_levels_2d(nx as nat, ny as nat, min),
        decreases cx,
    {
        let ghost before = levels@;
        levels.push((cx, cy));
        assert(levels@.map_values(|l: (usize, usize)| (l.0 as nat, l.1 as nat))
            =~= before.map_values(|l: (usize, usize)| (l.0 as nat, l.1 as nat)).push((cx as nat, cy as nat)));
        if cx <= min_cells_per_axis || cy <= min_cells_per_axis || cx % 2 != 0 || cy % 2 != 0 {
            assert(mg_levels_2d(cx as nat, cy as nat, min) =~= seq![(cx as nat, cy as nat)]);
            assert(levels@.map_values(|l: (usize, usize)| (l.0 as nat, l.1 as nat)) =~= mg_levels_2d(nx as nat, ny as nat, min));
            break;
        }
        let ghost rest = mg_levels_2d((cx / 2) as nat, (cy / 2) as nat, min);
        assert(mg_levels_2d(cx as nat, cy as nat, min) == seq![(cx as nat, cy as nat)] + rest);
        assert(levels@.map_values(|l: (usize, usize)| (l.0 as nat, l.1 as nat)) + rest
            =~= before.map_values(|l: (usize, usize)| (l.0 as nat, l.1 as nat)) + mg_levels_2d(cx as nat, cy as nat, min));
        cx = cx / 2;
        cy = cy / 2;
    }
    Ok(levels)
}

/// The grid sizes of the levels of a 3D multigrid preconditioner, finest
/// first; an error when the grid has no cell.
pub fn multigrid_levels_3d(nx: usize, ny: usize, nz: usize, min_cells_per_axis: usize) -> (r: Result<
    Vec<(usize, usize, usize)>,
    String,
>)
    ensures
        r is Err <==> (nx < 1 || ny < 1 || nz < 1),
        r matches Err(msg) ==> msg@ == "multigrid requires nx, ny, nz >= 1"@,
        r matches Ok(levels) ==> levels@.map_values(|l: (usize, usize, usize)| (l.0 as nat, l.1 as nat, l.2 as nat))
            == mg_levels_3d(nx as nat, ny as nat, nz as nat, min_cells_per_axis as nat),
{
    if nx < 1 || ny < 1 || nz < 1 {
        return Err(String::from_str("multigrid requires nx, ny, nz >= 1"));
    }
    let ghost min = min_cells_per_axis as nat;
    let mut levels: Vec<(usize, usize, usize)> = Vec::new();
    let mut cx = nx;
    let mut cy = ny;
    let mut cz = nz;
    loop
        invariant_except_break
            levels@.map_values(|l: (usize, usize, usize)| (l.0 as nat, l.1 as nat, l.2 as nat)) + mg_levels_3d(
                cx as nat,
                cy as nat,
                cz as nat,
                min,
            ) == mg_levels_3d(nx as nat, ny as nat, nz as nat, min),
        invariant
            min == min_cells_per_axis as nat,
        ensures
            levels@.map_values(|l: (usize, usize, usize)| (l.0 as nat, l.1 as nat, l.2 as nat)) == mg_levels_3d(
                nx as nat,
                ny as nat,
                nz as nat,
                min,
            ),
        decreases cx,
    {
        let ghost before = levels@;
        levels.push((cx, cy, cz));
        assert(levels@.map_values(|l: (usize, usize, usize)| (l.0 as nat, l.1 as nat, l.2 as nat))
            =~= before.map_values(|l: (usize, usize, usize)| (l.0 as nat, l.1 as nat, l.2 as nat)).push(
            (cx as nat, cy as nat, cz as nat),
        ));
        if cx <= min_cells_per_axis || cy <= min_cells_per_axis || cz <= min_cells_per_axis || cx % 2 != 0 || cy % 2
            != 0 || cz % 2 != 0 {
            assert(mg_levels_3d(cx as nat, cy as nat, cz as nat, min) =~= seq![(cx as nat, cy as nat, cz as nat)]);
            assert(levels@.map_values(|l: (usize, usize, usize)| (l.0 as nat, l.1 as nat, l.2 as nat))
                =~= mg_levels_3d(nx as nat, ny as nat, nz as nat, min));
            break;
        }
        let ghost rest = mg_levels_3d((cx / 2) as nat, (cy / 2) as nat, (cz / 2) as nat, min);
        assert(mg_levels_3d(cx as nat, cy as nat, cz as nat, min) == seq![(cx as nat, cy as nat, cz as nat)] + rest);
        assert(levels@.map_values(|l: (usize, usize, usize)| (l.0 as nat, l.1 as nat, l.2 as nat)) + rest
            =~= before.map_values(|l: (usize, usize, usize)| (l.0 as nat, l.1 as nat, l.2 as nat)) + mg_levels_3d(
            cx as nat,
            cy as nat,
            cz as nat,
            min,
        ));
        cx = cx / 2;
        cy = cy / 2;
        cz = cz / 2;
    }
    Ok(levels)
}

/// A 2D hierarchy starts with the given grid; each coarser level halves
/// both counts of the level before it, which were even and above `min`;
/// the coarsest level stops the halving.
pub proof fn lemma_mg_levels_2d(cx: nat, cy: nat, min: nat)
    ensures
        mg_levels_2d(cx, cy, min).len() >= 1,
        mg_levels_2d(cx, cy, min)[0] == (cx, cy),
        forall|l: int| 0 <= l < mg_levels_2d(cx, cy, min).len() - 1 ==> {
            let a = #[trigger] mg_levels_2d(cx, cy, min)[l];
            let b = mg_levels_2d(cx, cy, min)[l + 1];
            &&& a.0 > min && a.1 > min && a.0 % 2 == 0 && a.1 % 2 == 0
            &&& b == (a.0 / 2, a.1 / 2)
        },
        ({
            let last = mg_levels_2d(cx, cy, min).last();
            last.0 <= min || last.1 <= min || last.0 % 2 != 0 || last.1 % 2 != 0
        }),
    decreases cx,
{
    if !(cx <= min || cy <= min || cx % 2 != 0 || cy % 2 != 0) {
        lemma_mg_levels_2d(cx / 2, cy / 2, min);
        let s = mg_levels_2d(cx, cy, min);
        let t = mg_levels_2d(cx / 2, cy / 2, min);
        assert forall|l: int| 0 <= l < s.len() - 1 implies {
            let a = #[trigger] s[l];
            let b = s[l + 1];
            &&& a.0 > min && a.1 > min && a.0 % 2 == 0 && a.1 % 2 == 0
            &&& b == (a.0 / 2, a.1 / 2)
        } by {
            if l > 0 {
                assert(s[l] == t[l - 1]);
                assert(s[l + 1] == t[l]);
            }
        }
    }
}

// ---------------------------------------------------------------------------
// Boundary entities of a structured box
// ---------------------------------------------------------------------------

/// The nodes of an edge as integers.
pub open spec fn edge_ids(e: [usize; 2]) -> Seq<int> {
    e@.map_values(|x: usize| x as int)
}

/// Edge `p` of a boundary side of a 2D grid: along x on row `fixed`, or
/// along y on column `fixed`.
pub open spec fn side_edge(nx: int, along_x: bool, fixed: int, p: int) -> Seq<int> {
    if along_x {
        seq![node_id_2d(nx, p, fixed), node_id_2d(nx, p + 1, fixed)]
    } else {
        seq![node_id_2d(nx, fixed, p), node_id_2d(nx, fixed, p + 1)]
    }
}

/// The edges of one side of a grid of `nx` by `ny` cells: the `nx` edges
/// of row `fixed` when `along_x`, else the `ny` edges of column `fixed`.
pub fn side_edges(nx: usize, ny: usize, along_x: bool, fixed: usize) -> (edges: Vec<[usize; 2]>)
    requires
        nx >= 1,
        ny >= 1,
        (nx + 1) * (ny + 1) <= usize::MAX,
        along_x ==> fixed <= ny,
        !along_x ==> fixed <= nx,
    ensures
        edges@.len() == if along_x { nx } else { ny },
        forall|p: int| 0 <= p < edges@.len() ==> edge_ids(#[trigger] edges@[p]) == side_edge(nx as int, along_x, fixed as int, p),
{
    let count = if along_x { nx } else { ny };
    let mut edges: Vec<[usize; 2]> = Vec::new();
    let mut p: usize = 0;
    while p < count
        invariant
            nx >= 1,
            ny >= 1,
            (nx + 1) * (ny + 1) <= usize::MAX,
            along_x ==> fixed <= ny,
            !along_x ==> fixed <= nx,
            count == if along_x { nx } else { ny },
            p <= count,
            edges@.len() == p,
            forall|q: int| 0 <= q < edges@.len() ==> edge_ids(#[trigger] edges@[q]) == side_edge(nx as int, along_x, fixed as int, q),
        decreases count - p,
    {
        let e: [usize; 2] = if along_x {
            [grid_node(nx, ny, p, fixed), grid_node(nx, ny, p + 1, fixed)]
        } else {
            [grid_node(nx, ny, fixed, p), grid_node(nx, ny, fixed, p + 1)]
        };
        assert(edge_ids(e) =~= side_edge(nx as int, along_x, fixed as int, p as int));
        edges.push(e);
        p = p + 1;
    }
    edges
}

/// The axis normal to a face of a box.
#[derive(Debug, Clone, Copy, PartialEq, Eq, Structural)]
pub enum Axis {
    X,
    Y,
    Z,
}

/// The number of faces along the first in-plane direction of a box face.
pub open spec fn face_width(nx: int, ny: int, normal: Axis) -> int {
    match normal {
        Axis::X => ny,
        _ => nx,
    }
}

/// The number of faces along the second in-plane direction of a box face.
pub open spec fn face_height(ny: int, nz: int, normal: Axis) -> int {
    match normal {
        Axis::Z => ny,
        _ => nz,
    }
}

/// Face `(a, b)` of the box side normal to `normal` at coordinate `fixed`:
/// in the xy plane (a along x, b along y), the xz plane (a along x, b
/// along z) or the yz plane (a along y, b along z).
pub open spec fn side_face(nx: int, ny: int, normal: Axis, fixed: int, a: int, b: int) -> Seq<int> {
    match normal {
        Axis::Z => seq![
            node_id_3d(nx, ny, a, b, fixed),
            node_id_3d(nx, ny, a + 1, b, fixed),
            node_id_3d(nx, ny, a + 1, b + 1, fixed),
            node_id_3d(nx, ny, a, b + 1, fixed),
        ],
        Axis::Y => seq![
            node_id_3d(nx, ny, a, fixed, b),
            node_id_3d(nx, ny, a + 1, fixed, b),
            node_id_3d(nx, ny, a + 1, fixed, b + 1),
            node_id_3d(nx, ny, a, fixed, b + 1),
        ],
        Axis::X => seq![
            node_id_3d(nx, ny, fixed, a, b),
            node_id_3d(nx, ny, fixed, a + 1, b),
            node_id_3d(nx, ny, fixed, a + 1, b + 1),
            node_id_3d(nx, ny, fixed, a, b + 1),
        ],
    }
}

/// The quadrilateral faces of one side of a box of `nx` by `ny` by `nz`
/// cells, row by row: face `p` is face `(p % w, p / w)` with `w` its
/// width.
pub fn side_faces(nx: usize, ny: usize, nz: usize, normal: Axis, fixed: usize) -> (faces: Vec<[usize; 4]>)
    requires
        nx >= 1,
        ny >= 1,
        nz >= 1,
        (nx + 1) * (ny + 1) * (nz + 1) <= usize::MAX,
        normal == Axis::X ==> fixed <= nx,
        normal == Axis::Y ==> fixed <= ny,
        normal == Axis::Z ==> fixed <= nz,
    ensures
        faces@.len() == face_width(nx as int, ny as int, normal) * face_height(ny as int, nz as int, normal),
        forall|p: int| 0 <= p < faces@.len() ==> quad_ids(#[trigger] faces@[p]) == side_face(
            nx as int,
            ny as int,
            normal,
            fixed as int,
            p % face_width(nx as int, ny as int, normal),
            p / face_width(nx as int, ny as int, normal),
        ),
{
    let w: usize = match normal {
        Axis::X => ny,
        _ => nx,
    };
    let h: usize = match normal {
        Axis::Z => ny,
        _ => nz,
    };
    let ghost wi = face_width(nx as int, ny as int, normal);
    let mut faces: Vec<[usize; 4]> = Vec::new();
    let mut b: usize = 0;
    while b < h
        invariant
            nx >= 1,
            ny >= 1,
            nz >= 1,
            (nx + 1) * (ny + 1) * (nz + 1) <= usize::MAX,
            normal == Axis::X ==> fixed <= nx,
            normal == Axis::Y ==> fixed <= ny,
            normal == Axis::Z ==> fixed <= nz,
            w == wi,
            wi == face_width(nx as int, ny as int, normal),
            h == face_height(ny as int, nz as int, normal),
            w >= 1,
            b <= h,
            faces@.len() == b * w,
            forall|p: int| 0 <= p < faces@.len() ==> quad_ids(#[trigger] faces@[p]) == side_face(
                nx as int,
                ny as int,
                normal,
                fixed as int,
                p % wi,
                p / wi,
            ),
        decreases h - b,
    {
        let mut a: usize = 0;
        while a < w
            invariant
                nx >= 1,
                ny >= 1,
                nz >= 1,
                (nx + 1) * (ny + 1) * (nz + 1) <= usize::MAX,
                normal == Axis::X ==> fixed <= nx,
                normal == Axis::Y ==> fixed <= ny,
                normal == Axis::Z ==> fixed <= nz,
                w == wi,
                wi == face_width(nx as int, ny as int, normal),
                h == face_height(ny as int, nz as int, normal),
                w >= 1,
                b < h,
                a <= w,
                faces@.len() == b * w + a,
                forall|p: int| 0 <= p < faces@.len() ==> quad_ids(#[trigger] faces@[p]) == side_face(
                    nx as int,
                    ny as int,
                    normal,
                    fixed as int,
                    p % wi,
                    p / wi,
                ),
            decreases w - a,
        {
            let f: [usize; 4] = match normal {
                Axis::Z => [
                    grid_node_3d(nx, ny, nz, a, b, fixed),
                    grid_node_3d(nx, ny, nz, a + 1, b, fixed),
                    grid_node_3d(nx, ny, nz, a + 1, b + 1, fixed),
                    grid_node_3d(nx, ny, nz, a, b + 1, fixed),
                ],
                Axis::Y => [
                    grid_node_3d(nx, ny, nz, a, fixed, b),
                    grid_node_3d(nx, ny, nz, a + 1, fixed, b),
                    grid_node_3d(nx, ny, nz, a + 1, fixed, b + 1),
                    grid_node_3d(nx, ny, nz, a, fixed, b + 1),
                ],
                Axis::X => [
                    grid_node_3d(nx, ny, nz, fixed, a, b),
                    grid_node_3d(nx, ny, nz, fixed, a + 1, b),
                    grid_node_3d(nx, ny, nz, fixed, a + 1, b + 1),
                    grid_node_3d(nx, ny, nz, fixed, a, b + 1),
                ],
            };
            let ghost p = faces@.len() as int;
            proof {
                lemma_cell_position(wi, p, a as int, b as int);
                assert(quad_ids(f) =~= side_face(nx as int, ny as int, normal, fixed as int, a as int, b as int));
            }
            faces.push(f);
            a = a + 1;
        }
        proof {
            assert((b + 1) * w == b * w + w) by (nonlinear_arith);
        }
        b = b + 1;
    }
    assert(h * w == w * h) by (nonlinear_arith);
    faces
}

/// The nodes of every cell of a 2D grid are nodes of the grid, and the
/// four corners of a cell are distinct.
pub proof fn lemma_quad_cell_nodes(nx: int, ny: int, i: int, j: int)
    requires
        nx >= 1,
        ny >= 1,
        0 <= i < nx,
        0 <= j < ny,
    ensures
        forall|a: int| 0 <= a < 4 ==> 0 <= #[trigger] quad_cell(nx, i, j)[a] < (nx + 1) * (ny + 1),
        forall|a: int, b: int| 0 <= a < b < 4 ==> #[trigger] quad_cell(nx, i, j)[a] != #[trigger] quad_cell(nx, i, j)[b],
{
    lemma_node_in_grid_2d(nx, ny, i, j);
    lemma_node_in_grid_2d(nx, ny, i + 1, j);
    lemma_node_in_grid_2d(nx, ny, i + 1, j + 1);
    lemma_node_in_grid_2d(nx, ny, i, j + 1);
    assert((j + 1) * (nx + 1) == j * (nx + 1) + nx + 1) by (nonlinear_arith);
}

/// The nodes of every cell of a 3D grid are nodes of the grid, and the
/// eight corners of a cell are distinct.
pub proof fn lemma_hex_cell_nodes(nx: int, ny: int, nz: int, i: int, j: int, k: int)
    requires
        nx >= 1,
        ny >= 1,
        nz >= 1,
        0 <= i < nx,
        0 <= j < ny,
        0 <= k < nz,
    ensures
        forall|a: int| 0 <= a < 8 ==> 0 <= #[trigger] hex_cell(nx, ny, i, j, k)[a] < (nx + 1) * (ny + 1) * (nz + 1),
        forall|a: int, b: int| 0 <= a < b < 8 ==> #[trigger] hex_cell(nx, ny, i, j, k)[a] != #[trigger] hex_cell(nx, ny, i, j, k)[b],
{
    lemma_node_3d(nx, ny, nz, i, j, k);
    lemma_node_3d(nx, ny, nz, i + 1, j, k);
    lemma_node_3d(nx, ny, nz, i + 1, j + 1, k);
    lemma_node_3d(nx, ny, nz, i, j + 1, k);
    lemma_node_3d(nx, ny, nz, i, j, k + 1);
    lemma_node_3d(nx, ny, nz, i + 1, j, k + 1);
    lemma_node_3d(nx, ny, nz, i + 1, j + 1, k + 1);
    lemma_node_3d(nx, ny, nz, i, j + 1, k + 1);
}

/// A 3D hierarchy starts with the given grid; each coarser level halves
/// all three counts of the level before it, which were even and above
/// `min`; the coarsest level stops the halving.
pub proof fn lemma_mg_levels_3d(cx: nat, cy: nat, cz: nat, min: nat)
    ensures
        mg_levels_3d(cx, cy, cz, min).len() >= 1,
        mg_levels_3d(cx, cy, cz, min)[0] == (cx, cy, cz),
        forall|l: int| 0 <= l < mg_levels_3d(cx, cy, cz, min).len() - 1 ==> {
            let a = #[trigger] mg_levels_3d(cx, cy, cz, min)[l];
            let b = mg_levels_3d(cx, cy, cz, min)[l + 1];
            &&& a.0 > min && a.1 > min && a.2 > min && a.0 % 2 == 0 && a.1 % 2 == 0 && a.2 % 2 == 0
            &&& b == (a.0 / 2, a.1 / 2, a.2 / 2)
        },
        ({
            let last = mg_levels_3d(cx, cy, cz, min).last();
            last.0 <= min || last.1 <= min || last.2 <= min || last.0 % 2 != 0 || last.1 % 2 != 0 || last.2 % 2 != 0
        }),
    decreases cx,
{
    if !(cx <= min || cy <= min || cz <= min || cx % 2 != 0 || cy % 2 != 0 || cz % 2 != 0) {
        lemma_mg_levels_3d(cx / 2, cy / 2, cz / 2, min);
        let s = mg_levels_3d(cx, cy, cz, min);
        let t = mg_levels_3d(cx / 2, cy / 2, cz / 2, min);
        assert forall|l: int| 0 <= l < s.len() - 1 implies {
            let a = #[trigger] s[l];
            let b = s[l + 1];
            &&& a.0 > min && a.1 > min && a.2 > min && a.0 % 2 == 0 && a.1 % 2 == 0 && a.2 % 2 == 0
            &&& b == (a.0 / 2, a.1 / 2, a.2 / 2)
        } by {
            if l > 0 {
                assert(s[l] == t[l - 1]);
                assert(s[l + 1] == t[l]);
            }
        }
    }
}

/// The boundary nodes of a grid of `nx` by `ny` cells are exactly the
/// nodes of its bottom and top rows and of its left and right columns.
pub proof fn lemma_quad_boundary_is_the_border(nx: int, ny: int)
    requires
        nx >= 1,
        ny >= 1,
    ensures
        forall|i: int, j: int| 0 <= i <= nx && 0 <= j <= ny ==> (boundary_below_2d(
            nx,
            ny,
            ((nx + 1) * (ny + 1)) as nat,
        ).contains(#[trigger] node_id_2d(nx, i, j)) <==> (i == 0 || i == nx || j == 0 || j == ny)),
        forall|m: int| #[trigger] boundary_below_2d(nx, ny, ((nx + 1) * (ny + 1)) as nat).contains(m) ==> 0 <= m < (nx + 1) * (
        ny + 1),
{
    let total = ((nx + 1) * (ny + 1)) as nat;
    assert(0 <= (nx + 1) * (ny + 1)) by (nonlinear_arith)
        requires
            nx >= 1,
            ny >= 1,
    ;
    lemma_boundary_below_2d(nx, ny, total);
    let b = boundary_below_2d(nx, ny, total);
    assert forall|i: int, j: int| 0 <= i <= nx && 0 <= j <= ny implies (b.contains(#[trigger] node_id_2d(nx, i, j)) <==> (
    i == 0 || i == nx || j == 0 || j == ny)) by {
        lemma_row_major(nx, i, j);
        lemma_node_in_grid_2d(nx, ny, i, j);
        let n = node_id_2d(nx, i, j);
        if b.contains(n) {
            let p = choose|p: int| 0 <= p < b.len() && b[p] == n;
            assert(on_boundary_2d(nx, ny, b[p]));
        }
    }
    assert forall|m: int| #[trigger] b.contains(m) implies 0 <= m < (nx + 1) * (ny + 1) by {
        let p = choose|p: int| 0 <= p < b.len() && b[p] == m;
        assert(0 <= b[p] < total);
    }
}

/// The boundary nodes of a grid of `nx` by `ny` by `nz` cells are exactly
/// the nodes on its six faces.
pub proof fn lemma_hex_boundary_is_the_surface(nx: int, ny: int, nz: int)
    requires
        nx >= 1,
        ny >= 1,
        nz >= 1,
    ensures
        forall|i: int, j: int, k: int| 0 <= i <= nx && 0 <= j <= ny && 0 <= k <= nz ==> (boundary_below_3d(
            nx,
            ny,
            nz,
            ((nx + 1) * (ny + 1) * (nz + 1)) as nat,
        ).contains(#[trigger] node_id_3d(nx, ny, i, j, k)) <==> (i == 0 || i == nx || j == 0 || j == ny || k == 0 || k
            == nz)),
        forall|m: int| #[trigger] boundary_below_3d(nx, ny, nz, ((nx + 1) * (ny + 1) * (nz + 1)) as nat).contains(m) ==> 0
            <= m < (nx + 1) * (ny + 1) * (nz + 1),
{
    let total = ((nx + 1) * (ny + 1) * (nz + 1)) as nat;
    assert(0 <= (nx + 1) * (ny + 1) * (nz + 1)) by (nonlinear_arith)
        requires
            nx >= 1,
            ny >= 1,
            nz >= 1,
    ;
    lemma_boundary_below_3d(nx, ny, nz, total);
    let b = boundary_below_3d(nx, ny, nz, total);
    assert forall|i: int, j: int, k: int| 0 <= i <= nx && 0 <= j <= ny && 0 <= k <= nz implies (b.contains(
        #[trigger] node_id_3d(nx, ny, i, j, k),
    ) <==> (i == 0 || i == nx || j == 0 || j == ny || k == 0 || k == nz)) by {
        lemma_node_3d(nx, ny, nz, i, j, k);
        let n = node_id_3d(nx, ny, i, j, k);
        if b.contains(n) {
            let p = choose|p: int| 0 <= p < b.len() && b[p] == n;
            assert(on_boundary_3d(nx, ny, nz, b[p]));
        }
    }
    assert forall|m: int| #[trigger] b.contains(m) implies 0 <= m < (nx + 1) * (ny + 1) * (nz + 1) by {
        let p = choose|p: int| 0 <= p < b.len() && b[p] == m;
        assert(0 <= b[p] < total);
    }
}

/// The cell with lower left node `n` has the nodes `n`, `n + 1`, the node
/// right above `n + 1` and the node right above `n`, in this order, a row
/// of nodes holding `nx + 1` nodes.
pub proof fn lemma_quad_cell_corners(nx: int, i: int, j: int)
    ensures
        ({
            let n = j * (nx + 1) + i;
            quad_cell(nx, i, j) == seq![n, n + 1, n + 1 + (nx + 1), n + (nx + 1)]
        }),
{
    let n = j * (nx + 1) + i;
    assert((j + 1) * (nx + 1) == j * (nx + 1) + (nx + 1)) by (nonlinear_arith);
    assert(quad_cell(nx, i, j) =~= seq![n, n + 1, n + 1 + (nx + 1), n + (nx + 1)]);
}

/// The cell with lower front left node `n` has the bottom face `n`, `n + 1`
/// and the two nodes behind them, then the top face, each node a layer of
/// `(nx + 1) * (ny + 1)` nodes above its bottom node.
pub proof fn lemma_hex_cell_corners(nx: int, ny: int, i: int, j: int, k: int)
    ensures
        ({
            let row = nx + 1;
            let layer = (nx + 1) * (ny + 1);
            let n = k * layer + j * row + i;
            hex_cell(nx, ny, i, j, k) == seq![
                n,
                n + 1,
                n + 1 + row,
                n + row,
                n + layer,
                n + 1 + layer,
                n + 1 + row + layer,
                n + row + layer,
            ]
        }),
{
    let row = nx + 1;
    let layer = (nx + 1) * (ny + 1);
    let n = k * layer + j * row + i;
    assert forall|a: int, b: int| #[trigger] node_id_3d(nx, ny, a, b, k) == k * layer + b * row + a by {
        assert((k * (ny + 1) + b) * (nx + 1) == k * ((nx + 1) * (ny + 1)) + b * (nx + 1)) by (nonlinear_arith);
    }
    assert forall|a: int, b: int| #[trigger] node_id_3d(nx, ny, a, b, k + 1) == k * layer + b * row + a + layer by {
        assert(((k + 1) * (ny + 1) + b) * (nx + 1) == k * ((nx + 1) * (ny + 1)) + b * (nx + 1) + (nx + 1) * (ny + 1))
            by (nonlinear_arith);
    }
    assert((j + 1) * row == j * row + row) by (nonlinear_arith);
    assert(hex_cell(nx, ny, i, j, k) =~= seq![
        n,
        n + 1,
        n + 1 + row,
        n + row,
        n + layer,
        n + 1 + layer,
        n + 1 + row + layer,
        n + row + layer,
    ]);
}

} // verus!
