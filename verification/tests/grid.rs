use spinoza::constraints::constrained_indices;
use spinoza::block::BlockLayout;
use spinoza::grid::{
    hex_boundary_nodes, hex_cells, multigrid_levels_2d, multigrid_levels_3d, quad_boundary_nodes, quad_cells,
    side_edges, side_faces, Axis,
};
use spinoza::mesher::{is_flat, structured_divisions, MeshAlgorithm};

#[test]
fn quad_cells_are_numbered_row_by_row() {
    let cells = quad_cells(2, 2);
    assert_eq!(cells.len(), 4);
    assert_eq!(cells[0], [0, 1, 4, 3]);
    assert_eq!(cells[1], [1, 2, 5, 4]);
    assert_eq!(cells[3], [4, 5, 8, 7]);
}

#[test]
fn quad_boundary_nodes_of_a_small_grid() {
    assert_eq!(quad_boundary_nodes(2, 2), vec![0, 1, 2, 3, 5, 6, 7, 8]);
    let b = quad_boundary_nodes(8, 8);
    assert_eq!(b.len(), 32);
    assert_eq!(quad_boundary_nodes(1, 1), vec![0, 1, 2, 3]);
}

#[test]
fn hex_cells_and_boundary() {
    let cells = hex_cells(1, 1, 1);
    assert_eq!(cells, vec![[0, 1, 3, 2, 4, 5, 7, 6]]);
    let cells = hex_cells(2, 2, 2);
    assert_eq!(cells.len(), 8);
    assert_eq!(cells[7], [13, 14, 17, 16, 22, 23, 26, 25]);
    let b = hex_boundary_nodes(2, 2, 2);
    assert_eq!(b.len(), 26);
    assert!(!b.contains(&13));
    assert_eq!(hex_boundary_nodes(4, 4, 4).len(), 125 - 27);
}

#[test]
fn box_sides() {
    assert_eq!(side_edges(2, 1, true, 0), vec![[0, 1], [1, 2]]);
    assert_eq!(side_edges(2, 1, true, 1), vec![[3, 4], [4, 5]]);
    assert_eq!(side_edges(2, 1, false, 2), vec![[2, 5]]);
    let bottom = side_faces(1, 1, 1, Axis::Z, 0);
    assert_eq!(bottom, vec![[0, 1, 3, 2]]);
    let xmax = side_faces(1, 1, 1, Axis::X, 1);
    assert_eq!(xmax, vec![[1, 3, 7, 5]]);
    let ymin = side_faces(2, 1, 1, Axis::Y, 0);
    assert_eq!(ymin, vec![[0, 1, 7, 6], [1, 2, 8, 7]]);
}

#[test]
fn multigrid_hierarchies() {
    assert_eq!(multigrid_levels_2d(8, 8, 2).unwrap(), vec![(8, 8), (4, 4), (2, 2)]);
    assert_eq!(multigrid_levels_2d(6, 8, 2).unwrap(), vec![(6, 8), (3, 4)]);
    assert_eq!(multigrid_levels_2d(0, 8, 2).unwrap_err(), "multigrid requires nx and ny >= 1");
    assert_eq!(multigrid_levels_3d(16, 16, 8, 2).unwrap(), vec![(16, 16, 8), (8, 8, 4), (4, 4, 2)]);
    assert_eq!(multigrid_levels_3d(4, 4, 0, 2).unwrap_err(), "multigrid requires nx, ny, nz >= 1");
}

#[test]
fn structured_mesh_choices() {
    assert!(is_flat([false, false, true]));
    assert!(is_flat([true, true, false]));
    assert!(!is_flat([true, false, false]));
    assert_eq!(structured_divisions([false, true, false], false, [4, 5, 0]), (4, 1, 1));
    assert_eq!(structured_divisions([false, false, false], true, [0, 3, 7]), (1, 3, 1));
    assert_eq!(MeshAlgorithm::all().len(), 6);
    assert_eq!(MeshAlgorithm::StructuredHex.label(), "Structured Hex Meshing (Hex8)");
    assert!(MeshAlgorithm::QuadDominant.description().starts_with("Converts triangulated surface"));
}

#[test]
fn block_layout_ranges() {
    let layout = BlockLayout { block_sizes: vec![3, 4, 5] };
    assert_eq!(layout.total_size(), 12);
    assert_eq!(layout.num_blocks(), 3);
    assert_eq!(layout.block_range(0), (0, 3));
    assert_eq!(layout.block_range(2), (7, 5));
}

#[test]
fn constrained_indices_are_sorted_and_distinct() {
    assert_eq!(constrained_indices(10, &vec![7, 2, 7, 0, 2]), vec![0, 2, 7]);
    assert_eq!(constrained_indices(3, &vec![]), Vec::<usize>::new());
}

#[test]
fn node_numbering() {
    assert_eq!(spinoza::grid::node_index(3, 1, 2), 9);
    assert_eq!(spinoza::grid::node_index_3d(2, 2, 1, 1, 1), 13);
    assert_eq!(spinoza::grid::node_index_3d(2, 1, 2, 1, 1), 11);
    assert_eq!(spinoza::grid::node_index(3, 7, 0), 7);
    assert_eq!(spinoza::grid::node_index_3d(1, 1, 0, 0, 5), 20);
}
