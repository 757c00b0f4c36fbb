//! Mesh generation choices: the meshing algorithms offered, and how a
//! structured box mesh picks its cell counts from requested divisions and
//! the axes along which the geometry is thin.

use vstd::prelude::*;

verus! {

/// Meshing algorithm selector.
#[derive(Debug, Clone, Copy, PartialEq, Eq, Structural)]
pub enum MeshAlgorithm {
    /// Bowyer-Watson Delaunay triangulation (2D planar).
    DelaunayTriangle,
    /// Advancing-front method (2D planar).
    AdvancingFront,
    /// Isotropic surface remeshing of imported triangulated surfaces.
    SurfaceRemesh,
    /// Delaunay tetrahedralization of a closed surface (3D volume).
    DelaunayTet,
    /// Axis-aligned structured hexahedral meshing of the bounding box.
    StructuredHex,
    /// Convert tris to quads via pairing/split (quad-dominant).
    QuadDominant,
}

/// The label of an algorithm.
pub open spec fn algorithm_label(a: MeshAlgorithm) -> Seq<char> {
    match a {
        MeshAlgorithm::DelaunayTriangle => "Delaunay Triangulation (2D Tri3)"@,
        MeshAlgorithm::AdvancingFront => "Advancing Front (2D Tri3)"@,
        MeshAlgorithm::SurfaceRemesh => "Surface Remesh (Tri3)"@,
        MeshAlgorithm::DelaunayTet => "Delaunay Tet Meshing (Tet4)"@,
        MeshAlgorithm::StructuredHex => "Structured Hex Meshing (Hex8)"@,
        MeshAlgorithm::QuadDominant => "Quad-Dominant Surface (Quad4/Tri3)"@,
    }
}

/// The tooltip of an algorithm.
pub open spec fn algorithm_description(a: MeshAlgorithm) -> Seq<char> {
    match a {
        MeshAlgorithm::DelaunayTriangle => "Bowyer-Watson incremental Delaunay. Projects points to XY plane and triangulates. Good for planar 2D meshes."@,
        MeshAlgorithm::AdvancingFront => "Grows triangles from boundary inward, generating well-shaped elements. Good for 2D domains."@,
        MeshAlgorithm::SurfaceRemesh => "Isotropic remeshing via edge split/collapse/flip/smooth. Produces uniform surface triangulations."@,
        MeshAlgorithm::DelaunayTet => "Generates tetrahedral volume mesh inside a closed triangulated surface. Uses 3D Bowyer-Watson."@,
        MeshAlgorithm::StructuredHex => "Maps the bounding box to a structured hexahedral grid. Fast, high-quality for simple geometries."@,
        MeshAlgorithm::QuadDominant => "Converts triangulated surface to quad-dominant mesh by pairing adjacent triangles."@,
    }
}

/// The algorithms in the order they are offered.
pub open spec fn all_algorithms() -> Seq<MeshAlgorithm> {
    seq![
        MeshAlgorithm::DelaunayTriangle,
        MeshAlgorithm::AdvancingFront,
        MeshAlgorithm::SurfaceRemesh,
        MeshAlgorithm::DelaunayTet,
        MeshAlgorithm::StructuredHex,
        MeshAlgorithm::QuadDominant,
    ]
}

impl MeshAlgorithm {
    /// The label shown for this algorithm.
    pub fn label(&self) -> (s: &'static str)
        ensures
            s@ == algorithm_label(*self),
    {
        match self {
            MeshAlgorithm::DelaunayTriangle => "Delaunay Triangulation (2D Tri3)",
            MeshAlgorithm::AdvancingFront => "Advancing Front (2D Tri3)",
            MeshAlgorithm::SurfaceRemesh => "Surface Remesh (Tri3)",
            MeshAlgorithm::DelaunayTet => "Delaunay Tet Meshing (Tet4)",
            MeshAlgorithm::StructuredHex => "Structured Hex Meshing (Hex8)",
            MeshAlgorithm::QuadDominant => "Quad-Dominant Surface (Quad4/Tri3)",
        }
    }

    /// Every algorithm, each once, in the order they are offered.
    pub fn all() -> (v: Vec<MeshAlgorithm>)
        ensures
            v@ == all_algorithms(),
    {
        let v = vec![
            MeshAlgorithm::DelaunayTriangle,
            MeshAlgorithm::AdvancingFront,
            MeshAlgorithm::SurfaceRemesh,
            MeshAlgorithm::DelaunayTet,
            MeshAlgorithm::StructuredHex,
            MeshAlgorithm::QuadDominant,
        ];
        assert(v@ =~= all_algorithms());
        v
    }

    /// Short description for a tooltip.
    pub fn description(&self) -> (s: &'static str)
        ensures
            s@ == algorithm_description(*self),
    {
        match self {
            MeshAlgorithm::DelaunayTriangle => "Bowyer-Watson incremental Delaunay. Projects points to XY plane and triangulates. Good for planar 2D meshes.",
            MeshAlgorithm::AdvancingFront => "Grows triangles from boundary inward, generating well-shaped elements. Good for 2D domains.",
            MeshAlgorithm::SurfaceRemesh => "Isotropic remeshing via edge split/collapse/flip/smooth. Produces uniform surface triangulations.",
            MeshAlgorithm::DelaunayTet => "Generates tetrahedral volume mesh inside a closed triangulated surface. Uses 3D Bowyer-Watson.",
            MeshAlgorithm::StructuredHex => "Maps the bounding box to a structured hexahedral grid. Fast, high-quality for simple geometries.",
            MeshAlgorithm::QuadDominant => "Converts triangulated surface to quad-dominant mesh by pairing adjacent triangles.",
        }
    }
}

/// The number of axes flagged thin.
pub open spec fn thin_count(thin: [bool; 3]) -> nat {
    (if thin@[0] { 1nat } else { 0nat }) + (if thin@[1] { 1nat } else { 0nat }) + (if thin@[2] { 1nat } else { 0nat })
}

/// Whether a box is meshed as a flat 2D grid: its z extent is thin, or at
/// least two of its extents are.
pub fn is_flat(thin: [bool; 3]) -> (b: bool)
    ensures
        b == (thin@[2] || thin_count(thin) >= 2),
{
    let mut count: usize = 0;
    if thin[0] {
        count = count + 1;
    }
    if thin[1] {
        count = count + 1;
    }
    if thin[2] {
        count = count + 1;
    }
    thin[2] || count >= 2
}

/// At least one.
pub open spec fn at_least_one(n: usize) -> usize {
    if n < 1 {
        1
    } else {
        n
    }
}

/// The cell counts of a structured box mesh from requested divisions: one
/// cell along a thin axis (and along z for a flat mesh), otherwise the
/// requested number, at least one.
pub fn structured_divisions(thin: [bool; 3], flat: bool, divisions: [usize; 3]) -> (r: (usize, usize, usize))
    ensures
        r.0 == if thin@[0] { 1 } else { at_least_one(divisions@[0]) },
        r.1 == if thin@[1] { 1 } else { at_least_one(divisions@[1]) },
        r.2 == if thin@[2] || flat { 1 } else { at_least_one(divisions@[2]) },
{
    let nx = if thin[0] { 1 } else if divisions[0] < 1 { 1 } else { divisions[0] };
    let ny = if thin[1] { 1 } else if divisions[1] < 1 { 1 } else { divisions[1] };
    let nz = if thin[2] || flat { 1 } else if divisions[2] < 1 { 1 } else { divisions[2] };
    (nx, ny, nz)
}

} // verus!
