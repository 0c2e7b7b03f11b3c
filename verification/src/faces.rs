//! The six faces of the cube map and the axes that each camera looks along.

use vstd::prelude::*;

verus! {

/// A direction with whole-number coordinates.
#[derive(Clone, Copy, Debug, PartialEq, Eq, Structural)]
pub struct Axis {
    pub x: i8,
    pub y: i8,
    pub z: i8,
}

/// Whole-number coordinates of a direction.
pub type Coords = (int, int, int);

/// The dot product.
pub open spec fn dot(a: Coords, b: Coords) -> int {
    a.0 * b.0 + a.1 * b.1 + a.2 * b.2
}

/// The cross product `a × b`.
pub open spec fn cross(a: Coords, b: Coords) -> Coords {
    (a.1 * b.2 - a.2 * b.1, a.2 * b.0 - a.0 * b.2, a.0 * b.1 - a.1 * b.0)
}

/// Whether `forward` and `up` are unit vectors at right angles, so that with
/// `up × forward` they make an orthonormal basis.
pub open spec fn orthonormal(forward: Coords, up: Coords) -> bool {
    let right = cross(up, forward);
    &&& dot(forward, forward) == 1
    &&& dot(up, up) == 1
    &&& dot(forward, up) == 0
    &&& dot(right, right) == 1
    &&& dot(right, forward) == 0
    &&& dot(right, up) == 0
}

impl Axis {
    /// The coordinates as mathematical integers.
    pub open spec fn coords(self) -> Coords {
        (self.x as int, self.y as int, self.z as int)
    }
}

/// A face of the cube map.
#[derive(Clone, Copy, Debug, PartialEq, Eq, Structural)]
pub enum CubeFace {
    North,
    South,
    East,
    West,
    Up,
    Down,
}

impl CubeFace {
    /// The direction the camera of this face looks in.
    pub open spec fn spec_forward(self) -> Axis {
        match self {
            CubeFace::North => Axis { x: 0, y: 0, z: 1 },
            CubeFace::South => Axis { x: 0, y: 0, z: -1i8 },
            CubeFace::East => Axis { x: 1, y: 0, z: 0 },
            CubeFace::West => Axis { x: -1i8, y: 0, z: 0 },
            CubeFace::Up => Axis { x: 0, y: 1, z: 0 },
            CubeFace::Down => Axis { x: 0, y: -1i8, z: 0 },
        }
    }

    /// The direction that is up in the image of this face.
    pub open spec fn spec_up(self) -> Axis {
        match self {
            CubeFace::North => Axis { x: 0, y: 1, z: 0 },
            CubeFace::South => Axis { x: 0, y: 1, z: 0 },
            CubeFace::East => Axis { x: 0, y: 1, z: 0 },
            CubeFace::West => Axis { x: 0, y: 1, z: 0 },
            CubeFace::Up => Axis { x: 0, y: 0, z: 1 },
            CubeFace::Down => Axis { x: 0, y: 0, z: 1 },
        }
    }

    /// The place of the face in the order of rendering.
    pub open spec fn position(self) -> int {
        match self {
            CubeFace::North => 0,
            CubeFace::South => 1,
            CubeFace::East => 2,
            CubeFace::West => 3,
            CubeFace::Up => 4,
            CubeFace::Down => 5,
        }
    }

    #[verifier::when_used_as_spec(spec_forward)]
    pub fn forward(self) -> (r: Axis)
        ensures
            r == self.spec_forward(),
    {
        match self {
            CubeFace::North => Axis { x: 0, y: 0, z: 1 },
            CubeFace::South => Axis { x: 0, y: 0, z: -1 },
            CubeFace::East => Axis { x: 1, y: 0, z: 0 },
            CubeFace::West => Axis { x: -1, y: 0, z: 0 },
            CubeFace::Up => Axis { x: 0, y: 1, z: 0 },
            CubeFace::Down => Axis { x: 0, y: -1, z: 0 },
        }
    }

    #[verifier::when_used_as_spec(spec_up)]
    pub fn up(self) -> (r: Axis)
        ensures
            r == self.spec_up(),
    {
        match self {
            CubeFace::North => Axis { x: 0, y: 1, z: 0 },
            CubeFace::South => Axis { x: 0, y: 1, z: 0 },
            CubeFace::East => Axis { x: 0, y: 1, z: 0 },
            CubeFace::West => Axis { x: 0, y: 1, z: 0 },
            CubeFace::Up => Axis { x: 0, y: 0, z: 1 },
            CubeFace::Down => Axis { x: 0, y: 0, z: 1 },
        }
    }

    /// The name of the face, which its image file is called by.
    pub fn name(self) -> (r: &'static str)
        ensures
            r@ == match self {
                CubeFace::North => "north"@,
                CubeFace::South => "south"@,
                CubeFace::East => "east"@,
                CubeFace::West => "west"@,
                CubeFace::Up => "up"@,
                CubeFace::Down => "down"@,
            },
    {
        match self {
            CubeFace::North => "north",
            CubeFace::South => "south",
            CubeFace::East => "east",
            CubeFace::West => "west",
            CubeFace::Up => "up",
            CubeFace::Down => "down",
        }
    }
}

/// The faces to render, in order: all six, or the north face alone.
pub fn faces(north_only: bool) -> (r: Vec<CubeFace>)
    ensures
        r.len() == if north_only {
            1int
        } else {
            6int
        },
        forall|i: int| 0 <= i < r.len() ==> (#[trigger] r[i]).position() == i,
{
    let mut scenes: Vec<CubeFace> = Vec::new();
    scenes.push(CubeFace::North);
    if !north_only {
        scenes.push(CubeFace::South);
        scenes.push(CubeFace::East);
        scenes.push(CubeFace::West);
        scenes.push(CubeFace::Up);
        scenes.push(CubeFace::Down);
    }
    scenes
}

/// The camera of every face stands on an orthonormal basis: forward and up
/// are unit vectors at right angles, and so is their cross product, which
/// the camera takes for its right-hand direction.
pub proof fn lemma_face_axes_orthonormal(face: CubeFace)
    ensures
        orthonormal(face.forward().coords(), face.up().coords()),
{
    let x: Coords = (1, 0, 0);
    let y: Coords = (0, 1, 0);
    let z: Coords = (0, 0, 1);
    match face {
        CubeFace::North => {
            assert(orthonormal(z, y));
        },
        CubeFace::South => {
            assert(orthonormal((0, 0, -1), y));
        },
        CubeFace::East => {
            assert(orthonormal(x, y));
        },
        CubeFace::West => {
            assert(orthonormal((-1, 0, 0), y));
        },
        CubeFace::Up => {
            assert(orthonormal(y, z));
        },
        CubeFace::Down => {
            assert(orthonormal((0, -1, 0), z));
        },
    }
}

/// No two faces look the same way.
pub proof fn lemma_faces_look_apart(a: CubeFace, b: CubeFace)
    requires
        a.forward() == b.forward(),
    ensures
        a == b,
{
}

} // verus!
