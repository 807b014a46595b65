//! The ship's mesh data: the hull and the forward thruster cones, as
//! ordered polygon lists in ship-local coordinates. One mesh instance is
//! shared, reference-counted, by every object that renders it.

use vstd::prelude::*;

verus! {

use crate::fixed::Fx;
use crate::math::{Vec3, v3};

/// The hull mesh as polygon vertex lists.
pub open spec fn spec_hull_mesh() -> Seq<Seq<Vec3>> {
    seq![
        seq![v3(-262144, 0, 131072), v3(-131072, 65536, 131072), v3(131072, 65536, 131072), v3(262144, 0, 131072), v3(131072, -65536, 131072), v3(-131072, -65536, 131072)],
        seq![v3(-196608, 0, 0), v3(0, 65536, 0), v3(196608, 0, 0), v3(0, -65536, 0)],
        seq![v3(-131072, 32768, 131072), v3(-131072, -32768, 131072), v3(-196608, 0, 131072)],
        seq![v3(131072, 32768, 131072), v3(131072, -32768, 131072), v3(196608, 0, 131072)],
        seq![v3(-131072, 65536, 131072), v3(131072, 65536, 131072), v3(0, 65536, 0)],
        seq![v3(131072, -65536, 131072), v3(-131072, -65536, 131072), v3(0, -65536, 0)],
        seq![v3(0, 65536, 0), v3(196608, 0, 0), v3(131072, 65536, 131072)],
        seq![v3(196608, 0, 0), v3(0, -65536, 0), v3(131072, -65536, 131072)],
        seq![v3(-196608, 0, 0), v3(0, 65536, 0), v3(-131072, 65536, 131072)],
        seq![v3(-196608, 0, 0), v3(0, -65536, 0), v3(-131072, -65536, 131072)],
        seq![v3(-262144, 0, 131072), v3(-131072, 65536, 131072), v3(-196608, 0, 0)],
        seq![v3(131072, 65536, 131072), v3(262144, 0, 131072), v3(196608, 0, 0)],
        seq![v3(262144, 0, 131072), v3(131072, -65536, 131072), v3(196608, 0, 0)],
        seq![v3(-262144, 0, 131072), v3(-131072, -65536, 131072), v3(-196608, 0, 0)],
        seq![v3(-196608, 0, 0), v3(0, 65536, 0), v3(0, 0, -131072)],
        seq![v3(0, 65536, 0), v3(196608, 0, 0), v3(0, 0, -131072)],
        seq![v3(196608, 0, 0), v3(0, -65536, 0), v3(0, 0, -131072)],
        seq![v3(-196608, 0, 0), v3(0, -65536, 0), v3(0, 0, -131072)]
    ]
}

/// The forward thruster mesh as polygon vertex lists.
pub open spec fn spec_front_thruster_mesh() -> Seq<Seq<Vec3>> {
    seq![
        seq![v3(-131072, 32768, 131072), v3(-131072, -32768, 131072), v3(-196608, 0, 131072)],
        seq![v3(131072, 32768, 131072), v3(131072, -32768, 131072), v3(196608, 0, 131072)]
    ]
}

/// Build the ship hull mesh.
pub fn hull_mesh() -> (r: Vec<Vec<Vec3>>)
    ensures
        r@.map_values(|p: Vec<Vec3>| p@) == spec_hull_mesh(),
{
    let r: Vec<Vec<Vec3>> = vec![
        vec![Vec3 { x: Fx::from_raw(-262144), y: Fx::from_raw(0), z: Fx::from_raw(131072) }, Vec3 { x: Fx::from_raw(-131072), y: Fx::from_raw(65536), z: Fx::from_raw(131072) }, Vec3 { x: Fx::from_raw(131072), y: Fx::from_raw(65536), z: Fx::from_raw(131072) }, Vec3 { x: Fx::from_raw(262144), y: Fx::from_raw(0), z: Fx::from_raw(131072) }, Vec3 { x: Fx::from_raw(131072), y: Fx::from_raw(-65536), z: Fx::from_raw(131072) }, Vec3 { x: Fx::from_raw(-131072), y: Fx::from_raw(-65536), z: Fx::from_raw(131072) }],
        vec![Vec3 { x: Fx::from_raw(-196608), y: Fx::from_raw(0), z: Fx::from_raw(0) }, Vec3 { x: Fx::from_raw(0), y: Fx::from_raw(65536), z: Fx::from_raw(0) }, Vec3 { x: Fx::from_raw(196608), y: Fx::from_raw(0), z: Fx::from_raw(0) }, Vec3 { x: Fx::from_raw(0), y: Fx::from_raw(-65536), z: Fx::from_raw(0) }],
        vec![Vec3 { x: Fx::from_raw(-131072), y: Fx::from_raw(32768), z: Fx::from_raw(131072) }, Vec3 { x: Fx::from_raw(-131072), y: Fx::from_raw(-32768), z: Fx::from_raw(131072) }, Vec3 { x: Fx::from_raw(-196608), y: Fx::from_raw(0), z: Fx::from_raw(131072) }],
        vec![Vec3 { x: Fx::from_raw(131072), y: Fx::from_raw(32768), z: Fx::from_raw(131072) }, Vec3 { x: Fx::from_raw(131072), y: Fx::from_raw(-32768), z: Fx::from_raw(131072) }, Vec3 { x: Fx::from_raw(196608), y: Fx::from_raw(0), z: Fx::from_raw(131072) }],
        vec![Vec3 { x: Fx::from_raw(-131072), y: Fx::from_raw(65536), z: Fx::from_raw(131072) }, Vec3 { x: Fx::from_raw(131072), y: Fx::from_raw(65536), z: Fx::from_raw(131072) }, Vec3 { x: Fx::from_raw(0), y: Fx::from_raw(65536), z: Fx::from_raw(0) }],
        vec![Vec3 { x: Fx::from_raw(131072), y: Fx::from_raw(-65536), z: Fx::from_raw(131072) }, Vec3 { x: Fx::from_raw(-131072), y: Fx::from_raw(-65536), z: Fx::from_raw(131072) }, Vec3 { x: Fx::from_raw(0), y: Fx::from_raw(-65536), z: Fx::from_raw(0) }],
        vec![Vec3 { x: Fx::from_raw(0), y: Fx::from_raw(65536), z: Fx::from_raw(0) }, Vec3 { x: Fx::from_raw(196608), y: Fx::from_raw(0), z: Fx::from_raw(0) }, Vec3 { x: Fx::from_raw(131072), y: Fx::from_raw(65536), z: Fx::from_raw(131072) }],
        vec![Vec3 { x: Fx::from_raw(196608), y: Fx::from_raw(0), z: Fx::from_raw(0) }, Vec3 { x: Fx::from_raw(0), y: Fx::from_raw(-65536), z: Fx::from_raw(0) }, Vec3 { x: Fx::from_raw(131072), y: Fx::from_raw(-65536), z: Fx::from_raw(131072) }],
        vec![Vec3 { x: Fx::from_raw(-196608), y: Fx::from_raw(0), z: Fx::from_raw(0) }, Vec3 { x: Fx::from_raw(0), y: Fx::from_raw(65536), z: Fx::from_raw(0) }, Vec3 { x: Fx::from_raw(-131072), y: Fx::from_raw(65536), z: Fx::from_raw(131072) }],
        vec![Vec3 { x: Fx::from_raw(-196608), y: Fx::from_raw(0), z: Fx::from_raw(0) }, Vec3 { x: Fx::from_raw(0), y: Fx::from_raw(-65536), z: Fx::from_raw(0) }, Vec3 { x: Fx::from_raw(-131072), y: Fx::from_raw(-65536), z: Fx::from_raw(131072) }],
        vec![Vec3 { x: Fx::from_raw(-262144), y: Fx::from_raw(0), z: Fx::from_raw(131072) }, Vec3 { x: Fx::from_raw(-131072), y: Fx::from_raw(65536), z: Fx::from_raw(131072) }, Vec3 { x: Fx::from_raw(-196608), y: Fx::from_raw(0), z: Fx::from_raw(0) }],
        vec![Vec3 { x: Fx::from_raw(131072), y: Fx::from_raw(65536), z: Fx::from_raw(131072) }, Vec3 { x: Fx::from_raw(262144), y: Fx::from_raw(0), z: Fx::from_raw(131072) }, Vec3 { x: Fx::from_raw(196608), y: Fx::from_raw(0), z: Fx::from_raw(0) }],
        vec![Vec3 { x: Fx::from_raw(262144), y: Fx::from_raw(0), z: Fx::from_raw(131072) }, Vec3 { x: Fx::from_raw(131072), y: Fx::from_raw(-65536), z: Fx::from_raw(131072) }, Vec3 { x: Fx::from_raw(196608), y: Fx::from_raw(0), z: Fx::from_raw(0) }],
        vec![Vec3 { x: Fx::from_raw(-262144), y: Fx::from_raw(0), z: Fx::from_raw(131072) }, Vec3 { x: Fx::from_raw(-131072), y: Fx::from_raw(-65536), z: Fx::from_raw(131072) }, Vec3 { x: Fx::from_raw(-196608), y: Fx::from_raw(0), z: Fx::from_raw(0) }],
        vec![Vec3 { x: Fx::from_raw(-196608), y: Fx::from_raw(0), z: Fx::from_raw(0) }, Vec3 { x: Fx::from_raw(0), y: Fx::from_raw(65536), z: Fx::from_raw(0) }, Vec3 { x: Fx::from_raw(0), y: Fx::from_raw(0), z: Fx::from_raw(-131072) }],
        vec![Vec3 { x: Fx::from_raw(0), y: Fx::from_raw(65536), z: Fx::from_raw(0) }, Vec3 { x: Fx::from_raw(196608), y: Fx::from_raw(0), z: Fx::from_raw(0) }, Vec3 { x: Fx::from_raw(0), y: Fx::from_raw(0), z: Fx::from_raw(-131072) }],
        vec![Vec3 { x: Fx::from_raw(196608), y: Fx::from_raw(0), z: Fx::from_raw(0) }, Vec3 { x: Fx::from_raw(0), y: Fx::from_raw(-65536), z: Fx::from_raw(0) }, Vec3 { x: Fx::from_raw(0), y: Fx::from_raw(0), z: Fx::from_raw(-131072) }],
        vec![Vec3 { x: Fx::from_raw(-196608), y: Fx::from_raw(0), z: Fx::from_raw(0) }, Vec3 { x: Fx::from_raw(0), y: Fx::from_raw(-65536), z: Fx::from_raw(0) }, Vec3 { x: Fx::from_raw(0), y: Fx::from_raw(0), z: Fx::from_raw(-131072) }]
    ];
    proof {
        assert(r@.map_values(|p: Vec<Vec3>| p@) =~~= spec_hull_mesh());
    }
    r
}

/// Build the forward thruster mesh.
pub fn front_thruster_mesh() -> (r: Vec<Vec<Vec3>>)
    ensures
        r@.map_values(|p: Vec<Vec3>| p@) == spec_front_thruster_mesh(),
{
    let r: Vec<Vec<Vec3>> = vec![
        vec![Vec3 { x: Fx::from_raw(-131072), y: Fx::from_raw(32768), z: Fx::from_raw(131072) }, Vec3 { x: Fx::from_raw(-131072), y: Fx::from_raw(-32768), z: Fx::from_raw(131072) }, Vec3 { x: Fx::from_raw(-196608), y: Fx::from_raw(0), z: Fx::from_raw(131072) }],
        vec![Vec3 { x: Fx::from_raw(131072), y: Fx::from_raw(32768), z: Fx::from_raw(131072) }, Vec3 { x: Fx::from_raw(131072), y: Fx::from_raw(-32768), z: Fx::from_raw(131072) }, Vec3 { x: Fx::from_raw(196608), y: Fx::from_raw(0), z: Fx::from_raw(131072) }]
    ];
    proof {
        assert(r@.map_values(|p: Vec<Vec3>| p@) =~~= spec_front_thruster_mesh());
    }
    r
}

} // verus!
