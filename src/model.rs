//! Axis-aligned voxel grids.
use vstd::prelude::*;
use std::collections::HashMap;
use crate::color::ColorRGBA;

verus! {

/// A point or a direction in world space; opaque here, carried through.
#[verifier::external_type_specification]
#[verifier::external_body]
pub struct ExVec3(glam::Vec3);

/// A rotation in world space; opaque here, carried through.
#[verifier::external_type_specification]
#[verifier::external_body]
pub struct ExQuat(glam::Quat);

/// Relies on glam's derived `Clone` for `Vec3`, a `Copy` type: the clone is the value itself.
pub assume_specification[ <glam::Vec3 as Clone>::clone ](v: &glam::Vec3) -> (r: glam::Vec3)
    ensures
        r == *v,
;

/// Relies on glam's derived `Clone` for `Quat`, a `Copy` type: the clone is the value itself.
pub assume_specification[ <glam::Quat as Clone>::clone ](q: &glam::Quat) -> (r: glam::Quat)
    ensures
        r == *q,
;

/// Relies on glam's `Vec3::ZERO`, the origin of world space.
#[verifier::external_body]
pub(crate) fn origin() -> glam::Vec3 {
    glam::Vec3::ZERO
}

/// Relies on glam's `Quat::IDENTITY`, the rotation that leaves every vector as it is.
#[verifier::external_body]
pub(crate) fn no_rotation() -> glam::Quat {
    glam::Quat::IDENTITY
}

/// Unsigned integer triple: the extents of a grid, or a voxel coordinate in it.
#[derive(Clone, Copy, Debug, PartialEq, Eq, Structural, Hash)]
pub struct UVec3 {
    pub x: u32,
    pub y: u32,
    pub z: u32,
}

impl UVec3 {
    pub fn new(x: u32, y: u32, z: u32) -> (v: UVec3)
        ensures
            v == (UVec3 { x, y, z }),
    {
        UVec3 { x, y, z }
    }
}

/// Number of voxels in a grid of the given extents.
pub open spec fn volume(size: UVec3) -> nat {
    (size.x * size.y * size.z) as nat
}

/// Whether a coordinate lies inside a grid of the given extents.
pub open spec fn inside(size: UVec3, p: UVec3) -> bool {
    p.x < size.x && p.y < size.y && p.z < size.z
}

/// Position of a voxel in the flat array: x runs fastest, then y, then z.
pub open spec fn linear_index(size: UVec3, p: UVec3) -> int {
    p.x + p.y * size.x + p.z * (size.x * size.y)
}

/// Whether a coordinate lies inside the half-open box `[lo, hi)`.
pub open spec fn in_box(lo: UVec3, hi: UVec3, p: UVec3) -> bool {
    lo.x <= p.x < hi.x && lo.y <= p.y < hi.y && lo.z <= p.z < hi.z
}

/// Whether `p` comes before the cursor `(x, y, z)` of a fill that walks the
/// box `[lo, hi)` with x outermost and z innermost.
pub open spec fn filled_before(lo: UVec3, hi: UVec3, x: u32, y: u32, z: u32, p: UVec3) -> bool {
    in_box(lo, hi, p) && (p.x < x || (p.x == x && p.y < y) || (p.x == x && p.y == y && p.z < z))
}

/// Every coordinate inside the grid has its own slot below the volume.
pub proof fn lemma_index_in_volume(size: UVec3, p: UVec3)
    requires
        inside(size, p),
    ensures
        0 <= linear_index(size, p) < volume(size),
{
    let (sx, sy, sz) = (size.x as int, size.y as int, size.z as int);
    let (x, y, z) = (p.x as int, p.y as int, p.z as int);
    assert(0 <= x + y * sx + z * (sx * sy) < sx * sy * sz) by (nonlinear_arith)
        requires
            0 <= x < sx,
            0 <= y < sy,
            0 <= z < sz,
    {
        assert(x + y * sx <= (sy - 1) * sx + sx - 1);
        assert(x + y * sx < sy * sx);
        assert(z * (sx * sy) + sx * sy <= sz * (sx * sy));
    }
}

/// The flat order is the order of (z, y, x) read lexicographically.
pub proof fn lemma_index_order(size: UVec3, p: UVec3, q: UVec3)
    requires
        inside(size, p),
        inside(size, q),
        p.z < q.z || (p.z == q.z && p.y < q.y) || (p.z == q.z && p.y == q.y && p.x < q.x),
    ensures
        linear_index(size, p) < linear_index(size, q),
{
    let (sx, sy) = (size.x as int, size.y as int);
    let (px, py, pz) = (p.x as int, p.y as int, p.z as int);
    let (qx, qy, qz) = (q.x as int, q.y as int, q.z as int);
    assert(px + py * sx + pz * (sx * sy) < qx + qy * sx + qz * (sx * sy)) by (nonlinear_arith)
        requires
            0 <= px < sx,
            0 <= py < sy,
            0 <= qx < sx,
            0 <= qy < sy,
            0 <= pz,
            0 <= qz,
            pz < qz || (pz == qz && py < qy) || (pz == qz && py == qy && px < qx),
    {
        if pz < qz {
            assert(px + py * sx < sx * sy);
            assert(pz * (sx * sy) + sx * sy <= qz * (sx * sy));
        } else if py < qy {
            assert(px + py * sx < (py + 1) * sx);
            assert((py + 1) * sx <= qy * sx);
        }
    }
}

/// The number of voxels in a grid of the given extents.
pub fn volume_of(size: UVec3) -> (n: usize)
    requires
        volume(size) <= usize::MAX,
    ensures
        n == volume(size),
{
    proof {
        let (sx, sy) = (size.x as int, size.y as int);
        assert(sx * sy <= 0xffff_ffff * 0xffff_ffffint) by (nonlinear_arith)
            requires
                0 <= sx <= 0xffff_ffff,
                0 <= sy <= 0xffff_ffff,
        ;
    }
    let xy: u64 = (size.x as u64) * (size.y as u64);
    let xyz: u64 = xy * (size.z as u64);
    xyz as usize
}

/// Position of a coordinate of the grid in the flat voxel array.
pub fn index_of(size: UVec3, p: UVec3) -> (i: usize)
    requires
        inside(size, p),
        volume(size) <= usize::MAX,
    ensures
        i == linear_index(size, p),
{
    proof {
        lemma_index_in_volume(size, p);
        let (sx, sy) = (size.x as int, size.y as int);
        let (y, z) = (p.y as int, p.z as int);
        assert(0 <= y * sx && 0 <= z * (sx * sy) && sx * sy <= 0xffff_ffff * 0xffff_ffffint)
            by (nonlinear_arith)
            requires
                0 <= y,
                0 <= z,
                0 <= sx <= 0xffff_ffff,
                0 <= sy <= 0xffff_ffff,
        ;
    }
    let row: u64 = (p.y as u64) * (size.x as u64);
    let layer: u64 = (size.x as u64) * (size.y as u64);
    let slab: u64 = (p.z as u64) * layer;
    (p.x as u64 + row + slab) as usize
}

/// Axis-aligned voxel grid with a world transform.
///
/// `voxels` holds one colour per cell, at the position that `linear_index`
/// gives. `replace_colors` retints the grid when it is sampled.
#[derive(Clone, Debug)]
pub struct Model {
    pub size: UVec3,
    pub voxels: Vec<ColorRGBA>,
    pub offset: glam::Vec3,
    pub rotation: glam::Quat,
    pub replace_colors: HashMap<ColorRGBA, ColorRGBA>,
}

impl Model {
    /// The voxel array has one cell for each coordinate of the grid.
    pub open spec fn wf(&self) -> bool {
        &&& self.voxels@.len() == volume(self.size)
        &&& volume(self.size) <= usize::MAX
    }

    /// The colour stored at a coordinate of the grid.
    pub open spec fn voxel(&self, p: UVec3) -> ColorRGBA {
        self.voxels@[linear_index(self.size, p)]
    }

    /// An empty grid of the given extents, at the origin, unrotated.
    pub fn new(size: UVec3) -> (m: Model)
        requires
            volume(size) <= usize::MAX,
        ensures
            m.wf(),
            m.size == size,
            forall|p: UVec3| inside(size, p) ==> #[trigger] m.voxel(p) == ColorRGBA::spec_empty(),
            m.replace_colors@ == Map::<ColorRGBA, ColorRGBA>::empty(),
    {
        let n = volume_of(size);
        let voxels = vec![ColorRGBA::empty(); n];
        proof {
            assert forall|p: UVec3| inside(size, p) implies voxels@[linear_index(size, p)]
                == ColorRGBA::spec_empty() by {
                lemma_index_in_volume(size, p);
            }
        }
        Model {
            size,
            voxels,
            offset: origin(),
            rotation: no_rotation(),
            replace_colors: HashMap::new(),
        }
    }

    /// A grid of the given extents whose every voxel is what `generator` gives
    /// for its coordinate; at the origin, unrotated.
    pub fn from_function<F: Fn(UVec3) -> ColorRGBA>(size: UVec3, generator: F) -> (m: Model)
        requires
            volume(size) <= usize::MAX,
            forall|p: UVec3| inside(size, p) ==> generator.requires((p,)),
        ensures
            m.wf(),
            m.size == size,
            forall|p: UVec3| inside(size, p) ==> generator.ensures((p,), #[trigger] m.voxel(p)),
            m.replace_colors@ == Map::<ColorRGBA, ColorRGBA>::empty(),
    {
        let mut voxels: Vec<ColorRGBA> = Vec::new();
        let ghost sx = size.x as int;
        let ghost layer: int = sx * (size.y as int);
        let mut z: u32 = 0;
        assert(0 * layer == 0);
        while z < size.z
            invariant
                z <= size.z,
                volume(size) <= usize::MAX,
                forall|p: UVec3| inside(size, p) ==> generator.requires((p,)),
                sx == size.x,
                layer == size.x * size.y,
                voxels@.len() == z * layer,
                forall|p: UVec3|
                    inside(size, p) && p.z < z ==> generator.ensures(
                        (p,),
                        #[trigger] voxels@[linear_index(size, p)],
                    ),
            decreases size.z - z,
        {
            let mut y: u32 = 0;
            while y < size.y
                invariant
                    z < size.z,
                    y <= size.y,
                    volume(size) <= usize::MAX,
                    forall|p: UVec3| inside(size, p) ==> generator.requires((p,)),
                    sx == size.x,
                    layer == size.x * size.y,
                    voxels@.len() == z * layer + y * sx,
                    forall|p: UVec3|
                        inside(size, p) && (p.z < z || (p.z == z && p.y < y))
                            ==> generator.ensures((p,), #[trigger] voxels@[linear_index(size, p)]),
                decreases size.y - y,
            {
                let mut x: u32 = 0;
                while x < size.x
                    invariant
                        z < size.z,
                        y < size.y,
                        x <= size.x,
                        forall|p: UVec3| inside(size, p) ==> generator.requires((p,)),
                        sx == size.x,
                        layer == size.x * size.y,
                        voxels@.len() == z * layer + y * sx + x,
                        forall|p: UVec3|
                            inside(size, p) && (p.z < z || (p.z == z && p.y < y) || (p.z == z
                                && p.y == y && p.x < x)) ==> generator.ensures(
                                (p,),
                                #[trigger] voxels@[linear_index(size, p)],
                            ),
                    decreases size.x - x,
                {
                    let q = UVec3 { x, y, z };
                    assert(inside(size, q));
                    let c = generator(q);
                    let ghost before = voxels@;
                    voxels.push(c);
                    proof {
                        assert(linear_index(size, q) == before.len());
                        assert forall|p: UVec3|
                            inside(size, p) && (p.z < z || (p.z == z && p.y < y) || (p.z == z
                                && p.y == y && p.x <= x)) implies generator.ensures(
                            (p,),
                            #[trigger] voxels@[linear_index(size, p)],
                        ) by {
                            if p != q {
                                lemma_index_order(size, p, q);
                            }
                        }
                    }
                    x = x + 1;
                }
                proof {
                    assert((y + 1) * sx == y * sx + sx) by (nonlinear_arith);
                }
                y = y + 1;
            }
            proof {
                assert((z + 1) * layer == z * layer + y * sx) by (nonlinear_arith)
                    requires
                        y == size.y,
                        sx == size.x,
                        layer == size.x * size.y,
                ;
            }
            z = z + 1;
        }
        assert(volume(size) == z * layer) by (nonlinear_arith)
            requires
                z == size.z,
                layer == size.x * size.y,
        ;
        Model {
            size,
            voxels,
            offset: origin(),
            rotation: no_rotation(),
            replace_colors: HashMap::new(),
        }
    }

    /// The colour at a coordinate of the grid.
    pub fn get_voxel(&self, p: UVec3) -> (c: ColorRGBA)
        requires
            self.wf(),
            inside(self.size, p),
        ensures
            c == self.voxel(p),
    {
        proof {
            lemma_index_in_volume(self.size, p);
        }
        self.voxels[index_of(self.size, p)]
    }

    /// Paints every voxel of the half-open box `[lo, hi)` that lies inside the
    /// grid; the part of the box outside the grid is ignored.
    pub fn fill_box(&mut self, lo: UVec3, hi: UVec3, color: ColorRGBA)
        requires
            old(self).wf(),
        ensures
            final(self).wf(),
            final(self).size == old(self).size,
            final(self).offset == old(self).offset,
            final(self).rotation == old(self).rotation,
            final(self).replace_colors == old(self).replace_colors,
            forall|p: UVec3|
                inside(old(self).size, p) ==> #[trigger] final(self).voxel(p) == if in_box(
                    lo,
                    hi,
                    p,
                ) {
                    color
                } else {
                    old(self).voxel(p)
                },
    {
        let size = self.size;
        let hx = if hi.x < size.x { hi.x } else { size.x };
        let hy = if hi.y < size.y { hi.y } else { size.y };
        let hz = if hi.z < size.z { hi.z } else { size.z };
        let top = UVec3 { x: hx, y: hy, z: hz };
        let mut x: u32 = lo.x;
        while x < hx
            invariant
                self.wf(),
                self.size == size,
                self.offset == old(self).offset,
                self.rotation == old(self).rotation,
                self.replace_colors == old(self).replace_colors,
                old(self).wf(),
                old(self).size == size,
                top == (UVec3 { x: hx, y: hy, z: hz }),
                hx <= size.x,
                hy <= size.y,
                hz <= size.z,
                lo.x <= x || x >= hx,
                forall|p: UVec3|
                    inside(size, p) ==> #[trigger] self.voxel(p) == if filled_before(
                        lo,
                        top,
                        x,
                        lo.y,
                        lo.z,
                        p,
                    ) {
                        color
                    } else {
                        old(self).voxel(p)
                    },
            decreases hx - x,
        {
            let mut y: u32 = lo.y;
            while y < hy
                invariant
                    self.wf(),
                    self.size == size,
                    self.offset == old(self).offset,
                    self.rotation == old(self).rotation,
                    self.replace_colors == old(self).replace_colors,
                    old(self).wf(),
                    old(self).size == size,
                    top == (UVec3 { x: hx, y: hy, z: hz }),
                    hx <= size.x,
                    hy <= size.y,
                    hz <= size.z,
                    lo.x <= x < hx,
                    lo.y <= y || y >= hy,
                    forall|p: UVec3|
                        inside(size, p) ==> #[trigger] self.voxel(p) == if filled_before(
                            lo,
                            top,
                            x,
                            y,
                            lo.z,
                            p,
                        ) {
                            color
                        } else {
                            old(self).voxel(p)
                        },
                decreases hy - y,
            {
                let mut z: u32 = lo.z;
                while z < hz
                    invariant
                        self.wf(),
                        self.size == size,
                        self.offset == old(self).offset,
                        self.rotation == old(self).rotation,
                        self.replace_colors == old(self).replace_colors,
                        old(self).wf(),
                        old(self).size == size,
                        top == (UVec3 { x: hx, y: hy, z: hz }),
                        hx <= size.x,
                        hy <= size.y,
                        hz <= size.z,
                        lo.x <= x < hx,
                        lo.y <= y < hy,
                        lo.z <= z || z >= hz,
                        forall|p: UVec3|
                            inside(size, p) ==> #[trigger] self.voxel(p) == if filled_before(
                                lo,
                                top,
                                x,
                                y,
                                z,
                                p,
                            ) {
                                color
                            } else {
                                old(self).voxel(p)
                            },
                    decreases hz - z,
                {
                    self.set_voxel(UVec3 { x, y, z }, color);
                    z = z + 1;
                }
                y = y + 1;
            }
            x = x + 1;
        }
    }

    /// The colour a voxel is drawn with: its replacement when `replace_colors`
    /// has one for the stored colour, else the stored colour itself.
    pub open spec fn spec_diffuse_at(&self, p: UVec3) -> ColorRGBA {
        let c = self.voxel(p);
        if self.replace_colors@.contains_key(c) {
            self.replace_colors@[c]
        } else {
            c
        }
    }

    /// Samples the colour a voxel is drawn with. The result is pinned down
    /// wherever colours behave as hash keys, as their derived `Eq` and `Hash`
    /// make them do.
    pub fn diffuse_at(&self, p: UVec3) -> (c: ColorRGBA)
        requires
            self.wf(),
            inside(self.size, p),
        ensures
            vstd::std_specs::hash::obeys_key_model::<ColorRGBA>()
                && vstd::std_specs::hash::builds_valid_hashers::<std::hash::RandomState>() ==> c
                == self.spec_diffuse_at(p),
    {
        let stored = self.get_voxel(p);
        match self.replace_colors.get(&stored) {
            Some(r) => *r,
            None => stored,
        }
    }

    /// Writes a colour at a coordinate of the grid; nothing else changes.
    pub fn set_voxel(&mut self, p: UVec3, v: ColorRGBA)
        requires
            old(self).wf(),
            inside(old(self).size, p),
        ensures
            final(self).wf(),
            final(self).size == old(self).size,
            final(self).voxels@ == old(self).voxels@.update(linear_index(old(self).size, p), v),
            final(self).offset == old(self).offset,
            final(self).rotation == old(self).rotation,
            final(self).replace_colors == old(self).replace_colors,
            forall|q: UVec3|
                inside(old(self).size, q) ==> #[trigger] final(self).voxel(q) == if q == p {
                    v
                } else {
                    old(self).voxel(q)
                },
    {
        proof {
            lemma_index_in_volume(self.size, p);
        }
        let i = index_of(self.size, p);
        self.voxels.set(i, v);
        proof {
            assert forall|q: UVec3| inside(old(self).size, q) implies #[trigger] self.voxel(q) == if q
                == p {
                v
            } else {
                old(self).voxel(q)
            } by {
                lemma_index_in_volume(self.size, q);
                if q.z < p.z || (q.z == p.z && q.y < p.y) || (q.z == p.z && q.y == p.y && q.x < p.x) {
                    lemma_index_order(self.size, q, p);
                } else if q != p {
                    lemma_index_order(self.size, p, q);
                }
            }
        }
    }
}

} // verus!
