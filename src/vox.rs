//! Import of MagicaVoxel `.vox` models into voxel grids.
use vstd::prelude::*;
use crate::color::ColorRGBA;
use crate::model::{Model, UVec3, inside, volume};

verus! {

/// An I/O failure, carried through when a file cannot be read.
#[verifier::external_type_specification]
#[verifier::external_body]
pub struct ExIoError(std::io::Error);

/// Why a `.vox` import failed.
#[derive(Debug)]
pub enum VoxImportError {
    /// The bytes are not a well-formed `.vox` file.
    Vox(String),
    /// The file could not be read.
    File(std::io::Error),
}

/// One filled cell of a `.vox` model: coordinates in the file's z-up frame,
/// and an index into the palette.
#[derive(Clone, Copy, Debug, PartialEq, Eq, Structural)]
pub struct VoxVoxel {
    pub x: u8,
    pub y: u8,
    pub z: u8,
    pub i: u8,
}

/// A `.vox` model: extents in the file's z-up frame and its filled cells.
#[derive(Clone, Debug)]
pub struct VoxModel {
    pub size: UVec3,
    pub voxels: Vec<VoxVoxel>,
}

/// The content of a `.vox` file: a palette of packed colours and the models.
#[derive(Clone, Debug)]
pub struct VoxData {
    pub palette: Vec<u32>,
    pub models: Vec<VoxModel>,
}

/// A `.vox` model as values: extents and filled cells.
pub type VoxModelView = (UVec3, Seq<VoxVoxel>);

impl VoxModel {
    pub open spec fn view(&self) -> VoxModelView {
        (self.size, self.voxels@)
    }
}

impl VoxData {
    pub open spec fn view(&self) -> (Seq<u32>, Seq<VoxModelView>) {
        (self.palette@, self.models@.map_values(|m: VoxModel| m.view()))
    }
}

/// The colour that a packed palette entry stands for. The green channel is
/// read four bits up from the red one, as the palettes this importer serves
/// were written.
pub open spec fn rgba_of(c: u32) -> ColorRGBA {
    ColorRGBA {
        r: (c & 0xff) as u8,
        g: ((c >> 4u32) & 0xff) as u8,
        b: ((c >> 8u32) & 0xff) as u8,
        a: ((c >> 16u32) & 0xff) as u8,
    }
}

/// Converts a packed palette entry to a colour.
pub fn vox_color_to_rgba(c: u32) -> (r: ColorRGBA)
    ensures
        r == rgba_of(c),
{
    ColorRGBA::new(
        (c & 0xff) as u8,
        ((c >> 4u32) & 0xff) as u8,
        ((c >> 8u32) & 0xff) as u8,
        ((c >> 16u32) & 0xff) as u8,
    )
}

/// Extents in the grid's y-up frame: the file's y and z change places.
pub open spec fn y_up(size: UVec3) -> UVec3 {
    UVec3 { x: size.x, y: size.z, z: size.y }
}

/// Where a cell of the file lands in the grid.
pub open spec fn cell_of(v: VoxVoxel) -> UVec3 {
    UVec3 { x: v.x as u32, y: v.z as u32, z: v.y as u32 }
}

/// The colour a grid coordinate gets from a list of cells: that of the last
/// cell that lands on it, or empty when none does.
pub open spec fn vox_color_at(palette: Seq<u32>, cells: Seq<VoxVoxel>, p: UVec3) -> ColorRGBA
    decreases cells.len(),
{
    if cells.len() == 0 {
        ColorRGBA::spec_empty()
    } else if cell_of(cells.last()) == p {
        rgba_of(palette[cells.last().i as int])
    } else {
        vox_color_at(palette, cells.drop_last(), p)
    }
}

/// A model that the importer can convert: every cell inside the extents,
/// every palette index present, and a grid that fits in memory.
pub open spec fn vox_model_valid(palette: Seq<u32>, m: VoxModelView) -> bool {
    &&& volume(y_up(m.0)) <= usize::MAX
    &&& forall|k: int|
        0 <= k < m.1.len() ==> {
            let v = #[trigger] m.1[k];
            &&& (v.x as u32) < m.0.x
            &&& (v.y as u32) < m.0.y
            &&& (v.z as u32) < m.0.z
            &&& (v.i as int) < palette.len()
        }
}

/// Whether a grid is the import of a `.vox` model with the given palette.
pub open spec fn imports(palette: Seq<u32>, vm: VoxModelView, m: Model) -> bool {
    &&& m.wf()
    &&& m.size == y_up(vm.0)
    &&& forall|p: UVec3| inside(m.size, p) ==> #[trigger] m.voxel(p) == vox_color_at(palette, vm.1, p)
    &&& m.replace_colors@ == Map::<ColorRGBA, ColorRGBA>::empty()
}

/// Imports a `.vox` model with the given palette into a grid, at the origin,
/// unrotated, turning the file's z-up frame into a y-up one.
pub fn from_vox_model(palette: &[u32], vox_model: &VoxModel) -> (m: Model)
    requires
        vox_model_valid(palette@, vox_model.view()),
    ensures
        imports(palette@, vox_model.view(), m),
{
    let size = UVec3 { x: vox_model.size.x, y: vox_model.size.z, z: vox_model.size.y };
    let mut model = Model::new(size);
    let mut k: usize = 0;
    while k < vox_model.voxels.len()
        invariant
            vox_model_valid(palette@, vox_model.view()),
            k <= vox_model.voxels@.len(),
            model.wf(),
            model.size == size,
            size == y_up(vox_model.size),
            model.replace_colors@ == Map::<ColorRGBA, ColorRGBA>::empty(),
            forall|p: UVec3|
                inside(size, p) ==> #[trigger] model.voxel(p) == vox_color_at(
                    palette@,
                    vox_model.voxels@.take(k as int),
                    p,
                ),
        decreases vox_model.voxels@.len() - k,
    {
        let v = vox_model.voxels[k];
        assert(vox_model.view().1[k as int] == v);
        let p = UVec3 { x: v.x as u32, y: v.z as u32, z: v.y as u32 };
        let c = vox_color_to_rgba(palette[v.i as usize]);
        model.set_voxel(p, c);
        proof {
            let cells = vox_model.voxels@.take(k + 1);
            assert(cells.drop_last() =~= vox_model.voxels@.take(k as int));
            assert(cells.last() == v);
        }
        k = k + 1;
    }
    assert(vox_model.voxels@.take(k as int) =~= vox_model.voxels@);
    model
}

/// Every model of the file can be converted with the file's palette.
pub open spec fn vox_data_valid(d: (Seq<u32>, Seq<VoxModelView>)) -> bool {
    forall|k: int| 0 <= k < d.1.len() ==> vox_model_valid(d.0, #[trigger] d.1[k])
}

/// Whether a model can be converted with a palette of the given length.
pub fn check_vox_model(palette: &[u32], m: &VoxModel) -> (ok: bool)
    ensures
        ok == vox_model_valid(palette@, m.view()),
{
    proof {
        let (x, z) = (m.size.x as int, m.size.z as int);
        assert(0 <= x * z <= 0xffff_ffff * 0xffff_ffffint) by (nonlinear_arith)
            requires
                0 <= x <= 0xffff_ffff,
                0 <= z <= 0xffff_ffff,
        ;
    }
    let xz: u64 = (m.size.x as u64) * (m.size.z as u64);
    let cells = xz.checked_mul(m.size.y as u64);
    match cells {
        None => {
            return false;
        },
        Some(n) => {
            if n > usize::MAX as u64 {
                return false;
            }
        },
    }
    let mut k: usize = 0;
    while k < m.voxels.len()
        invariant
            k <= m.voxels@.len(),
            volume(y_up(m.size)) <= usize::MAX,
            forall|j: int|
                0 <= j < k ==> {
                    let v = #[trigger] m.voxels@[j];
                    &&& (v.x as u32) < m.size.x
                    &&& (v.y as u32) < m.size.y
                    &&& (v.z as u32) < m.size.z
                    &&& (v.i as int) < palette@.len()
                },
        decreases m.voxels@.len() - k,
    {
        let v = m.voxels[k];
        if !((v.x as u32) < m.size.x && (v.y as u32) < m.size.y && (v.z as u32) < m.size.z
            && (v.i as usize) < palette.len()) {
            assert(m.view().1[k as int] == v);
            return false;
        }
        k = k + 1;
    }
    true
}

/// Whether every model of the file can be converted.
pub fn check_vox_data(data: &VoxData) -> (ok: bool)
    ensures
        ok == vox_data_valid(data.view()),
{
    let mut k: usize = 0;
    while k < data.models.len()
        invariant
            k <= data.models@.len(),
            forall|j: int| 0 <= j < k ==> vox_model_valid(data.palette@, #[trigger] data.view().1[j]),
        decreases data.models@.len() - k,
    {
        if !check_vox_model(data.palette.as_slice(), &data.models[k]) {
            assert(data.view().1[k as int] == data.models@[k as int].view());
            return false;
        }
        k = k + 1;
    }
    true
}

/// Imports every model of a parsed `.vox` file, in order.
pub fn from_vox_data(data: &VoxData) -> (models: Vec<Model>)
    requires
        vox_data_valid(data.view()),
    ensures
        models@.len() == data.models@.len(),
        forall|k: int|
            0 <= k < models@.len() ==> imports(
                data.palette@,
                data.models@[k].view(),
                #[trigger] models@[k],
            ),
{
    let mut models: Vec<Model> = Vec::new();
    let mut k: usize = 0;
    while k < data.models.len()
        invariant
            k <= data.models@.len(),
            vox_data_valid(data.view()),
            models@.len() == k,
            forall|j: int|
                0 <= j < k ==> imports(
                    data.palette@,
                    data.models@[j].view(),
                    #[trigger] models@[j],
                ),
        decreases data.models@.len() - k,
    {
        assert(data.view().1[k as int] == data.models@[k as int].view());
        let m = from_vox_model(data.palette.as_slice(), &data.models[k]);
        models.push(m);
        k = k + 1;
    }
    models
}

/// Imports every model of a parsed `.vox` file, in order, after checking
/// that each can be converted; fails with `Vox` when one has a cell outside
/// its extents or a colour missing from the palette.
pub fn try_from_vox_data(data: &VoxData) -> (r: Result<Vec<Model>, VoxImportError>)
    ensures
        r is Ok <==> vox_data_valid(data.view()),
        r matches Err(e) ==> e is Vox,
        r matches Ok(models) ==> models@.len() == data.models@.len() && forall|k: int|
            0 <= k < models@.len() ==> imports(
                data.palette@,
                data.models@[k].view(),
                #[trigger] models@[k],
            ),
{
    if !check_vox_data(data) {
        return Err(
            VoxImportError::Vox(
                "a model has a cell outside its extents or a colour outside the palette".to_owned(),
            ),
        );
    }
    Ok(from_vox_data(data))
}

} // verus!
