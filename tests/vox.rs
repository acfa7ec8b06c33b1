use zercalo_format::color::ColorRGBA;
use zercalo_format::model::UVec3;
use zercalo_format::vox::{
    check_vox_data, from_vox_data, from_vox_model, try_from_vox_data, vox_color_to_rgba,
    VoxData, VoxImportError, VoxModel, VoxVoxel,
};

#[test]
fn palette_entry_to_rgba() {
    // green is read four bits above red
    assert_eq!(vox_color_to_rgba(0x0000_0000), ColorRGBA::new(0, 0, 0, 0));
    assert_eq!(vox_color_to_rgba(0x00ff_ffff), ColorRGBA::new(0xff, 0xff, 0xff, 0xff));
    assert_eq!(vox_color_to_rgba(0x0012_3456), ColorRGBA::new(0x56, 0x45, 0x34, 0x12));
    assert_eq!(vox_color_to_rgba(0xff00_00ab), ColorRGBA::new(0xab, 0x0a, 0x00, 0x00));
}

fn sample_model() -> VoxModel {
    VoxModel {
        size: UVec3::new(2, 3, 4),
        voxels: vec![
            VoxVoxel { x: 1, y: 2, z: 3, i: 0 },
            VoxVoxel { x: 0, y: 0, z: 0, i: 1 },
            VoxVoxel { x: 0, y: 0, z: 0, i: 2 },
        ],
    }
}

#[test]
fn vox_model_swaps_y_and_z() {
    let palette = vec![0x00ff_0000u32, 0x0000_00ffu32, 0x0001_0203u32];
    let m = from_vox_model(&palette, &sample_model());
    assert_eq!(m.size, UVec3::new(2, 4, 3));
    assert_eq!(m.voxels.len(), 24);
    // file cell (1, 2, 3) lands at grid (1, 3, 2), flat index 1 + 3*2 + 2*2*4
    assert_eq!(m.get_voxel(UVec3::new(1, 3, 2)), vox_color_to_rgba(palette[0]));
    assert_eq!(m.voxels[1 + 3 * 2 + 2 * 2 * 4], vox_color_to_rgba(palette[0]));
    // a later cell on the same place wins
    assert_eq!(m.get_voxel(UVec3::new(0, 0, 0)), vox_color_to_rgba(palette[2]));
    let filled = m.voxels.iter().filter(|c| **c != ColorRGBA::empty()).count();
    assert_eq!(filled, 2);
    assert_eq!(m.offset, glam::Vec3::ZERO);
}

#[test]
fn vox_data_imports_every_model() {
    let data = VoxData {
        palette: vec![0x00ff_ffffu32; 256],
        models: vec![sample_model(), VoxModel { size: UVec3::new(1, 1, 1), voxels: vec![] }],
    };
    assert!(check_vox_data(&data));
    let models = from_vox_data(&data);
    assert_eq!(models.len(), 2);
    assert_eq!(models[1].voxels, vec![ColorRGBA::empty()]);
    let checked = try_from_vox_data(&data);
    assert!(matches!(checked, Ok(ref ms) if ms.len() == 2));
}

#[test]
fn vox_data_with_cell_outside_is_rejected() {
    let data = VoxData {
        palette: vec![0u32; 256],
        models: vec![VoxModel {
            size: UVec3::new(2, 2, 2),
            voxels: vec![VoxVoxel { x: 2, y: 0, z: 0, i: 0 }],
        }],
    };
    assert!(!check_vox_data(&data));
    assert!(matches!(try_from_vox_data(&data), Err(VoxImportError::Vox(_))));
}

#[test]
fn vox_data_with_missing_colour_is_rejected() {
    let data = VoxData {
        palette: vec![0u32; 3],
        models: vec![VoxModel {
            size: UVec3::new(2, 2, 2),
            voxels: vec![VoxVoxel { x: 0, y: 0, z: 0, i: 3 }],
        }],
    };
    assert!(matches!(try_from_vox_data(&data), Err(VoxImportError::Vox(_))));
}

#[test]
fn vox_data_too_large_is_rejected() {
    let data = VoxData {
        palette: vec![0u32; 1],
        models: vec![VoxModel { size: UVec3::new(u32::MAX, u32::MAX, u32::MAX), voxels: vec![] }],
    };
    assert!(!check_vox_data(&data));
}
