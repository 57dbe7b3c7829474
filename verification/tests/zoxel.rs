use rustc_serialize::json::Json;
use voxel_mesh::error::VoxelError;
use voxel_mesh::loaders::zoxel::build;
use voxel_mesh::loaders::zoxel::decode;
use voxel_mesh::loaders::zoxel::load;
use voxel_mesh::loaders::zoxel::unpack;
use voxel_mesh::loaders::zoxel::ZoxelModel;
use voxel_mesh::voxelblock::BLOCK_SIZE;

fn document(frame1: &str) -> String {
    format!(
        "{{\"creator\":\"t\",\"height\":16,\"width\":16,\"depth\":16,\"version\":1,\"frame1\":{}}}",
        frame1
    )
}

fn model(frame1: Vec<(usize, usize, usize, u32)>) -> ZoxelModel {
    ZoxelModel { creator: "t".to_string(), height: 16, width: 16, depth: 16, version: 1, frame1 }
}

fn error_of(text: &str) -> Option<VoxelError> {
    load(text).err()
}

#[test]
fn load_one_red_voxel() {
    let text = "{\"creator\":\"t\",\"height\":16,\"width\":16,\"depth\":16,\"version\":1,\"frame1\":[[0,0,0,4278190335]]}";
    let (palette, block) = load(text).unwrap();
    assert_eq!(palette.len(), 1);
    let color = palette.get_color(1).unwrap();
    assert_eq!(color, [255, 0, 0, 255]);
    let normalized: Vec<f32> = color.iter().map(|c| *c as f32 / 255.0f32).collect();
    assert_eq!(normalized, vec![1.0f32, 0.0, 0.0, 1.0]);
    assert_eq!(block.get(0, 0, 0), Ok(1));
    for x in 0..BLOCK_SIZE {
        for y in 0..BLOCK_SIZE {
            for z in 0..BLOCK_SIZE {
                if (x, y, z) != (0, 0, 0) {
                    assert_eq!(block.get(x, y, z), Ok(0));
                }
            }
        }
    }
}

#[test]
fn unpack_takes_red_from_the_top_byte() {
    assert_eq!(unpack(0xFF0000FF), [255, 0, 0, 255]);
    assert_eq!(unpack(4278190335), [255, 0, 0, 255]);
    assert_eq!(unpack(0x11223344), [0x11, 0x22, 0x33, 0x44]);
    assert_eq!(unpack(0), [0, 0, 0, 0]);
    assert_eq!(unpack(u32::MAX), [255, 255, 255, 255]);
    assert_eq!(unpack(0x00FF0000), [0, 255, 0, 0]);
    assert_eq!(unpack(0x0000FF00), [0, 0, 255, 0]);
    assert_eq!(unpack(0x01000000), [1, 0, 0, 0]);
    assert_eq!(unpack(0x00FFFFFF), [0, 255, 255, 255]);
}

#[test]
fn unpacked_channels_match_the_normalized_floats() {
    let v: u32 = 0x80402010;
    let color = unpack(v);
    let expected = [
        ((v & 0xFF000000) >> 24) as f32 / 255.0f32,
        ((v & 0x00FF0000) >> 16) as f32 / 255.0f32,
        ((v & 0x0000FF00) >> 8) as f32 / 255.0f32,
        ((v & 0x000000FF) >> 0) as f32 / 255.0f32,
    ];
    for k in 0..4 {
        assert_eq!(color[k] as f32 / 255.0f32, expected[k]);
    }
}

#[test]
fn distinct_channels_are_distinct_as_floats() {
    for a in 0..=255u8 {
        for b in (a as u16 + 1)..=255u16 {
            assert_ne!(a as f32 / 255.0f32, b as f32 / 255.0f32);
        }
    }
}

#[test]
fn load_empty_frame() {
    let (palette, block) = load(&document("[]")).unwrap();
    assert_eq!(palette.len(), 0);
    assert_eq!(block.data, [[[0u8; 16]; 16]; 16]);
}

#[test]
fn load_shares_the_handle_of_equal_colors() {
    let text = document("[[0,0,0,255],[1,0,0,4278190335],[2,0,0,255],[3,0,0,65535]]");
    let (palette, block) = load(&text).unwrap();
    assert_eq!(palette.len(), 3);
    assert_eq!(block.get(0, 0, 0), Ok(1));
    assert_eq!(block.get(1, 0, 0), Ok(2));
    assert_eq!(block.get(2, 0, 0), Ok(1));
    assert_eq!(block.get(3, 0, 0), Ok(3));
    assert_eq!(palette.get_color(1), Ok([0, 0, 0, 255]));
    assert_eq!(palette.get_color(2), Ok([255, 0, 0, 255]));
    assert_eq!(palette.get_color(3), Ok([0, 0, 255, 255]));
}

#[test]
fn load_lets_the_last_voxel_of_a_cell_win() {
    let text = document("[[5,6,7,1],[5,6,7,2],[7,6,5,1]]");
    let (palette, block) = load(&text).unwrap();
    assert_eq!(palette.len(), 2);
    assert_eq!(block.get(5, 6, 7), Ok(2));
    assert_eq!(block.get(7, 6, 5), Ok(1));
}

#[test]
fn load_takes_x_y_z_in_this_order() {
    let (_, block) = load(&document("[[1,2,3,9]]")).unwrap();
    assert_eq!(block.get(1, 2, 3), Ok(1));
    assert_eq!(block.data[1][2][3], 1);
    assert_eq!(block.get(3, 2, 1), Ok(0));
}

#[test]
fn load_ignores_unknown_fields() {
    let text = "{\"creator\":\"t\",\"height\":16,\"width\":16,\"depth\":16,\"version\":1,\"frame1\":[[0,0,0,1]],\"frame2\":[[0,0,0]],\"note\":null}";
    let (palette, block) = load(text).unwrap();
    assert_eq!(palette.len(), 1);
    assert_eq!(block.get(0, 0, 0), Ok(1));
}

#[test]
fn load_does_not_hold_the_dimensions_against_the_block() {
    let text = "{\"creator\":\"someone\",\"height\":3,\"width\":400,\"depth\":0,\"version\":7,\"frame1\":[[15,15,15,1]]}";
    let (_, block) = load(text).unwrap();
    assert_eq!(block.get(15, 15, 15), Ok(1));
}

#[test]
fn load_rejects_text_that_is_not_json() {
    assert_eq!(error_of(""), Some(VoxelError::Parse));
    assert_eq!(error_of("{"), Some(VoxelError::Parse));
    assert_eq!(error_of("hello"), Some(VoxelError::Parse));
    assert_eq!(error_of(&document("[[0,0,0,1]")), Some(VoxelError::Parse));
    assert_eq!(error_of(&format!("{} x", document("[]"))), Some(VoxelError::Parse));
}

#[test]
fn load_rejects_a_document_that_is_no_object() {
    assert_eq!(error_of("[]"), Some(VoxelError::Parse));
    assert_eq!(error_of("12"), Some(VoxelError::Parse));
    assert_eq!(error_of("null"), Some(VoxelError::Parse));
    assert_eq!(error_of("\"model\""), Some(VoxelError::Parse));
}

#[test]
fn load_rejects_a_missing_field() {
    let fields = [
        "\"creator\":\"t\"",
        "\"height\":16",
        "\"width\":16",
        "\"depth\":16",
        "\"version\":1",
        "\"frame1\":[]",
    ];
    let whole = format!("{{{}}}", fields.join(","));
    assert!(load(&whole).is_ok());
    for missing in 0..fields.len() {
        let rest: Vec<&str> =
            fields.iter().enumerate().filter(|(i, _)| *i != missing).map(|(_, f)| *f).collect();
        let text = format!("{{{}}}", rest.join(","));
        assert_eq!(error_of(&text), Some(VoxelError::Parse));
    }
}

#[test]
fn load_rejects_a_field_of_the_wrong_kind() {
    let wrong = [
        "{\"creator\":5,\"height\":16,\"width\":16,\"depth\":16,\"version\":1,\"frame1\":[]}",
        "{\"creator\":\"t\",\"height\":\"16\",\"width\":16,\"depth\":16,\"version\":1,\"frame1\":[]}",
        "{\"creator\":\"t\",\"height\":16,\"width\":16.5,\"depth\":16,\"version\":1,\"frame1\":[]}",
        "{\"creator\":\"t\",\"height\":16,\"width\":16,\"depth\":-16,\"version\":1,\"frame1\":[]}",
        "{\"creator\":\"t\",\"height\":16,\"width\":16,\"depth\":16,\"version\":null,\"frame1\":[]}",
        "{\"creator\":\"t\",\"height\":16,\"width\":16,\"depth\":16,\"version\":true,\"frame1\":[]}",
        "{\"creator\":\"t\",\"height\":16,\"width\":16,\"depth\":16,\"version\":1,\"frame1\":{}}",
        "{\"creator\":\"t\",\"height\":16,\"width\":16,\"depth\":16,\"version\":1,\"frame1\":7}",
    ];
    for text in wrong {
        assert_eq!(error_of(text), Some(VoxelError::Parse));
    }
}

#[test]
fn load_rejects_a_voxel_of_the_wrong_shape() {
    assert_eq!(error_of(&document("[[0,0,0]]")), Some(VoxelError::Parse));
    assert_eq!(error_of(&document("[[0,0,0,1,2]]")), Some(VoxelError::Parse));
    assert_eq!(error_of(&document("[[]]")), Some(VoxelError::Parse));
    assert_eq!(error_of(&document("[5]")), Some(VoxelError::Parse));
    assert_eq!(error_of(&document("[[0,0,0,\"red\"]]")), Some(VoxelError::Parse));
    assert_eq!(error_of(&document("[[0,0,0.5,1]]")), Some(VoxelError::Parse));
    assert_eq!(error_of(&document("[[0,-1,0,1]]")), Some(VoxelError::Parse));
    assert_eq!(error_of(&document("[[0,0,0,1],[0,0,null,1]]")), Some(VoxelError::Parse));
}

#[test]
fn load_rejects_a_color_wider_than_32_bits() {
    assert!(load(&document("[[0,0,0,4294967295]]")).is_ok());
    assert_eq!(error_of(&document("[[0,0,0,4294967296]]")), Some(VoxelError::Parse));
    assert_eq!(error_of(&document("[[0,0,0,-1]]")), Some(VoxelError::Parse));
}

#[test]
fn load_rejects_a_voxel_outside_the_block() {
    assert_eq!(error_of(&document("[[16,0,0,1]]")), Some(VoxelError::Range));
    assert_eq!(error_of(&document("[[0,16,0,1]]")), Some(VoxelError::Range));
    assert_eq!(error_of(&document("[[0,0,16,1]]")), Some(VoxelError::Range));
    assert_eq!(error_of(&document("[[0,0,0,1],[1,1,1,2],[0,0,100000,3]]")), Some(VoxelError::Range));
    assert!(load(&document("[[15,15,15,1]]")).is_ok());
}

#[test]
fn load_finds_a_malformed_voxel_before_one_outside_the_block() {
    assert_eq!(error_of(&document("[[16,0,0,1],[0,0,0]]")), Some(VoxelError::Parse));
}

#[test]
fn load_holds_255_colors_and_no_more() {
    let voxel = |i: usize| format!("[{},{},{},{}]", i % 16, (i / 16) % 16, i / 256, i + 1);
    let many: Vec<String> = (0..255).map(voxel).collect();
    let (palette, block) = load(&document(&format!("[{}]", many.join(",")))).unwrap();
    assert_eq!(palette.len(), 255);
    assert_eq!(block.get(14, 15, 0), Ok(255));
    assert_eq!(palette.get_color(255), Ok([0, 0, 0, 255]));

    let more: Vec<String> = (0..256).map(voxel).collect();
    assert_eq!(error_of(&document(&format!("[{}]", more.join(",")))), Some(VoxelError::Range));

    let mut again: Vec<String> = (0..255).map(voxel).collect();
    again.push("[0,0,1,7]".to_string());
    let (palette, block) = load(&document(&format!("[{}]", again.join(",")))).unwrap();
    assert_eq!(palette.len(), 255);
    assert_eq!(block.get(0, 0, 1), Ok(7));
}

#[test]
fn decode_reads_every_field() {
    let text = "{\"creator\":\"zoxel\",\"height\":1,\"width\":2,\"depth\":3,\"version\":4,\"frame1\":[[1,2,3,4],[5,6,7,8]]}";
    let doc = Json::from_str(text).unwrap();
    let model = decode(&doc).unwrap();
    assert_eq!(model.creator, "zoxel");
    assert_eq!(model.height, 1);
    assert_eq!(model.width, 2);
    assert_eq!(model.depth, 3);
    assert_eq!(model.version, 4);
    assert_eq!(model.frame1, vec![(1, 2, 3, 4), (5, 6, 7, 8)]);
}

#[test]
fn decode_rejects_what_is_no_model() {
    assert_eq!(decode(&Json::Null).err(), Some(VoxelError::Parse));
    assert_eq!(decode(&Json::U64(3)).err(), Some(VoxelError::Parse));
    assert_eq!(decode(&Json::from_str("{}").unwrap()).err(), Some(VoxelError::Parse));
    assert_eq!(decode(&Json::from_str("{\"frame1\":[]}").unwrap()).err(), Some(VoxelError::Parse));
}

#[test]
fn build_places_the_voxels() {
    let (palette, block) = build(&model(vec![(0, 0, 0, 0xFF0000FF), (15, 0, 3, 0x00FF00FF)])).unwrap();
    assert_eq!(palette.len(), 2);
    assert_eq!(palette.get_color(1), Ok([255, 0, 0, 255]));
    assert_eq!(palette.get_color(2), Ok([0, 255, 0, 255]));
    assert_eq!(block.get(0, 0, 0), Ok(1));
    assert_eq!(block.get(15, 0, 3), Ok(2));
}

#[test]
fn build_rejects_a_voxel_outside_the_block() {
    assert_eq!(build(&model(vec![(0, 0, 0, 1), (0, 16, 0, 1)])).err(), Some(VoxelError::Range));
    assert_eq!(build(&model(vec![(usize::MAX, 0, 0, 1)])).err(), Some(VoxelError::Range));
}

#[test]
fn build_rejects_a_color_without_handle() {
    let mut frame1 = Vec::new();
    for i in 0..256u32 {
        frame1.push((0usize, 0usize, 0usize, i));
    }
    assert_eq!(build(&model(frame1)).err(), Some(VoxelError::Range));
}

#[test]
fn loaded_block_can_be_meshed() {
    let text = document("[[0,0,0,4278190335],[0,0,1,16711935],[9,9,9,4278190335]]");
    let (palette, block) = load(&text).unwrap();
    let mesh = block.to_mesh(&palette).unwrap();
    assert_eq!(mesh.vertices().len(), 4 * (5 + 5 + 6));
    assert_eq!(mesh.indices().len(), 6 * (5 + 5 + 6));
    assert_eq!(mesh.vertices()[0].color, [255, 0, 0, 255]);
    assert_eq!(mesh.vertices()[20].color, [0, 255, 0, 255]);
}
