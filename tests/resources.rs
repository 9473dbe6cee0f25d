use sprite_batch::assets::{AssetDatabase, AssetError, AssetHandle};
use sprite_batch::graphics::camera::CameraScaleMode;
use sprite_batch::graphics::mesh::Mesh;
use sprite_batch::graphics::shaders::{log_buffer, Program, Shader, ShaderError};
use sprite_batch::graphics::sprites::SpriteSheet;
use sprite_batch::graphics::textures::{Texture, TextureOptions};
use sprite_batch::graphics::DrawingError;

#[test]
fn assets_are_found_by_name() {
    let mut db = AssetDatabase::new();
    db.add(AssetHandle::new("hero".to_string(), "img/hero.png".to_string()));
    db.add(AssetHandle::new("font".to_string(), "fonts/a.ttf".to_string()));
    db.add(AssetHandle::new("hero".to_string(), "img/other.png".to_string()));
    assert_eq!(db.get_handle("hero").unwrap().path(), "img/hero.png");
    assert_eq!(db.get("font").unwrap().name(), "font");
    assert!(db.get_handle("none").is_none());
    match db.get("none") {
        Err(AssetError::NameNotFound(n)) => assert_eq!(n, "none"),
        Ok(_) => panic!("found an asset that does not exist"),
    }
}

#[test]
fn camera_size_axis() {
    assert!(CameraScaleMode::Width.size_is_width(100, 50));
    assert!(!CameraScaleMode::Height.size_is_width(50, 100));
    assert!(CameraScaleMode::Min.size_is_width(50, 100));
    assert!(!CameraScaleMode::Min.size_is_width(100, 50));
    assert!(!CameraScaleMode::Min.size_is_width(80, 80));
    assert!(CameraScaleMode::Max.size_is_width(100, 50));
    assert!(!CameraScaleMode::Max.size_is_width(50, 100));
    assert!(!CameraScaleMode::Max.size_is_width(80, 80));
}

#[test]
fn sprite_regions_on_the_grid() {
    let texture = Texture::from_bytes(&vec![0u8; 4 * 64 * 32], TextureOptions::default(), 64, 32)
        .unwrap()
        .finish(1);
    let sheet = SpriteSheet::new(texture, 16, 8);
    assert_eq!(sheet.sprite_width(), 16);
    assert_eq!(sheet.sprite_height(), 8);
    assert_eq!(sheet.texture().id(), 1);
    assert_eq!(sheet.pixel_region(2, 3), (32, 24, 16, 8));
    let sprite = sheet.sprite(-1, 1);
    assert_eq!((sprite.x, sprite.y), (-1, 1));
    assert_eq!(sprite.pixel_region(), (-16, 8, 16, 8));
    assert_eq!(sprite.texture().width(), 64);
    let far = SpriteSheet::new(Texture::from_bytes(&[], TextureOptions::default(), 0, 0).unwrap().finish(2), u32::MAX, 1);
    assert_eq!(far.pixel_region(i32::MAX, 0).0, u32::MAX as i64 * i32::MAX as i64);
}

#[test]
fn shader_compile_and_link_status() {
    assert_eq!(Shader::from_compile_status(5, 1, String::new()).unwrap().id(), 5);
    match Shader::from_compile_status(5, 0, "bad".to_string()) {
        Err(ShaderError::ShaderCompilationFailed(log)) => assert_eq!(log, "bad"),
        _ => panic!("compilation should fail"),
    }
    assert_eq!(Program::from_link_status(9, 1, String::new()).unwrap().id(), 9);
    match Program::from_link_status(9, 0, "link".to_string()) {
        Err(ShaderError::ProgramLinkingFailed(log)) => assert_eq!(log, "link"),
        _ => panic!("linking should fail"),
    }
    assert_eq!(Program::uniform_location(-1), None);
    assert_eq!(Program::uniform_location(0), Some(0));
    assert_eq!(Program::uniform_location(4), Some(4));
    assert_eq!(log_buffer(3), vec![b' ', b' ', b' ']);
    assert!(log_buffer(0).is_empty());
}

#[test]
fn mesh_readiness() {
    let ok = Mesh { vao: 1, vbo: 2, ebo: 3, batch_vbo: 4, indices_count: 6 };
    assert!(ok.check().is_ok());
    let no_vao = Mesh { vao: 0, ebo: 0, ..ok };
    assert!(matches!(no_vao.check(), Err(DrawingError::MeshVAONotInitialized)));
    let no_ebo = Mesh { ebo: 0, ..ok };
    assert!(matches!(no_ebo.check(), Err(DrawingError::MeshEBONotInitialized)));
}

#[test]
fn shader_errors_convert_to_drawing_errors() {
    let e: DrawingError = ShaderError::UniformNotFound("u".to_string()).into();
    assert!(matches!(e, DrawingError::ShaderError(ShaderError::UniformNotFound(_))));
}
