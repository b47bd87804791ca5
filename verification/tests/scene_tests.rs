use scop_core::obj::types::ObjMaterialData;
use scop_core::rng::Rng;
use scop_core::scene::{face_brightness_step, is_bmp_path, path_has_extension,
    resolve_diffuse_texture_path, resolve_material_path, resolve_optional_bmp_material_path,
    SceneError, TextureKind};

#[test]
fn shader_uniform_prefixes() {
    assert_eq!(TextureKind::Diffuse.shader_uniform_prefix(), "texture_diffuse");
    assert_eq!(TextureKind::Specular.shader_uniform_prefix(), "texture_specular");
    assert_eq!(TextureKind::Normal.shader_uniform_prefix(), "texture_normal");
}

#[test]
fn material_paths_join_like_a_path_push() {
    assert_eq!(resolve_material_path("models", "tex.bmp"), "models/tex.bmp");
    assert_eq!(resolve_material_path("models/", "tex.bmp"), "models/tex.bmp");
    assert_eq!(resolve_material_path("", "tex.bmp"), "tex.bmp");
    assert_eq!(resolve_material_path("models", "/abs/tex.bmp"), "/abs/tex.bmp");
}

#[test]
fn bmp_paths_are_recognized_case_insensitively() {
    assert!(is_bmp_path("wall.bmp"));
    assert!(is_bmp_path("dir/wall.BMP"));
    assert!(is_bmp_path("a/b/c.bMp"));
    assert!(!is_bmp_path("wall.png"));
    assert!(!is_bmp_path(".bmp"));
    assert!(!is_bmp_path("dir/.bmp"));
    assert!(!is_bmp_path("noextension"));
    assert!(!is_bmp_path("archive.bmp.gz"));
}

#[test]
fn extensions_match_ignoring_ascii_case() {
    assert!(path_has_extension("model.obj", "obj"));
    assert!(path_has_extension("dir/model.OBJ", "obj"));
    assert!(!path_has_extension("model.objx", "obj"));
    assert!(!path_has_extension("model", "obj"));
    assert!(!path_has_extension(".obj", "obj"));
}

#[test]
fn optional_bmp_path_filters_other_formats() {
    assert_eq!(
        resolve_optional_bmp_material_path("models", "spec.bmp"),
        Some("models/spec.bmp".to_string())
    );
    assert_eq!(resolve_optional_bmp_material_path("models", "spec.png"), None);
}

fn material(diffuse: Option<&str>) -> ObjMaterialData {
    ObjMaterialData {
        name: "Mat".to_string(),
        diffuse_texture: diffuse.map(|s| s.to_string()),
        specular_texture: None,
        normal_texture: None,
    }
}

#[test]
fn cli_fallback_diffuse_texture_overrides_material_map_kd() {
    let mat = material(Some("texture.png"));
    let fallback = "resources/textures/brickwall.bmp";
    let path = resolve_diffuse_texture_path("somedir", fallback, Some(&mat))
        .expect("scene should build with CLI fallback texture");
    assert_eq!(path, fallback);
}

#[test]
fn material_diffuse_must_be_bmp_without_fallback() {
    let mat = material(Some("texture.png"));
    let e = resolve_diffuse_texture_path("dir", "", Some(&mat)).unwrap_err();
    assert_eq!(e, SceneError::DiffuseNotBmp { path: "texture.png".to_string() });

    let mat = material(Some("texture.bmp"));
    let path = resolve_diffuse_texture_path("dir", "", Some(&mat)).unwrap();
    assert_eq!(path, "dir/texture.bmp");
}

#[test]
fn missing_diffuse_is_an_error() {
    let e = resolve_diffuse_texture_path("dir", "", None).unwrap_err();
    assert_eq!(e, SceneError::NoDiffuseAvailable);
    let mat = material(None);
    let e = resolve_diffuse_texture_path("dir", "", Some(&mat)).unwrap_err();
    assert_eq!(e, SceneError::NoDiffuseAvailable);
}

#[test]
fn brightness_ramp_cycles_every_eleven_faces() {
    for i in 0..33usize {
        assert_eq!(face_brightness_step(i), i % 11);
        assert_eq!(face_brightness_step(i), face_brightness_step(i + 11));
    }
    // the renderer's formula over the step: 0.4 at step 0, rising to 1.0
    let lo = (face_brightness_step(0) as f32 / 11.0) * 0.6 + 0.4;
    let hi = (face_brightness_step(10) as f32 / 11.0) * 0.6 + 0.4;
    assert!((lo - 0.4).abs() < 1e-6);
    assert!(hi < 1.0 && hi > 0.94);
}

#[test]
fn recoloring_reuses_the_same_ramp_steps() {
    // The construction-time shading and a later color change share the
    // step function, so the per-face steps agree call after call.
    let first: Vec<usize> = (0..22).map(face_brightness_step).collect();
    let second: Vec<usize> = (0..22).map(face_brightness_step).collect();
    assert_eq!(first, second);
}

#[test]
fn test_rng_deterministic() {
    let mut rng1 = Rng::with_seed(12345);
    let mut rng2 = Rng::with_seed(12345);
    for _ in 0..10 {
        assert_eq!(rng1.gen_u32(), rng2.gen_u32());
    }
}

#[test]
fn rng_xorshift_first_value_from_seed_one() {
    let mut rng = Rng::with_seed(1);
    // one round of xorshift64 on 1: shifts by 13, 7 and 17
    assert_eq!(rng.next_u64(), 0x40822041);
}

#[test]
fn rng_zero_seed_is_replaced() {
    let mut a = Rng::with_seed(0);
    let mut b = Rng::with_seed(1);
    assert_eq!(a.next_u64(), b.next_u64());
}

#[test]
fn rng_range_stays_within_bounds() {
    let mut rng = Rng::with_seed(7);
    for _ in 0..100 {
        let v = rng.gen_range_u32(5, 10);
        assert!((5..=10).contains(&v));
    }
    assert_eq!(rng.gen_range_u32(9, 3), 9);
}
