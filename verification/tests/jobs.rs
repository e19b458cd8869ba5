use backend2::die::db::DieParamKind;
use backend2::jobs::clip::{clip_for, ClipError};
use backend2::jobs::clip;
use backend2::jobs::import::{plan_die_import, plan_from_header, sanitize_filename, DieImportError};
use backend2::jobs::shot::{
    cut_clip, decode_shot, probe_image, render_tile, DetectedFormat, ImageDecodeError, ImageHeader, ImageProbeError,
};
use backend2::jobs::{ImportJobPhase, ImportJobStatus, ImportResponse};
use backend2::params::domain::{Cell, CellRotation, CellType, Rect};
use backend2::tiles::TileTree;

fn png(w: u32, h: u32) -> Vec<u8> {
    let img = image::RgbImage::from_pixel(w, h, image::Rgb([10, 20, 30]));
    let mut buf = std::io::Cursor::new(Vec::new());
    img.write_to(&mut buf, image::ImageFormat::Png).unwrap();
    buf.into_inner()
}

fn cell(id: u128, ty: u128, x: u32, y: u32) -> Cell {
    Cell {
        id,
        cell_type_id: ty,
        x,
        y,
        flipped_vertical: false,
        flipped_horizontal: false,
        rotation: CellRotation::Rot0,
        merged: false,
    }
}

#[test]
fn sanitized_names() {
    assert_eq!(sanitize_filename("My Die #1.PNG"), "mydie1.png");
    assert_eq!(sanitize_filename("a-b_c.d"), "a-b_c.d");
    assert_eq!(sanitize_filename("ÄÖü/\\:x"), "x");
    assert_eq!(sanitize_filename(""), "");
}

#[test]
fn plan_accepts_png_and_jpeg() {
    let h = ImageHeader { format: DetectedFormat::Png, width: 4624, height: 2604 };
    let plan = plan_from_header("Shot.PNG", Ok(h), 512).unwrap();
    assert_eq!(plan.file_name, "shot.png");
    assert_eq!(plan.mime, "image/png");
    assert_eq!(plan.tree.max_zoom_level, 4);
    assert_eq!(plan.levels.tile_count(), 84);
    let h = ImageHeader { format: DetectedFormat::Jpeg, width: 10, height: 10 };
    assert_eq!(plan_from_header("a.jpg", Ok(h), 512).unwrap().mime, "image/jpeg");
}

#[test]
fn plan_refusals() {
    let h = ImageHeader { format: DetectedFormat::Other("Gif".to_string()), width: 1, height: 1 };
    assert_eq!(
        plan_from_header("a.gif", Ok(h), 512).err(),
        Some(DieImportError::UnsupportedFormat("Gif".to_string()))
    );
    assert_eq!(
        plan_from_header("a", Err(ImageProbeError::NoFormat), 512).err(),
        Some(DieImportError::Header(ImageProbeError::NoFormat))
    );
    let h = ImageHeader { format: DetectedFormat::Png, width: 10, height: 10 };
    assert_eq!(plan_from_header("a", Ok(h), 0).err(), Some(DieImportError::TooLarge));
    let h = ImageHeader { format: DetectedFormat::Png, width: u32::MAX, height: 1 };
    assert_eq!(plan_from_header("a", Ok(h), 1).err(), Some(DieImportError::TooLarge));
}

#[test]
fn plan_from_real_bytes() {
    let bytes = png(700, 300);
    let header = probe_image(&bytes).unwrap();
    assert_eq!(header, ImageHeader { format: DetectedFormat::Png, width: 700, height: 300 });
    let plan = plan_die_import("die.png", &bytes, 256).unwrap();
    assert_eq!(plan.tree.max_zoom_level, 2);
    assert_eq!(plan.levels.0.len(), 3);
    assert!(plan_die_import("x", b"not an image", 256).is_err());
    assert_eq!(probe_image(b"not an image"), Err(ImageProbeError::NoFormat));
}

#[test]
fn tiles_and_clips_render() {
    let bytes = png(700, 300);
    let shot = decode_shot(&bytes).unwrap();
    let tree = TileTree::new(700, 300, 256);
    let (_, clip) = tree.all_tiles().pop().unwrap();
    let jpeg = render_tile(&shot, &clip);
    let tile = image::load_from_memory(&jpeg).unwrap();
    assert_eq!((tile.width(), tile.height()), (clip.dst_w, clip.dst_h));
    let crop = cut_clip(&shot, &Rect { x: 10, y: 20, width: 30, height: 40 });
    let crop = image::load_from_memory(&crop).unwrap();
    assert_eq!((crop.width(), crop.height()), (30, 40));
    assert!(matches!(decode_shot(b"garbage"), Err(ImageDecodeError::Undecodable)));
}

#[test]
fn clips_depend_on_the_file_and_the_box() {
    let bytes = png(64, 48);
    let a = decode_shot(&bytes).unwrap();
    let b = decode_shot(&bytes).unwrap();
    let r = Rect { x: 8, y: 4, width: 16, height: 16 };
    assert_eq!(cut_clip(&a, &r), cut_clip(&b, &r));
    let beyond = cut_clip(&a, &Rect { x: 60, y: 40, width: 100, height: 100 });
    let beyond = image::load_from_memory(&beyond).unwrap();
    assert_eq!((beyond.width(), beyond.height()), (4, 8));
}

#[test]
fn clip_rects() {
    let ct = CellType {
        id: 7,
        name: "t".to_string(),
        crop_rect: Rect { x: 0, y: 0, width: 20, height: 30 },
        layers: vec![],
        matched: false,
    };
    let c = cell(1, 7, 100, 200);
    assert_eq!(c.clip_rect(&ct), Rect { x: 100, y: 200, width: 20, height: 30 });
    assert!(ct.needs_anchor());
    let cells = vec![cell(2, 8, 1, 1), cell(3, 7, 50, 60), cell(4, 7, 70, 80)];
    assert_eq!(ct.clip_rect(&cells), Rect { x: 50, y: 60, width: 20, height: 30 });
    assert_eq!(ct.clip_rect(&vec![]), Rect { x: 0, y: 0, width: 20, height: 30 });
    let placed = CellType { crop_rect: Rect { x: 5, y: 0, width: 20, height: 30 }, ..ct.clone() };
    assert!(!placed.needs_anchor());
    assert_eq!(placed.clip_rect(&cells), Rect { x: 5, y: 0, width: 20, height: 30 });
    let flat = CellType { crop_rect: Rect { x: 0, y: 0, width: 0, height: 30 }, ..ct };
    assert_eq!(flat.clip_rect(&cells), Rect { x: 0, y: 0, width: 0, height: 30 });
    let _ = clip::first_of_type;
}

#[test]
fn queued_import_response() {
    let r = ImportResponse::queued(1, 2, "die.png".to_string(), "2024-01-01T00:00:00+00:00".to_string());
    assert_eq!(r.kind, "import-die");
    assert_eq!(r.status, ImportJobStatus::Queued);
    assert_eq!(r.die_id, Some(2));
    assert_eq!(r.finished_at, "2024-01-01T00:00:00+00:00");
    assert_eq!(r.progress.phase, ImportJobPhase::Queued);
    assert_eq!(r.progress.message, "Queued");
    assert_eq!((r.progress.total_levels, r.progress.total_tiles, r.progress.percentage), (3, 1024, 0));
}

#[test]
fn sanitizing_twice_is_sanitizing_once() {
    for name in ["My Die #1.PNG", "ÄB-c_d.JPG", "..", ""] {
        let once = sanitize_filename(name);
        assert_eq!(sanitize_filename(&once), once);
    }
}

#[test]
fn clip_targets() {
    let ct = CellType {
        id: 7,
        name: "t".to_string(),
        crop_rect: Rect { x: 0, y: 0, width: 20, height: 30 },
        layers: vec![],
        matched: false,
    };
    let cells = vec![cell(3, 7, 50, 60)];
    assert_eq!(
        clip_for(Some(cell(1, 7, 100, 200)), Some(ct.clone()), &cells),
        Ok((Rect { x: 100, y: 200, width: 20, height: 30 }, DieParamKind::Cell))
    );
    assert_eq!(
        clip_for(None, Some(ct), &cells),
        Ok((Rect { x: 50, y: 60, width: 20, height: 30 }, DieParamKind::CellType))
    );
    assert_eq!(clip_for(Some(cell(1, 7, 0, 0)), None, &cells), Err(ClipError::NoCellType));
    assert_eq!(clip_for(None, None, &cells), Err(ClipError::ParameterNotFound));
    assert_eq!(ClipError::NoCellType.message(), "no type for cell");
    assert_eq!(ClipError::ParameterNotFound.message(), "Parameter not found");
}

#[test]
fn tiny_shot_with_huge_tiles_is_accepted() {
    let h = ImageHeader { format: DetectedFormat::Png, width: 1, height: 1 };
    let plan = plan_from_header("One.PNG", Ok(h), u32::MAX).unwrap();
    assert_eq!(plan.file_name, "one.png");
    assert_eq!(plan.tree.max_zoom_level, 0);
    assert_eq!(plan.levels.0.len(), 1);
}
