use glbtex::document::{BufferView, Image};
use glbtex::errors::GlbError;
use glbtex::rebuild::{build_asset_map, rebuild_buffer, CompressedAsset};
use glbtex::transcode::decode_asset;

fn image(view: u32) -> Image {
    Image { buffer_view_index: view, mime_type: "image/png".to_string() }
}

fn view(offset: u32, length: u32) -> BufferView {
    BufferView { buffer: 0, offset, length }
}

#[test]
fn asset_map_marks_last_writer() {
    let images = vec![image(0), image(1), image(0)];
    let map = build_asset_map(&images, 3).unwrap();
    assert_eq!(map, vec![Some(2), Some(1), None]);
}

#[test]
fn asset_map_rejects_out_of_range_reference() {
    let images = vec![image(0), image(7)];
    assert_eq!(build_asset_map(&images, 2), Err(GlbError::OutOfRangeReference));
}

#[test]
fn rebuild_copies_unused_views_densely() {
    let payload: Vec<u8> = (10u8..20).collect();
    let views = vec![view(0, 3), view(3, 5), view(8, 2)];
    let images: Vec<Image> = Vec::new();
    let assets: Vec<CompressedAsset> = Vec::new();
    let (out, patch) = rebuild_buffer(&images, &views, &payload, &assets).unwrap();
    assert_eq!(out, payload);
    let offsets: Vec<usize> = patch.views.iter().map(|p| p.new_offset).collect();
    assert_eq!(offsets, vec![0, 3, 8]);
    assert!(patch.views.iter().all(|p| p.new_length.is_none()));
    assert_eq!(patch.extensions_used.len(), 1);
    assert_eq!(patch.extensions_used[0], "EXT_voyage_exporter");
    assert_eq!(patch.extensions_required[0], "EXT_voyage_exporter");
}

#[test]
fn rebuild_replaces_used_view_and_patches_image() {
    // The middle view is used by the one image: its slice is replaced by
    // the compressed texture, the neighbours are copied, and the offsets
    // stay dense.
    let payload: Vec<u8> = (0u8..10).collect();
    let views = vec![view(0, 3), view(3, 5), view(8, 2)];
    let images = vec![image(1)];
    // 4x4 at the fixed rate: one 16-byte block.
    let assets = vec![CompressedAsset { width: 4, height: 4, data: vec![7u8; 16] }];
    let (out, patch) = rebuild_buffer(&images, &views, &payload, &assets).unwrap();
    let mut expected: Vec<u8> = vec![0, 1, 2];
    expected.extend_from_slice(&[7u8; 16]);
    expected.extend_from_slice(&[8, 9]);
    assert_eq!(out, expected);
    let offsets: Vec<usize> = patch.views.iter().map(|p| p.new_offset).collect();
    assert_eq!(offsets, vec![0, 3, 19]);
    assert_eq!(patch.views[1].new_length, Some(16));
    assert!(patch.views[0].new_length.is_none());
    assert!(patch.views[2].new_length.is_none());
    let image_patch = patch.images[0].as_ref().unwrap();
    assert_eq!(image_patch.mime_type, "image/dds");
    assert_eq!(image_patch.format, "BC7");
    assert_eq!(image_patch.extension, "EXT_voyage_exporter");
    assert_eq!((image_patch.width, image_patch.height), (4, 4));
}

#[test]
fn rebuild_rejects_view_outside_payload() {
    let payload: Vec<u8> = vec![0; 4];
    let views = vec![view(2, 10)];
    let images: Vec<Image> = Vec::new();
    let assets: Vec<CompressedAsset> = Vec::new();
    assert!(matches!(
        rebuild_buffer(&images, &views, &payload, &assets),
        Err(GlbError::OutOfRangeReference)
    ));
}

#[test]
fn decoder_yields_rgba_raster() {
    let mut img = image::RgbaImage::new(4, 4);
    for pixel in img.pixels_mut() {
        *pixel = image::Rgba([0, 128, 255, 200]);
    }
    let mut png: Vec<u8> = Vec::new();
    img.write_to(&mut std::io::Cursor::new(&mut png), image::ImageFormat::Png).unwrap();
    let (width, height, rgba) = decode_asset(&png).unwrap();
    assert_eq!((width, height), (4, 4));
    assert_eq!(rgba.len(), 64);
    assert!(rgba.chunks(4).all(|p| p == [0, 128, 255, 200]));
}

#[test]
fn decoder_rejects_garbage() {
    let garbage = vec![1u8, 2, 3, 4, 5];
    assert!(matches!(decode_asset(&garbage), Err(GlbError::UndecodableAsset)));
}

#[test]
fn decoder_rejects_rasters_off_the_tile_grid() {
    // The block compressor consumes whole 4-by-4 tiles, so a 5x3 raster is
    // rejected before any compression is attempted.
    let img = image::RgbaImage::new(5, 3);
    let mut png: Vec<u8> = Vec::new();
    img.write_to(&mut std::io::Cursor::new(&mut png), image::ImageFormat::Png).unwrap();
    assert!(matches!(decode_asset(&png), Err(GlbError::UndecodableAsset)));
}
