use glbtex::container::{parse_container, write_container};
use glbtex::convert::{finish_conversion, prepare_conversion};
use glbtex::errors::GlbError;
use glbtex::rebuild::CompressedAsset;

/// A 4-by-4 opaque red PNG, encoded in memory.
fn png_4x4() -> Vec<u8> {
    let mut img = image::RgbaImage::new(4, 4);
    for pixel in img.pixels_mut() {
        *pixel = image::Rgba([255, 0, 0, 255]);
    }
    let mut buf: Vec<u8> = Vec::new();
    img.write_to(&mut std::io::Cursor::new(&mut buf), image::ImageFormat::Png).unwrap();
    buf
}

/// A stand-in block compressor with BC7's fixed rate: 16 bytes for each
/// 4-by-4 pixel tile.
fn stub_blocks(width: u32, height: u32) -> Vec<u8> {
    vec![0xAB; (16 * (width / 4) * (height / 4)) as usize]
}

/// Run a whole conversion, compressing each decoded raster with the
/// fixed-rate stand-in.
fn convert(glb: Vec<u8>) -> Result<Vec<u8>, GlbError> {
    let prep = prepare_conversion(glb)?;
    let mut assets: Vec<CompressedAsset> = Vec::new();
    for job in &prep.jobs {
        assets.push(CompressedAsset {
            width: job.width,
            height: job.height,
            data: stub_blocks(job.width, job.height),
        });
    }
    finish_conversion(prep, assets)
}

fn build_glb(json: &str, payload: &[u8]) -> Vec<u8> {
    write_container(&json.as_bytes().to_vec(), &payload.to_vec())
}

fn output_doc(out: &[u8]) -> (serde_json::Value, Vec<u8>) {
    let (json, payload) = parse_container(&out.to_vec()).unwrap();
    (serde_json::from_slice(&json).unwrap(), payload)
}

#[test]
fn scenario_single_image_view() {
    // One 1024-byte buffer, one view covering it, holding a 4x4 encoded
    // image; one image referencing that view.
    let mut payload = png_4x4();
    assert!(payload.len() <= 1024);
    payload.resize(1024, 0);
    let json = "{\"buffers\":[{\"byteLength\":1024}],\"bufferViews\":[{\"buffer\":0,\"byteOffset\":0,\"byteLength\":1024}],\"images\":[{\"bufferView\":0,\"mimeType\":\"image/png\"}]}";
    let glb = build_glb(json, &payload);
    let out = convert(glb).unwrap();
    let (doc, new_payload) = output_doc(&out);

    // A 4x4 image compresses to exactly one 16-byte block.
    assert_eq!(new_payload.len(), 16);
    assert_eq!(doc["bufferViews"][0]["byteOffset"], serde_json::Value::from(0u64));
    assert_eq!(doc["bufferViews"][0]["byteLength"], serde_json::Value::from(16u64));
    assert_eq!(doc["images"][0]["mimeType"], serde_json::Value::from("image/dds"));
    let ext = &doc["images"][0]["extensions"]["EXT_voyage_exporter"];
    assert_eq!(ext["width"], serde_json::Value::from(4u64));
    assert_eq!(ext["height"], serde_json::Value::from(4u64));
    assert_eq!(ext["format"], serde_json::Value::from("BC7"));
}

#[test]
fn prepared_jobs_report_decoded_raster() {
    let png = png_4x4();
    let json = format!(
        "{{\"buffers\":[{{\"byteLength\":{}}}],\"bufferViews\":[{{\"buffer\":0,\"byteOffset\":0,\"byteLength\":{}}}],\"images\":[{{\"bufferView\":0,\"mimeType\":\"image/png\"}}]}}",
        png.len(),
        png.len(),
    );
    let prep = prepare_conversion(build_glb(&json, &png)).unwrap();
    assert_eq!(prep.jobs.len(), 1);
    assert_eq!(prep.jobs[0].view_index, 0);
    assert_eq!((prep.jobs[0].width, prep.jobs[0].height), (4, 4));
    // 4 bytes per pixel, and never the encoded input handed back unchanged.
    assert_eq!(prep.jobs[0].rgba.len(), 4 * 4 * 4);
    assert_ne!(prep.jobs[0].rgba, png);
    // The decoded raster is the solid red the PNG encodes.
    assert!(prep.jobs[0].rgba.chunks(4).all(|p| p == [255, 0, 0, 255]));
}

#[test]
fn extension_lists_hold_vendor_name_exactly_once() {
    let mut payload = png_4x4();
    payload.resize(1024, 0);
    let json = "{\"buffers\":[{\"byteLength\":1024}],\"bufferViews\":[{\"buffer\":0,\"byteOffset\":0,\"byteLength\":1024}],\"images\":[{\"bufferView\":0,\"mimeType\":\"image/png\"}]}";
    let out = convert(build_glb(json, &payload)).unwrap();
    let (doc, _) = output_doc(&out);
    for key in ["extensionsUsed", "extensionsRequired"] {
        let list = doc[key].as_array().unwrap();
        assert_eq!(list.len(), 1);
        assert_eq!(list[0], serde_json::Value::from("EXT_voyage_exporter"));
    }

    // The lists are the same with zero transcoded images.
    let empty_json = "{\"buffers\":[],\"bufferViews\":[],\"images\":[]}";
    let out = convert(build_glb(empty_json, &[])).unwrap();
    let (doc, new_payload) = output_doc(&out);
    assert!(new_payload.is_empty());
    for key in ["extensionsUsed", "extensionsRequired"] {
        let list = doc[key].as_array().unwrap();
        assert_eq!(list.len(), 1);
        assert_eq!(list[0], serde_json::Value::from("EXT_voyage_exporter"));
    }
}

#[test]
fn scenario_unused_view_then_image_view() {
    // Two views: the first holds 64 bytes of arbitrary data no image uses,
    // the second holds the encoded image.
    let stored: Vec<u8> = (0u8..64).collect();
    let png = png_4x4();
    let mut payload = stored.clone();
    payload.extend_from_slice(&png);
    let json = format!(
        "{{\"buffers\":[{{\"byteLength\":{}}}],\"bufferViews\":[{{\"buffer\":0,\"byteOffset\":0,\"byteLength\":64}},{{\"buffer\":0,\"byteOffset\":64,\"byteLength\":{}}}],\"images\":[{{\"bufferView\":1,\"mimeType\":\"image/png\"}}]}}",
        payload.len(),
        png.len(),
    );
    let out = convert(build_glb(&json, &payload)).unwrap();
    let (doc, new_payload) = output_doc(&out);

    // The unused view's bytes are preserved unchanged at its new offset.
    assert_eq!(&new_payload[0..64], &stored[..]);
    assert_eq!(doc["bufferViews"][0]["byteOffset"], serde_json::Value::from(0u64));
    assert_eq!(doc["bufferViews"][0]["byteLength"], serde_json::Value::from(64u64));
    // The image view follows directly, its length rewritten to the
    // compressed size.
    assert_eq!(doc["bufferViews"][1]["byteOffset"], serde_json::Value::from(64u64));
    assert_eq!(doc["bufferViews"][1]["byteLength"], serde_json::Value::from(16u64));
    assert_eq!(new_payload.len(), 64 + 16);
}

#[test]
fn passthrough_offsets_are_dense_prefix_sums() {
    // Three unused views of lengths 3, 5 and 2: the rebuilt payload is the
    // concatenation of their slices and every new offset is the sum of the
    // emitted lengths before it.
    let payload: Vec<u8> = (0u8..10).collect();
    let json = "{\"buffers\":[{\"byteLength\":10}],\"bufferViews\":[{\"buffer\":0,\"byteOffset\":0,\"byteLength\":3},{\"buffer\":0,\"byteOffset\":3,\"byteLength\":5},{\"buffer\":0,\"byteOffset\":8,\"byteLength\":2}],\"images\":[]}";
    let out = convert(build_glb(json, &payload)).unwrap();
    let (doc, new_payload) = output_doc(&out);
    assert_eq!(new_payload, payload);
    assert_eq!(doc["bufferViews"][0]["byteOffset"], serde_json::Value::from(0u64));
    assert_eq!(doc["bufferViews"][1]["byteOffset"], serde_json::Value::from(3u64));
    assert_eq!(doc["bufferViews"][2]["byteOffset"], serde_json::Value::from(8u64));
}

#[test]
fn corrupted_magic_fails_before_chunk_parsing() {
    let mut glb = build_glb("{\"buffers\":[],\"bufferViews\":[],\"images\":[]}", &[]);
    glb[3] = 0xFF;
    assert!(matches!(prepare_conversion(glb), Err(GlbError::InvalidContainer)));
}

#[test]
fn overdeclared_total_length_is_truncated_container() {
    let mut glb = build_glb("{\"buffers\":[],\"bufferViews\":[],\"images\":[]}", &[]);
    let total = glb.len() as u32;
    glb[8..12].copy_from_slice(&(total + 100).to_le_bytes());
    assert!(matches!(prepare_conversion(glb), Err(GlbError::TruncatedContainer)));
}

#[test]
fn unparsable_json_chunk_is_malformed_document() {
    let glb = build_glb("this is not json", &[]);
    assert!(matches!(prepare_conversion(glb), Err(GlbError::MalformedDocument)));
}

#[test]
fn missing_document_arrays_are_malformed_document() {
    let glb = build_glb("{\"buffers\":[],\"images\":[]}", &[]);
    assert!(matches!(prepare_conversion(glb), Err(GlbError::MalformedDocument)));
    let glb = build_glb("{\"buffers\":[{}],\"bufferViews\":[],\"images\":[]}", &[]);
    assert!(matches!(prepare_conversion(glb), Err(GlbError::MalformedDocument)));
}

#[test]
fn image_with_nonexistent_view_is_out_of_range() {
    let json = "{\"buffers\":[{\"byteLength\":4}],\"bufferViews\":[{\"buffer\":0,\"byteOffset\":0,\"byteLength\":4}],\"images\":[{\"bufferView\":3,\"mimeType\":\"image/png\"}]}";
    let glb = build_glb(json, &[1, 2, 3, 4]);
    assert!(matches!(prepare_conversion(glb), Err(GlbError::OutOfRangeReference)));
}

#[test]
fn view_overrunning_payload_is_out_of_range() {
    let json = "{\"buffers\":[{\"byteLength\":4}],\"bufferViews\":[{\"buffer\":0,\"byteOffset\":2,\"byteLength\":100}],\"images\":[]}";
    let glb = build_glb(json, &[1, 2, 3, 4]);
    assert!(matches!(prepare_conversion(glb), Err(GlbError::OutOfRangeReference)));
}

#[test]
fn undecodable_image_bytes_abort_the_run() {
    let json = "{\"buffers\":[{\"byteLength\":8}],\"bufferViews\":[{\"buffer\":0,\"byteOffset\":0,\"byteLength\":8}],\"images\":[{\"bufferView\":0,\"mimeType\":\"image/png\"}]}";
    let glb = build_glb(json, &[0xDE, 0xAD, 0xBE, 0xEF, 1, 2, 3, 4]);
    assert!(matches!(prepare_conversion(glb), Err(GlbError::UndecodableAsset)));
}

#[test]
fn second_conversion_run_is_rejected() {
    // Transcoding is lossy and one-directional. A produced container lists
    // its images as view-backed block-compressed payloads without any
    // raster header, so a second run fails deterministically instead of
    // re-transcoding.
    let png = png_4x4();
    let json = format!(
        "{{\"buffers\":[{{\"byteLength\":{}}}],\"bufferViews\":[{{\"buffer\":0,\"byteOffset\":0,\"byteLength\":{}}}],\"images\":[{{\"bufferView\":0,\"mimeType\":\"image/png\"}}]}}",
        png.len(),
        png.len(),
    );
    let first = convert(build_glb(&json, &png)).unwrap();
    let second = convert(first.clone());
    assert!(matches!(second, Err(GlbError::UndecodableAsset)));
    // And the first run itself is deterministic.
    let again = convert(build_glb(&json, &png)).unwrap();
    assert_eq!(first, again);
}

#[test]
fn later_image_wins_a_shared_view() {
    // Two images name the same buffer view; the association is
    // last-write-wins, so only the second image is patched.
    let png = png_4x4();
    let json = format!(
        "{{\"buffers\":[{{\"byteLength\":{}}}],\"bufferViews\":[{{\"buffer\":0,\"byteOffset\":0,\"byteLength\":{}}}],\"images\":[{{\"bufferView\":0,\"mimeType\":\"image/png\"}},{{\"bufferView\":0,\"mimeType\":\"image/png\"}}]}}",
        png.len(),
        png.len(),
    );
    let out = convert(build_glb(&json, &png)).unwrap();
    let (doc, _) = output_doc(&out);
    assert_eq!(doc["images"][0]["mimeType"], serde_json::Value::from("image/png"));
    assert!(doc["images"][0].get("extensions").is_none());
    assert_eq!(doc["images"][1]["mimeType"], serde_json::Value::from("image/dds"));
    assert!(doc["images"][1].get("extensions").is_some());
}
