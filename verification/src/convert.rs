use vstd::prelude::*;

use crate::byteseq::copy_range;
use crate::container::{glb_frame, parse_container, parse_error, parsed_json, parsed_payload, write_container};
use crate::document::{
    apply_patch, doc_images_in_range, doc_views_in_range, extract_document, image_patches_applied,
    json_parse, json_serialize, models_doc, parsed_doc, patch_applied, schema_ok,
    serialized_json, view_patches_applied, with_string_singleton, BufferView, Gltf, Image,
};
use crate::errors::GlbError;
use crate::rebuild::{
    asset_rate_ok, build_asset_map, emitted_len, emitted_len_sum, emitted_prefix,
    image_patch_matches, images_in_range, last_user, lemma_last_user_facts, rebuild_buffer,
    rebuild_ok, used_count_before, view_patch_matches, views_in_range, CompressedAsset,
};
use crate::transcode::{acceptable_raster, decode_asset};

verus! {

// The conversion runs in two halves around the block compressor, which is
// an external collaborator the library never calls. `prepare_conversion`
// parses and validates everything and decodes every image-bearing buffer
// view into a raster job; the caller compresses each job's raster; and
// `finish_conversion` rebuilds the payload around the compressed textures,
// patches the document and serializes the new container. The run is
// all-or-nothing: the first error aborts it and no partial output is ever
// produced.
//
// Re-running a conversion over a container this module produced is out of
// scope: the rewritten images carry headerless block-compressed payloads,
// which the raster decoder does not accept, so a second run fails
// deterministically as `UndecodableAsset` instead of re-transcoding.

/// One decoded texture waiting for the block compressor: which buffer view
/// it replaces, the decoded dimensions, and the tightly packed 8-bit RGBA
/// raster.
pub struct AssetJob {
    pub view_index: usize,
    pub width: u32,
    pub height: u32,
    pub rgba: Vec<u8>,
}

/// Everything `prepare_conversion` extracted and validated, to be handed
/// back to `finish_conversion` together with the compressed textures.
pub struct PreparedConversion {
    pub doc: serde_json::Value,
    pub gltf: Gltf,
    pub payload: Vec<u8>,
    pub jobs: Vec<AssetJob>,
}

/// The job list holds exactly one entry per image-bearing buffer view, in
/// view order, each carrying a compressor-ready raster: acceptable
/// dimensions and four bytes per pixel.
pub open spec fn jobs_match(images: Seq<Image>, views: Seq<BufferView>, jobs: Seq<AssetJob>) -> bool {
    &&& jobs.len() == used_count_before(images, views.len() as int)
    &&& forall|v: int|
        #![trigger last_user(images, v)]
        0 <= v < views.len() && last_user(images, v) is Some ==> {
            let job = jobs[used_count_before(images, v) as int];
            &&& job.view_index == v
            &&& acceptable_raster(job.width, job.height)
            &&& job.rgba@.len() == 4 * job.width * job.height
        }
}

/// The container's JSON chunk parses and has the shape the document schema
/// asks for.
pub open spec fn document_ok(glb: Seq<u8>) -> bool {
    parsed_doc(parsed_json(glb)) matches Some(d) && schema_ok(d)
}

/// Every reference of the parsed document is in range: each image names an
/// existing buffer view and each buffer view lies inside the binary
/// payload.
pub open spec fn references_ok(glb: Seq<u8>) -> bool {
    parsed_doc(parsed_json(glb)) matches Some(d) && doc_images_in_range(d) && doc_views_in_range(
        d,
        parsed_payload(glb).len() as int,
    )
}

/// A model extracted from the document agrees with it on every reference:
/// the model-level range checks decide exactly the document-level ones.
proof fn lemma_model_ranges(g: Gltf, doc: serde_json::Value, payload_len: int)
    requires
        models_doc(g, doc),
    ensures
        images_in_range(g.images@, g.buffer_views@.len() as int) <==> doc_images_in_range(doc),
        views_in_range(g.buffer_views@, payload_len) <==> doc_views_in_range(doc, payload_len),
{
    assert(crate::document::doc_image_count(doc) == g.images@.len());
    assert(crate::document::doc_view_count(doc) == g.buffer_views@.len());
    if doc_images_in_range(doc) {
        assert forall|i: int|
            0 <= i < g.images@.len() implies (#[trigger] g.images@[i]).buffer_view_index
            < g.buffer_views@.len() by {
            assert(crate::document::doc_elem_u64(doc, "images"@, i, "bufferView"@).unwrap()
                < crate::document::doc_view_count(doc));
        }
    }
    if images_in_range(g.images@, g.buffer_views@.len() as int) {
        assert forall|j: int|
            0 <= j < crate::document::doc_image_count(doc) implies (
            #[trigger] crate::document::doc_elem_u64(doc, "images"@, j, "bufferView"@)).unwrap()
            < crate::document::doc_view_count(doc) by {
            assert(g.images@[j].buffer_view_index < g.buffer_views@.len());
        }
    }
    if doc_views_in_range(doc, payload_len) {
        assert forall|v: int|
            0 <= v < g.buffer_views@.len() implies (#[trigger] g.buffer_views@[v]).offset
            + g.buffer_views@[v].length <= payload_len by {
            assert(crate::document::doc_view_offset(doc, v) + crate::document::doc_view_length(
                doc,
                v,
            ) <= payload_len);
        }
    }
    if views_in_range(g.buffer_views@, payload_len) {
        assert forall|v: int|
            0 <= v < crate::document::doc_view_count(doc) implies #[trigger] crate::document::doc_view_offset(
            doc,
            v,
        ) + crate::document::doc_view_length(doc, v) <= payload_len by {
            assert(g.buffer_views@[v].offset + g.buffer_views@[v].length <= payload_len);
        }
    }
}

/// Parse the container, parse and model the JSON document, validate every
/// reference, and decode every image-bearing buffer view into a raster
/// job. Each failure below `UndecodableAsset` is pinned to the input bytes
/// exactly; `UndecodableAsset` itself is decided by the raster decoder, an
/// outside call, so only its preconditions are stated.
pub fn prepare_conversion(glb: Vec<u8>) -> (r: Result<PreparedConversion, GlbError>)
    ensures
        (r matches Err(e) && e == GlbError::InvalidContainer) <==> parse_error(glb@) == Some(
            GlbError::InvalidContainer,
        ),
        (r matches Err(e) && e == GlbError::TruncatedContainer) <==> parse_error(glb@) == Some(
            GlbError::TruncatedContainer,
        ),
        (r matches Err(e) && e == GlbError::UnexpectedChunkType) <==> parse_error(glb@) == Some(
            GlbError::UnexpectedChunkType,
        ),
        (r matches Err(e) && e == GlbError::MalformedDocument) <==> parse_error(glb@) is None
            && !document_ok(glb@),
        (r matches Err(e) && e == GlbError::OutOfRangeReference) <==> parse_error(glb@) is None
            && document_ok(glb@) && !references_ok(glb@),
        (r matches Err(e) && e == GlbError::UndecodableAsset) ==> parse_error(glb@) is None
            && document_ok(glb@) && references_ok(glb@),
        r matches Ok(state) ==> parse_error(glb@) is None && document_ok(glb@) && references_ok(
            glb@,
        ) && state.payload@ == parsed_payload(glb@) && parsed_doc(parsed_json(glb@)) == Some(
            state.doc,
        ) && schema_ok(state.doc) && models_doc(state.gltf, state.doc) && rebuild_ok(
            state.gltf.images@,
            state.gltf.buffer_views@,
            state.payload@,
        ) && jobs_match(state.gltf.images@, state.gltf.buffer_views@, state.jobs@),
{
    let (json_bytes, payload) = match parse_container(&glb) {
        Ok(p) => p,
        Err(e) => {
            return Err(e);
        },
    };
    let doc = match json_parse(&json_bytes) {
        Some(d) => d,
        None => {
            return Err(GlbError::MalformedDocument);
        },
    };
    let gltf = match extract_document(&doc) {
        Ok(g) => g,
        Err(e) => {
            return Err(e);
        },
    };

    let view_count = gltf.buffer_views.len();
    let payload_len = payload.len();
    proof {
        lemma_model_ranges(gltf, doc, payload@.len() as int);
    }
    let asset_map = match build_asset_map(&gltf.images, view_count) {
        Ok(m) => m,
        Err(e) => {
            return Err(e);
        },
    };

    let mut v: usize = 0;
    while v < view_count
        invariant
            v <= view_count,
            view_count == gltf.buffer_views@.len(),
            payload_len == payload@.len(),
            parse_error(glb@) is None,
            payload@ == parsed_payload(glb@),
            parsed_doc(parsed_json(glb@)) == Some(doc),
            schema_ok(doc),
            models_doc(gltf, doc),
            doc_images_in_range(doc),
            views_in_range(gltf.buffer_views@, payload@.len() as int) <==> doc_views_in_range(
                doc,
                payload@.len() as int,
            ),
            views_in_range(gltf.buffer_views@.subrange(0, v as int), payload@.len() as int),
        decreases view_count - v,
    {
        let ghost prefix = gltf.buffer_views@.subrange(0, v as int);
        let offset = gltf.buffer_views[v].offset;
        let length = gltf.buffer_views[v].length;
        if offset as u64 + length as u64 > payload_len as u64 {
            assert(!views_in_range(gltf.buffer_views@, payload@.len() as int));
            return Err(GlbError::OutOfRangeReference);
        }
        v = v + 1;
        proof {
            let extended = gltf.buffer_views@.subrange(0, v as int);
            assert(forall|k: int| 0 <= k < v - 1 ==> extended[k] == #[trigger] prefix[k]);
            assert(extended[v - 1] == gltf.buffer_views@[v - 1]);
        }
    }
    proof {
        assert(gltf.buffer_views@.subrange(0, view_count as int) =~= gltf.buffer_views@);
    }

    let mut jobs: Vec<AssetJob> = Vec::new();
    let mut v: usize = 0;
    while v < view_count
        invariant
            v <= view_count,
            view_count == gltf.buffer_views@.len(),
            payload_len == payload@.len(),
            parse_error(glb@) is None,
            payload@ == parsed_payload(glb@),
            parsed_doc(parsed_json(glb@)) == Some(doc),
            schema_ok(doc),
            models_doc(gltf, doc),
            doc_images_in_range(doc),
            doc_views_in_range(doc, payload@.len() as int),
            images_in_range(gltf.images@, view_count as int),
            views_in_range(gltf.buffer_views@, payload@.len() as int),
            asset_map@.len() == view_count,
            forall|k: int|
                0 <= k < view_count ==> crate::rebuild::asset_entry_matches(
                    gltf.images@,
                    k,
                    #[trigger] asset_map@[k],
                ),
            jobs@.len() == used_count_before(gltf.images@, v as int),
            forall|k: int|
                #![trigger last_user(gltf.images@, k)]
                0 <= k < v && last_user(gltf.images@, k) is Some ==> {
                    let job = jobs@[used_count_before(gltf.images@, k) as int];
                    &&& job.view_index == k
                    &&& acceptable_raster(job.width, job.height)
                    &&& job.rgba@.len() == 4 * job.width * job.height
                },
        decreases view_count - v,
    {
        let offset = gltf.buffer_views[v].offset as usize;
        let length = gltf.buffer_views[v].length as usize;
        assert(offset + length <= payload@.len());
        let is_used = match asset_map[v] {
            Some(_) => true,
            None => false,
        };
        if is_used {
            let slice = copy_range(&payload, offset, offset + length);
            match decode_asset(&slice) {
                Err(_) => {
                    return Err(GlbError::UndecodableAsset);
                },
                Ok((width, height, rgba)) => {
                    jobs.push(AssetJob { view_index: v, width, height, rgba });
                },
            }
        }
        v = v + 1;
        proof {
            let prev = v - 1;
            assert(jobs@.len() == used_count_before(gltf.images@, v as int));
            assert forall|k: int|
                0 <= k < v && last_user(gltf.images@, k) is Some implies {
                let job = jobs@[used_count_before(gltf.images@, k) as int];
                &&& job.view_index == k
                &&& acceptable_raster(job.width, job.height)
                &&& job.rgba@.len() == 4 * job.width * job.height
            } by {
                assert(used_count_before(gltf.images@, k + 1) == used_count_before(
                    gltf.images@,
                    k,
                ) + 1);
                if k < prev {
                    crate::rebuild::lemma_used_count_monotonic(gltf.images@, k + 1, prev);
                }
            }
        }
    }

    Ok(PreparedConversion { doc, gltf, payload, jobs })
}

/// The per-view document mutations the rebuild implies: each view's new
/// offset is the sum of the emitted lengths before it, and an image-bearing
/// view's length becomes its compressed texture's.
pub open spec fn canonical_view_entries(
    images: Seq<Image>,
    views: Seq<BufferView>,
    payload: Seq<u8>,
    assets: Seq<CompressedAsset>,
) -> Seq<(usize, Option<usize>)> {
    Seq::new(
        views.len(),
        |v: int|
            (
                emitted_len_sum(images, views, payload, assets, v) as usize,
                if last_user(images, v) is Some {
                    Some(emitted_len(images, views, payload, assets, v) as usize)
                } else {
                    None
                },
            ),
    )
}

/// The per-image document mutations the rebuild implies: each image that is
/// the last user of its buffer view gains the new MIME type and the vendor
/// block carrying its compressed texture's dimensions and the format name.
pub open spec fn canonical_image_entries(
    images: Seq<Image>,
    assets: Seq<CompressedAsset>,
) -> Seq<Option<(Seq<char>, Seq<char>, u32, u32, Seq<char>)>> {
    Seq::new(
        images.len(),
        |j: int|
            if last_user(images, images[j].buffer_view_index as int) == Some(j) {
                Some(
                    (
                        "image/dds"@,
                        "EXT_voyage_exporter"@,
                        assets[used_count_before(
                            images,
                            images[j].buffer_view_index as int,
                        ) as int].width,
                        assets[used_count_before(
                            images,
                            images[j].buffer_view_index as int,
                        ) as int].height,
                        "BC7"@,
                    ),
                )
            } else {
                None
            },
    )
}

/// The document after the whole conversion's mutations: every view entry
/// repointed, every image-bearing image rewritten, and the two
/// extension-usage lists set to exactly the vendor extension name.
pub open spec fn patched_document(
    doc: serde_json::Value,
    images: Seq<Image>,
    views: Seq<BufferView>,
    payload: Seq<u8>,
    assets: Seq<CompressedAsset>,
) -> Option<serde_json::Value> {
    match view_patches_applied(
        doc,
        canonical_view_entries(images, views, payload, assets),
        views.len() as int,
    ) {
        Some(d) => match image_patches_applied(
            d,
            canonical_image_entries(images, assets),
            images.len() as int,
        ) {
            Some(d2) => match with_string_singleton(d2, "extensionsUsed"@, "EXT_voyage_exporter"@) {
                Some(d3) => with_string_singleton(
                    d3,
                    "extensionsRequired"@,
                    "EXT_voyage_exporter"@,
                ),
                None => None,
            },
            None => None,
        },
        None => None,
    }
}

/// The patched document exists and the whole container fits the 32-bit
/// length fields of the format.
pub open spec fn conversion_fits(
    doc: serde_json::Value,
    images: Seq<Image>,
    views: Seq<BufferView>,
    payload: Seq<u8>,
    assets: Seq<CompressedAsset>,
) -> bool {
    patched_document(doc, images, views, payload, assets) matches Some(d) && 28 + serialized_json(
        d,
    ).len() + emitted_prefix(images, views, payload, assets, views.len() as int).len() <= u32::MAX
}

/// `out` is exactly the container framing the patched document's
/// serialization and the emitted payload.
pub open spec fn framed_output(
    out: Seq<u8>,
    doc: serde_json::Value,
    images: Seq<Image>,
    views: Seq<BufferView>,
    payload: Seq<u8>,
    assets: Seq<CompressedAsset>,
) -> bool {
    patched_document(doc, images, views, payload, assets) matches Some(d) && out == glb_frame(
        serialized_json(d),
        emitted_prefix(images, views, payload, assets, views.len() as int),
    )
}

/// Rebuild the binary payload around the compressed textures — one per
/// job, in the same order — patch the document in lockstep, and serialize
/// the new container. It succeeds exactly where the references are in
/// range, the document takes every patch, and the result fits the 32-bit
/// length fields; the output is then the exact framing of the patched
/// document's serialization and the emitted payload.
pub fn finish_conversion(state: PreparedConversion, assets: Vec<CompressedAsset>) -> (r: Result<
    Vec<u8>,
    GlbError,
>)
    requires
        assets@.len() == used_count_before(
            state.gltf.images@,
            state.gltf.buffer_views@.len() as int,
        ),
        forall|k: int|
            0 <= k < assets@.len() && k < state.jobs@.len() ==> (#[trigger] assets@[k]).width
                == state.jobs@[k].width && assets@[k].height == state.jobs@[k].height,
        forall|k: int| 0 <= k < assets@.len() ==> asset_rate_ok(#[trigger] assets@[k]),
    ensures
        r is Ok <==> rebuild_ok(state.gltf.images@, state.gltf.buffer_views@, state.payload@)
            && conversion_fits(
            state.doc,
            state.gltf.images@,
            state.gltf.buffer_views@,
            state.payload@,
            assets@,
        ),
        r matches Ok(out) ==> framed_output(
            out@,
            state.doc,
            state.gltf.images@,
            state.gltf.buffer_views@,
            state.payload@,
            assets@,
        ),
        r matches Err(e) ==> (if !rebuild_ok(
            state.gltf.images@,
            state.gltf.buffer_views@,
            state.payload@,
        ) {
            e == GlbError::OutOfRangeReference
        } else if patched_document(
            state.doc,
            state.gltf.images@,
            state.gltf.buffer_views@,
            state.payload@,
            assets@,
        ) is None {
            e == GlbError::MalformedDocument
        } else {
            e == GlbError::OversizedContainer
        }),
{
    let PreparedConversion { doc: mut doc, gltf, payload, jobs: _ } = state;
    let ghost doc0 = doc;
    let ghost i_seq = gltf.images@;
    let ghost v_seq = gltf.buffer_views@;
    let ghost p_seq = payload@;
    let ghost a_seq = assets@;
    let (new_payload, patch) = match rebuild_buffer(
        &gltf.images,
        &gltf.buffer_views,
        &payload,
        &assets,
    ) {
        Ok(p) => p,
        Err(e) => {
            return Err(e);
        },
    };
    proof {
        assert forall|k: int|
            0 <= k < v_seq.len() implies crate::document::patch_view_entries(patch)[k]
            == canonical_view_entries(i_seq, v_seq, p_seq, a_seq)[k] by {
            assert(view_patch_matches(i_seq, v_seq, p_seq, a_seq, k, patch.views@[k]));
        }
        assert(crate::document::patch_view_entries(patch) =~= canonical_view_entries(
            i_seq,
            v_seq,
            p_seq,
            a_seq,
        ));
        assert forall|k: int|
            0 <= k < i_seq.len() implies crate::document::patch_image_entries(patch)[k]
            == canonical_image_entries(i_seq, a_seq)[k] by {
            assert(image_patch_matches(i_seq, v_seq, a_seq, v_seq.len() as int, k, patch.images@[k]));
            assert(i_seq[k].buffer_view_index < v_seq.len());
            lemma_last_user_facts(i_seq, i_seq[k].buffer_view_index as int);
        }
        assert(crate::document::patch_image_entries(patch) =~= canonical_image_entries(
            i_seq,
            a_seq,
        ));
        assert(patch_applied(doc0, patch) == patched_document(doc0, i_seq, v_seq, p_seq, a_seq));
    }
    if let Err(e) = apply_patch(&mut doc, &patch) {
        return Err(e);
    }
    let new_json = json_serialize(&doc);
    let json_len = new_json.len() as u64;
    let binary_len = new_payload.len() as u64;
    if json_len > u32::MAX as u64 || binary_len > u32::MAX as u64 {
        return Err(GlbError::OversizedContainer);
    }
    if 28 + json_len + binary_len > u32::MAX as u64 {
        return Err(GlbError::OversizedContainer);
    }
    let out = write_container(&new_json, &new_payload);
    Ok(out)
}

} // verus!
