use vstd::prelude::*;
use vstd::pervasive::VecAdditionalExecFns;
use vstd::string::StringExecFns;

use crate::byteseq::{append_bytes, copy_range};
use crate::document::{BufferView, DocumentPatch, Image, ImagePatch, ViewPatch};
use crate::errors::GlbError;

verus! {

// The buffer rebuilder: walk the buffer views in document order, emit either
// the original slice or its compressed replacement into a new payload, and
// record every mutation of the JSON document in a `DocumentPatch`. The new
// offsets are dense and strictly increasing: no gaps, no padding, no
// alignment between consecutive emitted regions. The compressed textures —
// one per image-bearing view, in view order — are inputs: the block
// compressor runs outside the library, and the rebuild is verified for
// every value of its output.

/// One block-compressed texture handed to the rebuilder: the decoded
/// raster's dimensions and the compressed bytes that replace the view's
/// original slice.
pub struct CompressedAsset {
    pub width: u32,
    pub height: u32,
    pub data: Vec<u8>,
}

/// The index of the image that ends up associated with `view`: images are
/// walked in document order and each image claims its declared buffer view,
/// so when several images name the same view, the last one wins.
pub open spec fn last_user(images: Seq<Image>, view: int) -> Option<int>
    decreases images.len(),
{
    if images.len() == 0 {
        None
    } else if images.last().buffer_view_index == view {
        Some(images.len() - 1)
    } else {
        last_user(images.drop_last(), view)
    }
}

/// What `last_user` means, spelled out: the associated image names `view`,
/// and no later image does.
pub proof fn lemma_last_user_facts(images: Seq<Image>, view: int)
    ensures
        last_user(images, view) matches Some(i) ==> 0 <= i < images.len()
            && images[i].buffer_view_index == view && forall|j: int|
            i < j < images.len() ==> (#[trigger] images[j]).buffer_view_index != view,
        last_user(images, view) is None ==> forall|j: int|
            0 <= j < images.len() ==> (#[trigger] images[j]).buffer_view_index != view,
    decreases images.len(),
{
    if images.len() > 0 {
        lemma_last_user_facts(images.drop_last(), view);
        assert(forall|j: int|
            0 <= j < images.len() - 1 ==> images.drop_last()[j] == #[trigger] images[j]);
        assert(images.last() == images[images.len() - 1]);
    }
}

/// How many of the buffer views before `bound` are used by an image: the
/// ordinal that an image-bearing view's compressed texture has in the asset
/// list.
pub open spec fn used_count_before(images: Seq<Image>, bound: int) -> nat
    decreases bound,
{
    if bound <= 0 {
        0
    } else {
        used_count_before(images, bound - 1) + if last_user(images, bound - 1) is Some {
            1nat
        } else {
            0nat
        }
    }
}

pub proof fn lemma_used_count_monotonic(images: Seq<Image>, a: int, b: int)
    requires
        a <= b,
    ensures
        used_count_before(images, a) <= used_count_before(images, b),
    decreases b - a,
{
    if a < b {
        lemma_used_count_monotonic(images, a, b - 1);
    }
}

/// Every image names an existing buffer view.
pub open spec fn images_in_range(images: Seq<Image>, view_count: int) -> bool {
    forall|i: int|
        0 <= i < images.len() ==> (#[trigger] images[i]).buffer_view_index < view_count
}

/// Every buffer view lies inside the binary payload.
pub open spec fn views_in_range(views: Seq<BufferView>, payload_len: int) -> bool {
    forall|v: int|
        0 <= v < views.len() ==> (#[trigger] views[v]).offset + views[v].length <= payload_len
}

/// The slice of the original payload that buffer view `v` names.
pub open spec fn view_slice(payload: Seq<u8>, v: BufferView) -> Seq<u8> {
    payload.subrange(v.offset as int, v.offset + v.length)
}

/// A compressed texture whose byte length matches the block compressor's
/// fixed rate: 16 bytes for each 4-by-4 pixel tile of the recorded
/// dimensions.
pub open spec fn asset_rate_ok(a: CompressedAsset) -> bool {
    a.data@.len() == 16 * (a.width as int / 4) * (a.height as int / 4)
}

/// The bytes the rebuilder emits for buffer view `v`: the view's compressed
/// texture where an image uses the view, the original slice unchanged
/// otherwise.
pub open spec fn emitted_bytes(
    images: Seq<Image>,
    views: Seq<BufferView>,
    payload: Seq<u8>,
    assets: Seq<CompressedAsset>,
    v: int,
) -> Seq<u8> {
    if last_user(images, v) is Some {
        assets[used_count_before(images, v) as int].data@
    } else {
        view_slice(payload, views[v])
    }
}

/// The length of what the rebuilder emits for buffer view `v`.
pub open spec fn emitted_len(
    images: Seq<Image>,
    views: Seq<BufferView>,
    payload: Seq<u8>,
    assets: Seq<CompressedAsset>,
    v: int,
) -> nat {
    emitted_bytes(images, views, payload, assets, v).len()
}

/// The new payload after the first `count` buffer views have been emitted,
/// in view order with nothing in between.
pub open spec fn emitted_prefix(
    images: Seq<Image>,
    views: Seq<BufferView>,
    payload: Seq<u8>,
    assets: Seq<CompressedAsset>,
    count: int,
) -> Seq<u8>
    decreases count,
{
    if count <= 0 {
        Seq::empty()
    } else {
        emitted_prefix(images, views, payload, assets, count - 1) + emitted_bytes(
            images,
            views,
            payload,
            assets,
            count - 1,
        )
    }
}

/// The sum of the emitted lengths of the buffer views before `count`.
pub open spec fn emitted_len_sum(
    images: Seq<Image>,
    views: Seq<BufferView>,
    payload: Seq<u8>,
    assets: Seq<CompressedAsset>,
    count: int,
) -> nat
    decreases count,
{
    if count <= 0 {
        0
    } else {
        emitted_len_sum(images, views, payload, assets, count - 1) + emitted_len(
            images,
            views,
            payload,
            assets,
            count - 1,
        )
    }
}

/// Law: the rebuilt payload's total length is the sum of the emitted
/// per-view lengths.
pub proof fn lemma_prefix_len_is_sum(
    images: Seq<Image>,
    views: Seq<BufferView>,
    payload: Seq<u8>,
    assets: Seq<CompressedAsset>,
    count: int,
)
    ensures
        emitted_prefix(images, views, payload, assets, count).len() == emitted_len_sum(
            images,
            views,
            payload,
            assets,
            count,
        ),
    decreases count,
{
    if count > 0 {
        lemma_prefix_len_is_sum(images, views, payload, assets, count - 1);
    }
}

proof fn lemma_sum_monotonic(
    images: Seq<Image>,
    views: Seq<BufferView>,
    payload: Seq<u8>,
    assets: Seq<CompressedAsset>,
    a: int,
    b: int,
)
    requires
        a <= b,
    ensures
        emitted_len_sum(images, views, payload, assets, a) <= emitted_len_sum(
            images,
            views,
            payload,
            assets,
            b,
        ),
    decreases b - a,
{
    if a < b {
        lemma_sum_monotonic(images, views, payload, assets, a, b - 1);
    }
}

/// Law: inside the rebuilt payload, the region of buffer view `v` — the one
/// starting at the sum of the emitted lengths of all preceding views —
/// holds exactly the bytes emitted for `v`.
pub proof fn lemma_prefix_extract(
    images: Seq<Image>,
    views: Seq<BufferView>,
    payload: Seq<u8>,
    assets: Seq<CompressedAsset>,
    v: int,
    count: int,
)
    requires
        0 <= v < count,
    ensures
        emitted_prefix(images, views, payload, assets, count).subrange(
            emitted_len_sum(images, views, payload, assets, v) as int,
            (emitted_len_sum(images, views, payload, assets, v) + emitted_len(
                images,
                views,
                payload,
                assets,
                v,
            )) as int,
        ) == emitted_bytes(images, views, payload, assets, v),
    decreases count,
{
    lemma_prefix_len_is_sum(images, views, payload, assets, v);
    if v == count - 1 {
        assert(emitted_prefix(images, views, payload, assets, count).subrange(
            emitted_len_sum(images, views, payload, assets, v) as int,
            (emitted_len_sum(images, views, payload, assets, v) + emitted_len(
                images,
                views,
                payload,
                assets,
                v,
            )) as int,
        ) =~= emitted_bytes(images, views, payload, assets, v));
    } else {
        lemma_prefix_extract(images, views, payload, assets, v, count - 1);
        lemma_prefix_len_is_sum(images, views, payload, assets, count - 1);
        lemma_sum_monotonic(images, views, payload, assets, v + 1, count - 1);
        assert(emitted_len_sum(images, views, payload, assets, v) + emitted_len(
            images,
            views,
            payload,
            assets,
            v,
        ) == emitted_len_sum(images, views, payload, assets, v + 1));
        assert(emitted_prefix(images, views, payload, assets, count).subrange(
            emitted_len_sum(images, views, payload, assets, v) as int,
            (emitted_len_sum(images, views, payload, assets, v) + emitted_len(
                images,
                views,
                payload,
                assets,
                v,
            )) as int,
        ) =~= emitted_prefix(images, views, payload, assets, count - 1).subrange(
            emitted_len_sum(images, views, payload, assets, v) as int,
            (emitted_len_sum(images, views, payload, assets, v) + emitted_len(
                images,
                views,
                payload,
                assets,
                v,
            )) as int,
        ));
    }
}

/// Law: a buffer view referenced by zero images is copied byte-for-byte:
/// inside the fully rebuilt payload, the region starting at the view's new
/// offset and running for its (unchanged) length holds exactly its original
/// slice. Only the offset may change.
pub proof fn lemma_unused_view_copied(
    images: Seq<Image>,
    views: Seq<BufferView>,
    payload: Seq<u8>,
    assets: Seq<CompressedAsset>,
    v: int,
)
    requires
        0 <= v < views.len(),
        views_in_range(views, payload.len() as int),
        last_user(images, v) is None,
    ensures
        emitted_prefix(images, views, payload, assets, views.len() as int).subrange(
            emitted_len_sum(images, views, payload, assets, v) as int,
            (emitted_len_sum(images, views, payload, assets, v) + views[v].length) as int,
        ) == view_slice(payload, views[v]),
{
    lemma_prefix_extract(images, views, payload, assets, v, views.len() as int);
    assert(emitted_bytes(images, views, payload, assets, v) == view_slice(payload, views[v]));
    assert(view_slice(payload, views[v]).len() == views[v].length);
}

/// Law: a buffer view used by an image carries, at its new offset inside
/// the fully rebuilt payload, exactly its compressed replacement texture.
pub proof fn lemma_used_view_replaced(
    images: Seq<Image>,
    views: Seq<BufferView>,
    payload: Seq<u8>,
    assets: Seq<CompressedAsset>,
    v: int,
)
    requires
        0 <= v < views.len(),
        last_user(images, v) is Some,
    ensures
        emitted_prefix(images, views, payload, assets, views.len() as int).subrange(
            emitted_len_sum(images, views, payload, assets, v) as int,
            (emitted_len_sum(images, views, payload, assets, v) + assets[used_count_before(
                images,
                v,
            ) as int].data@.len()) as int,
        ) == assets[used_count_before(images, v) as int].data@,
{
    lemma_prefix_extract(images, views, payload, assets, v, views.len() as int);
    assert(emitted_bytes(images, views, payload, assets, v) == assets[used_count_before(
        images,
        v,
    ) as int].data@);
}

/// The asset-map entry for `view` agrees with `last_user`.
pub open spec fn asset_entry_matches(images: Seq<Image>, view: int, entry: Option<usize>) -> bool {
    match entry {
        Some(i) => last_user(images, view) == Some(i as int),
        None => last_user(images, view) is None,
    }
}

/// Associate each buffer view with the image that uses it: every view
/// starts unused; the images are walked in document order and each claims
/// its declared view, the last writer winning. An image whose view index is
/// out of range is fatal.
pub fn build_asset_map(images: &Vec<Image>, view_count: usize) -> (r: Result<
    Vec<Option<usize>>,
    GlbError,
>)
    ensures
        r is Ok <==> images_in_range(images@, view_count as int),
        r matches Err(e) ==> e == GlbError::OutOfRangeReference,
        r matches Ok(m) ==> m@.len() == view_count && forall|v: int|
            0 <= v < view_count ==> asset_entry_matches(images@, v, #[trigger] m@[v]),
{
    let mut map: Vec<Option<usize>> = Vec::new();
    let mut v: usize = 0;
    while v < view_count
        invariant
            v <= view_count,
            map@.len() == v,
            forall|k: int| 0 <= k < v ==> (#[trigger] map@[k]) is None,
        decreases view_count - v,
    {
        map.push(None);
        v = v + 1;
    }

    let mut i: usize = 0;
    while i < images.len()
        invariant
            i <= images@.len(),
            map@.len() == view_count,
            images_in_range(images@.subrange(0, i as int), view_count as int),
            forall|k: int|
                0 <= k < view_count ==> asset_entry_matches(
                    images@.subrange(0, i as int),
                    k,
                    #[trigger] map@[k],
                ),
        decreases images@.len() - i,
    {
        let ghost prefix = images@.subrange(0, i as int);
        let index32 = images[i].buffer_view_index;
        let index = index32 as usize;
        if index >= view_count {
            assert(!images_in_range(images@, view_count as int));
            return Err(GlbError::OutOfRangeReference);
        }
        map.set(index, Some(i));
        i = i + 1;
        proof {
            let extended = images@.subrange(0, i as int);
            assert(extended.drop_last() =~= prefix);
            assert(extended.last() == images@[i - 1]);
            assert forall|k: int| 0 <= k < view_count implies asset_entry_matches(
                extended,
                k,
                #[trigger] map@[k],
            ) by {
                if k == index {
                    assert(last_user(extended, k) == Some(i - 1));
                } else {
                    assert(last_user(extended, k) == last_user(prefix, k));
                }
            }
        }
    }
    proof {
        assert(images@.subrange(0, images@.len() as int) =~= images@);
    }
    Ok(map)
}

/// The inputs on which the rebuild succeeds: every image names an existing
/// buffer view and every buffer view lies inside the payload.
pub open spec fn rebuild_ok(images: Seq<Image>, views: Seq<BufferView>, payload: Seq<u8>) -> bool {
    &&& images_in_range(images, views.len() as int)
    &&& views_in_range(views, payload.len() as int)
}

/// The patch entry for buffer view `v`: its new offset is the sum of the
/// emitted lengths of all preceding views, and its length is rewritten
/// exactly when an image uses the view.
pub open spec fn view_patch_matches(
    images: Seq<Image>,
    views: Seq<BufferView>,
    payload: Seq<u8>,
    assets: Seq<CompressedAsset>,
    v: int,
    entry: ViewPatch,
) -> bool {
    &&& entry.new_offset == emitted_len_sum(images, views, payload, assets, v)
    &&& match last_user(images, v) {
        Some(_) => entry.new_length matches Some(l) && l == emitted_len(
            images,
            views,
            payload,
            assets,
            v,
        ),
        None => entry.new_length is None,
    }
}

/// The patch entry for image `j`, after the first `processed` buffer views
/// have been emitted: the image gains its new MIME type and a vendor block
/// carrying its compressed texture's recorded dimensions exactly when its
/// buffer view (one it is the last user of) has been processed.
pub open spec fn image_patch_matches(
    images: Seq<Image>,
    views: Seq<BufferView>,
    assets: Seq<CompressedAsset>,
    processed: int,
    j: int,
    entry: Option<ImagePatch>,
) -> bool {
    match entry {
        Some(ip) => {
            &&& last_user(images, images[j].buffer_view_index as int) == Some(j)
            &&& images[j].buffer_view_index < processed
            &&& ip.width == assets[used_count_before(
                images,
                images[j].buffer_view_index as int,
            ) as int].width
            &&& ip.height == assets[used_count_before(
                images,
                images[j].buffer_view_index as int,
            ) as int].height
            &&& ip.mime_type@ == "image/dds"@
            &&& ip.format@ == "BC7"@
            &&& ip.extension@ == "EXT_voyage_exporter"@
        },
        None => !(last_user(images, images[j].buffer_view_index as int) == Some(j)
            && images[j].buffer_view_index < processed),
    }
}

/// Everything the rebuild promises of the patch it returns.
pub open spec fn patch_describes(
    images: Seq<Image>,
    views: Seq<BufferView>,
    payload: Seq<u8>,
    assets: Seq<CompressedAsset>,
    patch: DocumentPatch,
) -> bool {
    &&& patch.views@.len() == views.len()
    &&& forall|v: int|
        0 <= v < views.len() ==> view_patch_matches(
            images,
            views,
            payload,
            assets,
            v,
            #[trigger] patch.views@[v],
        )
    &&& patch.images@.len() == images.len()
    &&& forall|j: int|
        0 <= j < images.len() ==> image_patch_matches(
            images,
            views,
            assets,
            views.len() as int,
            j,
            #[trigger] patch.images@[j],
        )
    &&& patch.extensions_used@.len() == 1
    &&& patch.extensions_used@[0]@ == "EXT_voyage_exporter"@
    &&& patch.extensions_required@.len() == 1
    &&& patch.extensions_required@[0]@ == "EXT_voyage_exporter"@
}

/// Walk the buffer views in document order and build the new binary
/// payload: an unused view's slice is appended unchanged; a view used by an
/// image is replaced by its compressed texture, the next one of `assets` in
/// view order. Every view's new offset is the current write position, so
/// the output is dense, in order, and without padding. The returned patch
/// records every document mutation, including the two extension-usage
/// lists, each holding exactly the vendor extension name.
pub fn rebuild_buffer(
    images: &Vec<Image>,
    buffer_views: &Vec<BufferView>,
    payload: &Vec<u8>,
    assets: &Vec<CompressedAsset>,
) -> (r: Result<(Vec<u8>, DocumentPatch), GlbError>)
    requires
        assets@.len() == used_count_before(images@, buffer_views@.len() as int),
        forall|k: int| 0 <= k < assets@.len() ==> asset_rate_ok(#[trigger] assets@[k]),
    ensures
        r is Ok <==> rebuild_ok(images@, buffer_views@, payload@),
        r matches Err(e) ==> e == GlbError::OutOfRangeReference,
        r matches Ok(p) ==> p.0@ == emitted_prefix(
            images@,
            buffer_views@,
            payload@,
            assets@,
            buffer_views@.len() as int,
        ) && patch_describes(images@, buffer_views@, payload@, assets@, p.1),
{
    let view_count = buffer_views.len();
    let payload_len = payload.len();
    let asset_map = match build_asset_map(images, view_count) {
        Ok(m) => m,
        Err(e) => {
            return Err(e);
        },
    };

    let mut v: usize = 0;
    while v < view_count
        invariant
            v <= view_count,
            view_count == buffer_views@.len(),
            payload_len == payload@.len(),
            views_in_range(buffer_views@.subrange(0, v as int), payload@.len() as int),
        decreases view_count - v,
    {
        let ghost prefix = buffer_views@.subrange(0, v as int);
        let offset = buffer_views[v].offset;
        let length = buffer_views[v].length;
        if offset as u64 + length as u64 > payload_len as u64 {
            assert(!views_in_range(buffer_views@, payload@.len() as int));
            return Err(GlbError::OutOfRangeReference);
        }
        v = v + 1;
        proof {
            let extended = buffer_views@.subrange(0, v as int);
            assert(forall|k: int| 0 <= k < v - 1 ==> extended[k] == #[trigger] prefix[k]);
            assert(extended[v - 1] == buffer_views@[v - 1]);
        }
    }
    proof {
        assert(buffer_views@.subrange(0, view_count as int) =~= buffer_views@);
    }

    let mut image_patches: Vec<Option<ImagePatch>> = Vec::new();
    let mut j: usize = 0;
    while j < images.len()
        invariant
            j <= images@.len(),
            image_patches@.len() == j,
            forall|k: int| 0 <= k < j ==> (#[trigger] image_patches@[k]) is None,
        decreases images@.len() - j,
    {
        image_patches.push(None);
        j = j + 1;
    }

    let asset_count = assets.len();
    let mut out: Vec<u8> = Vec::new();
    let mut view_patches: Vec<ViewPatch> = Vec::new();
    let mut used: usize = 0;
    let mut v: usize = 0;
    while v < view_count
        invariant
            v <= view_count,
            view_count == buffer_views@.len(),
            payload_len == payload@.len(),
            images_in_range(images@, view_count as int),
            views_in_range(buffer_views@, payload@.len() as int),
            asset_map@.len() == view_count,
            forall|k: int|
                0 <= k < view_count ==> asset_entry_matches(images@, k, #[trigger] asset_map@[k]),
            assets@.len() == used_count_before(images@, view_count as int),
            asset_count == assets@.len(),
            used == used_count_before(images@, v as int),
            out@ == emitted_prefix(images@, buffer_views@, payload@, assets@, v as int),
            view_patches@.len() == v,
            forall|k: int|
                0 <= k < v ==> view_patch_matches(
                    images@,
                    buffer_views@,
                    payload@,
                    assets@,
                    k,
                    #[trigger] view_patches@[k],
                ),
            image_patches@.len() == images@.len(),
            forall|k: int|
                0 <= k < images@.len() ==> image_patch_matches(
                    images@,
                    buffer_views@,
                    assets@,
                    v as int,
                    k,
                    #[trigger] image_patches@[k],
                ),
        decreases view_count - v,
    {
        let offset = buffer_views[v].offset as usize;
        let length = buffer_views[v].length as usize;
        assert(offset + length <= payload@.len());
        let slice = copy_range(payload, offset, offset + length);
        assert(slice@ == view_slice(payload@, buffer_views@[v as int]));
        let current = out.len();
        proof {
            lemma_prefix_len_is_sum(images@, buffer_views@, payload@, assets@, v as int);
        }
        match asset_map[v] {
            None => {
                view_patches.push(ViewPatch { new_offset: current, new_length: None });
                append_bytes(&mut out, slice.as_slice());
                proof {
                    assert(last_user(images@, v as int) is None);
                    assert(emitted_bytes(images@, buffer_views@, payload@, assets@, v as int)
                        == view_slice(payload@, buffer_views@[v as int]));
                }
            },
            Some(image_index) => {
                proof {
                    assert(last_user(images@, v as int) == Some(image_index as int));
                    lemma_last_user_facts(images@, v as int);
                    lemma_used_count_monotonic(images@, v as int + 1, view_count as int);
                    assert(used_count_before(images@, v as int + 1) == used + 1);
                    assert(used < assets@.len());
                }
                let asset = &assets[used];
                view_patches.push(
                    ViewPatch { new_offset: current, new_length: Some(asset.data.len()) },
                );
                append_bytes(&mut out, asset.data.as_slice());
                let image_patch = ImagePatch {
                    mime_type: String::from_str("image/dds"),
                    extension: String::from_str("EXT_voyage_exporter"),
                    width: asset.width,
                    height: asset.height,
                    format: String::from_str("BC7"),
                };
                image_patches.set(image_index, Some(image_patch));
                used = used + 1;
                proof {
                    assert(emitted_bytes(images@, buffer_views@, payload@, assets@, v as int)
                        == asset.data@);
                }
            },
        }
        v = v + 1;
        proof {
            assert(out@ == emitted_prefix(images@, buffer_views@, payload@, assets@, v as int));
            assert(used == used_count_before(images@, v as int));
            assert forall|k: int|
                0 <= k < images@.len() implies image_patch_matches(
                images@,
                buffer_views@,
                assets@,
                v as int,
                k,
                #[trigger] image_patches@[k],
            ) by {
                lemma_last_user_facts(images@, v - 1);
            }
        }
    }

    let mut extensions_used: Vec<String> = Vec::new();
    extensions_used.push(String::from_str("EXT_voyage_exporter"));
    let mut extensions_required: Vec<String> = Vec::new();
    extensions_required.push(String::from_str("EXT_voyage_exporter"));
    let patch = DocumentPatch {
        views: view_patches,
        images: image_patches,
        extensions_used,
        extensions_required,
    };
    Ok((out, patch))
}

} // verus!
