use vstd::prelude::*;

use crate::errors::GlbError;

verus! {

// The typed view over the subset of the JSON document this rewriter
// consumes, and the trusted boundary to the JSON tree itself. The tree is
// opaque to the verifier, but every serde_json call used here is a pure
// function of its arguments, so each wrapper's result is pinned by an
// uninterpreted name over the declared document type: what the extraction
// reads, when it succeeds, and how each write transforms the document are
// all stated exactly.

/// One entry of the document's image list: which buffer view holds the
/// encoded bytes, and the declared MIME type.
pub struct Image {
    pub buffer_view_index: u32,
    pub mime_type: String,
}

/// One entry of the document's buffer-view list: a sub-range of the binary
/// payload of the owning buffer.
pub struct BufferView {
    pub buffer: u32,
    pub offset: u32,
    pub length: u32,
}

/// One entry of the document's buffer list: only the declared byte length is
/// consumed, and only for diagnostic validation.
pub struct Buffer {
    pub length: u32,
}

/// The extracted document model.
pub struct Gltf {
    pub images: Vec<Image>,
    pub buffer_views: Vec<BufferView>,
    pub buffers: Vec<Buffer>,
}

/// The mutation of one buffer-view entry: the recomputed offset, and the new
/// length where transcoding replaced the bytes.
pub struct ViewPatch {
    pub new_offset: usize,
    pub new_length: Option<usize>,
}

/// The mutation of one image entry: the new MIME type and the vendor
/// extension block recording the decoded size and the compression format.
pub struct ImagePatch {
    pub mime_type: String,
    pub extension: String,
    pub width: u32,
    pub height: u32,
    pub format: String,
}

/// Everything the rebuild pass writes back into the JSON document.
pub struct DocumentPatch {
    pub views: Vec<ViewPatch>,
    pub images: Vec<Option<ImagePatch>>,
    pub extensions_used: Vec<String>,
    pub extensions_required: Vec<String>,
}

#[verifier::external_type_specification]
#[verifier::external_body]
pub struct ExJsonValue(serde_json::Value);

/// The document that parsing the given bytes as JSON yields, or `None`
/// where they are not UTF-8 text holding one well-formed JSON value.
/// serde_json's parser consults nothing but its input.
pub uninterp spec fn parsed_doc(bytes: Seq<u8>) -> Option<serde_json::Value>;

/// The JSON text that serializing the given document yields. serde_json's
/// compact serializer is a function of the document alone.
pub uninterp spec fn serialized_json(doc: serde_json::Value) -> Seq<u8>;

/// The length of the array under the top-level `key`, or `None` where `key`
/// is absent or not an array.
pub uninterp spec fn doc_array_len(doc: serde_json::Value, key: Seq<char>) -> Option<usize>;

/// The unsigned integer under `field` of the `index`-th element of the
/// array under `key`, or `None` where that path is absent or not an
/// unsigned integer.
pub uninterp spec fn doc_elem_u64(
    doc: serde_json::Value,
    key: Seq<char>,
    index: int,
    field: Seq<char>,
) -> Option<u64>;

/// The string under `field` of the `index`-th element of the array under
/// `key`.
pub uninterp spec fn doc_elem_str(
    doc: serde_json::Value,
    key: Seq<char>,
    index: int,
    field: Seq<char>,
) -> Option<Seq<char>>;

/// Whether the `index`-th element of the array under `key` has a member
/// named `field`.
pub uninterp spec fn doc_elem_has_field(
    doc: serde_json::Value,
    key: Seq<char>,
    index: int,
    field: Seq<char>,
) -> bool;

/// The document after storing the number `x` under `field` of the
/// `index`-th element of the array under `key`, or `None` where that
/// element is absent or not an object (the document is then unchanged).
pub uninterp spec fn with_elem_u64(
    doc: serde_json::Value,
    key: Seq<char>,
    index: int,
    field: Seq<char>,
    x: u64,
) -> Option<serde_json::Value>;

/// The document after storing the string `s` under `field` of the
/// `index`-th element of the array under `key`.
pub uninterp spec fn with_elem_str(
    doc: serde_json::Value,
    key: Seq<char>,
    index: int,
    field: Seq<char>,
    s: Seq<char>,
) -> Option<serde_json::Value>;

/// The document after storing a one-element string array under the
/// top-level `key`, or `None` where the document is not an object.
pub uninterp spec fn with_string_singleton(
    doc: serde_json::Value,
    key: Seq<char>,
    item: Seq<char>,
) -> Option<serde_json::Value>;

/// The document after storing, under `field` of the `index`-th element of
/// the array under `key`, an object holding the single member `inner_key`,
/// itself an object carrying the two numeric members and the one string
/// member given by the remaining pairs.
pub uninterp spec fn with_elem_nested_object(
    doc: serde_json::Value,
    key: Seq<char>,
    index: int,
    field: Seq<char>,
    inner_key: Seq<char>,
    first_key: Seq<char>,
    first: u64,
    second_key: Seq<char>,
    second: u64,
    text_key: Seq<char>,
    text: Seq<char>,
) -> Option<serde_json::Value>;

/// Relies on serde_json::from_slice: `Some` exactly when the bytes are
/// UTF-8 text holding one well-formed JSON value; the outcome depends on
/// the bytes alone.
#[verifier::external_body]
pub(crate) fn json_parse(bytes: &Vec<u8>) -> (r: Option<serde_json::Value>)
    ensures
        r == parsed_doc(bytes@),
{
    serde_json::from_slice(bytes.as_slice()).ok()
}

/// Relies on serde_json::Value's Display impl: the document serialized back
/// to compact JSON text, a function of the document alone.
#[verifier::external_body]
pub(crate) fn json_serialize(doc: &serde_json::Value) -> (r: Vec<u8>)
    ensures
        r@ == serialized_json(*doc),
{
    doc.to_string().into_bytes()
}

/// Relies on serde_json::Value::{get, as_array}.
#[verifier::external_body]
pub(crate) fn json_array_len(doc: &serde_json::Value, key: &str) -> (r: Option<usize>)
    ensures
        r == doc_array_len(*doc, key@),
{
    Some(doc.get(key)?.as_array()?.len())
}

/// Relies on serde_json::Value::{get, as_u64}; array indexing out of bounds
/// yields `None`, never a panic.
#[verifier::external_body]
pub(crate) fn json_elem_u64(
    doc: &serde_json::Value,
    key: &str,
    index: usize,
    field: &str,
) -> (r: Option<u64>)
    ensures
        r == doc_elem_u64(*doc, key@, index as int, field@),
{
    doc.get(key)?.get(index)?.get(field)?.as_u64()
}

/// Relies on serde_json::Value::{get, as_str}.
#[verifier::external_body]
pub(crate) fn json_elem_str(
    doc: &serde_json::Value,
    key: &str,
    index: usize,
    field: &str,
) -> (r: Option<String>)
    ensures
        match r {
            Some(s) => doc_elem_str(*doc, key@, index as int, field@) == Some(s@),
            None => doc_elem_str(*doc, key@, index as int, field@) is None,
        },
{
    Some(doc.get(key)?.get(index)?.get(field)?.as_str()?.to_string())
}

/// Relies on serde_json::Value::get.
#[verifier::external_body]
pub(crate) fn json_elem_has_field(
    doc: &serde_json::Value,
    key: &str,
    index: usize,
    field: &str,
) -> (r: bool)
    ensures
        r == doc_elem_has_field(*doc, key@, index as int, field@),
{
    doc.get(key).and_then(|a| a.get(index)).and_then(|v| v.get(field)).is_some()
}

/// Relies on serde_json::Value::{get_mut, as_object_mut} and
/// serde_json::Map::insert: store the number `x` under `field` of the
/// `index`-th element of the array under `key`. Where that element is
/// absent or not an object, nothing is written and `false` comes back.
#[verifier::external_body]
pub(crate) fn json_set_elem_u64(
    doc: &mut serde_json::Value,
    key: &str,
    index: usize,
    field: &str,
    x: u64,
) -> (r: bool)
    ensures
        match with_elem_u64(*old(doc), key@, index as int, field@, x) {
            Some(d) => r && *final(doc) == d,
            None => !r && *final(doc) == *old(doc),
        },
{
    match doc.get_mut(key).and_then(|a| a.get_mut(index)).and_then(|v| v.as_object_mut()) {
        Some(obj) => {
            obj.insert(field.to_string(), serde_json::Value::from(x));
            true
        },
        None => false,
    }
}

/// Relies on serde_json::Value::{get_mut, as_object_mut} and
/// serde_json::Map::insert: store the string `s` under `field` of the
/// `index`-th element of the array under `key`.
#[verifier::external_body]
pub(crate) fn json_set_elem_str(
    doc: &mut serde_json::Value,
    key: &str,
    index: usize,
    field: &str,
    s: &str,
) -> (r: bool)
    ensures
        match with_elem_str(*old(doc), key@, index as int, field@, s@) {
            Some(d) => r && *final(doc) == d,
            None => !r && *final(doc) == *old(doc),
        },
{
    match doc.get_mut(key).and_then(|a| a.get_mut(index)).and_then(|v| v.as_object_mut()) {
        Some(obj) => {
            obj.insert(field.to_string(), serde_json::Value::String(s.to_string()));
            true
        },
        None => false,
    }
}

/// Relies on serde_json::Value::as_object_mut and serde_json::Map::insert:
/// store a one-element string array under the top-level `key`.
#[verifier::external_body]
pub(crate) fn json_set_string_singleton(
    doc: &mut serde_json::Value,
    key: &str,
    item: &str,
) -> (r: bool)
    ensures
        match with_string_singleton(*old(doc), key@, item@) {
            Some(d) => r && *final(doc) == d,
            None => !r && *final(doc) == *old(doc),
        },
{
    match doc.as_object_mut() {
        Some(obj) => {
            let list = vec![serde_json::Value::String(item.to_string())];
            obj.insert(key.to_string(), serde_json::Value::Array(list));
            true
        },
        None => false,
    }
}

/// Relies on serde_json::Value::{get_mut, as_object_mut},
/// serde_json::Map::{new, insert}: store, under `field` of the `index`-th
/// element of the array under `key`, an object holding the single member
/// `inner_key`, itself an object carrying the two numeric members and the
/// one string member given by the remaining pairs.
#[verifier::external_body]
pub(crate) fn json_set_elem_nested_object(
    doc: &mut serde_json::Value,
    key: &str,
    index: usize,
    field: &str,
    inner_key: &str,
    first_key: &str,
    first: u64,
    second_key: &str,
    second: u64,
    text_key: &str,
    text: &str,
) -> (r: bool)
    ensures
        match with_elem_nested_object(
            *old(doc),
            key@,
            index as int,
            field@,
            inner_key@,
            first_key@,
            first,
            second_key@,
            second,
            text_key@,
            text@,
        ) {
            Some(d) => r && *final(doc) == d,
            None => !r && *final(doc) == *old(doc),
        },
{
    let mut inner = serde_json::Map::new();
    inner.insert(first_key.to_string(), serde_json::Value::from(first));
    inner.insert(second_key.to_string(), serde_json::Value::from(second));
    inner.insert(text_key.to_string(), serde_json::Value::String(text.to_string()));
    let mut outer = serde_json::Map::new();
    outer.insert(inner_key.to_string(), serde_json::Value::Object(inner));
    match doc.get_mut(key).and_then(|a| a.get_mut(index)).and_then(|v| v.as_object_mut()) {
        Some(obj) => {
            obj.insert(field.to_string(), serde_json::Value::Object(outer));
            true
        },
        None => false,
    }
}

/// The `i`-th buffer entry has the shape the schema asks for: a
/// `byteLength` that is an unsigned integer fitting 32 bits.
pub open spec fn buffer_entry_ok(doc: serde_json::Value, i: int) -> bool {
    doc_elem_u64(doc, "buffers"@, i, "byteLength"@) matches Some(x) && x <= u32::MAX
}

/// The `v`-th buffer-view entry has the shape the schema asks for:
/// `buffer` and `byteLength` present as 32-bit unsigned integers, and
/// `byteOffset`, where present at all, one too (it defaults to zero).
pub open spec fn view_entry_ok(doc: serde_json::Value, v: int) -> bool {
    &&& doc_elem_u64(doc, "bufferViews"@, v, "buffer"@) matches Some(x) && x <= u32::MAX
    &&& doc_elem_u64(doc, "bufferViews"@, v, "byteLength"@) matches Some(x) && x <= u32::MAX
    &&& doc_elem_has_field(doc, "bufferViews"@, v, "byteOffset"@) ==> (doc_elem_u64(
        doc,
        "bufferViews"@,
        v,
        "byteOffset"@,
    ) matches Some(x) && x <= u32::MAX)
}

/// The `j`-th image entry has the shape the schema asks for: a 32-bit
/// `bufferView` index and a string `mimeType`.
pub open spec fn image_entry_ok(doc: serde_json::Value, j: int) -> bool {
    &&& doc_elem_u64(doc, "images"@, j, "bufferView"@) matches Some(x) && x <= u32::MAX
    &&& doc_elem_str(doc, "images"@, j, "mimeType"@) is Some
}

/// The document carries the three arrays this rewriter consumes, every
/// entry in the shape the schema asks for.
pub open spec fn schema_ok(doc: serde_json::Value) -> bool {
    &&& doc_array_len(doc, "buffers"@) matches Some(n) && forall|i: int|
        0 <= i < n ==> #[trigger] buffer_entry_ok(doc, i)
    &&& doc_array_len(doc, "bufferViews"@) matches Some(n) && forall|v: int|
        0 <= v < n ==> #[trigger] view_entry_ok(doc, v)
    &&& doc_array_len(doc, "images"@) matches Some(n) && forall|j: int|
        0 <= j < n ==> #[trigger] image_entry_ok(doc, j)
}

/// The extracted model agrees, entry by entry and field by field, with
/// what the document holds.
pub open spec fn models_doc(g: Gltf, doc: serde_json::Value) -> bool {
    &&& doc_array_len(doc, "buffers"@) matches Some(n) && n == g.buffers@.len()
    &&& forall|i: int|
        0 <= i < g.buffers@.len() ==> doc_elem_u64(doc, "buffers"@, i, "byteLength"@) == Some(
            (#[trigger] g.buffers@[i]).length as u64,
        )
    &&& doc_array_len(doc, "bufferViews"@) matches Some(n) && n == g.buffer_views@.len()
    &&& forall|v: int|
        0 <= v < g.buffer_views@.len() ==> {
            let bv = #[trigger] g.buffer_views@[v];
            &&& doc_elem_u64(doc, "bufferViews"@, v, "buffer"@) == Some(bv.buffer as u64)
            &&& doc_elem_u64(doc, "bufferViews"@, v, "byteLength"@) == Some(bv.length as u64)
            &&& if doc_elem_has_field(doc, "bufferViews"@, v, "byteOffset"@) {
                doc_elem_u64(doc, "bufferViews"@, v, "byteOffset"@) == Some(bv.offset as u64)
            } else {
                bv.offset == 0
            }
        }
    &&& doc_array_len(doc, "images"@) matches Some(n) && n == g.images@.len()
    &&& forall|j: int|
        0 <= j < g.images@.len() ==> {
            let im = #[trigger] g.images@[j];
            &&& doc_elem_u64(doc, "images"@, j, "bufferView"@) == Some(im.buffer_view_index as u64)
            &&& doc_elem_str(doc, "images"@, j, "mimeType"@) == Some(im.mime_type@)
        }
}

/// How many buffer views the document declares (meaningful under
/// `schema_ok`).
pub open spec fn doc_view_count(doc: serde_json::Value) -> int {
    doc_array_len(doc, "bufferViews"@).unwrap() as int
}

/// How many images the document declares (meaningful under `schema_ok`).
pub open spec fn doc_image_count(doc: serde_json::Value) -> int {
    doc_array_len(doc, "images"@).unwrap() as int
}

/// The `v`-th buffer view's offset as declared, with an absent `byteOffset`
/// defaulting to zero.
pub open spec fn doc_view_offset(doc: serde_json::Value, v: int) -> int {
    if doc_elem_has_field(doc, "bufferViews"@, v, "byteOffset"@) {
        doc_elem_u64(doc, "bufferViews"@, v, "byteOffset"@).unwrap() as int
    } else {
        0
    }
}

/// The `v`-th buffer view's declared length.
pub open spec fn doc_view_length(doc: serde_json::Value, v: int) -> int {
    doc_elem_u64(doc, "bufferViews"@, v, "byteLength"@).unwrap() as int
}

/// Every image of the document names an existing buffer view.
pub open spec fn doc_images_in_range(doc: serde_json::Value) -> bool {
    forall|j: int|
        0 <= j < doc_image_count(doc) ==> (#[trigger] doc_elem_u64(
            doc,
            "images"@,
            j,
            "bufferView"@,
        )).unwrap() < doc_view_count(doc)
}

/// Every buffer view of the document lies inside a payload of the given
/// length.
pub open spec fn doc_views_in_range(doc: serde_json::Value, payload_len: int) -> bool {
    forall|v: int|
        0 <= v < doc_view_count(doc) ==> #[trigger] doc_view_offset(doc, v) + doc_view_length(
            doc,
            v,
        ) <= payload_len
}

/// Read the buffers, buffer views and images out of the JSON tree into the
/// typed model. It succeeds exactly on documents whose shape the schema
/// asks for, and the model it returns agrees with the document entry by
/// entry; any mismatch is `MalformedDocument`.
pub fn extract_document(doc: &serde_json::Value) -> (r: Result<Gltf, GlbError>)
    ensures
        r is Ok <==> schema_ok(*doc),
        r matches Err(e) ==> e == GlbError::MalformedDocument,
        r matches Ok(g) ==> models_doc(g, *doc),
{
    let buffer_count = match json_array_len(doc, "buffers") {
        Some(n) => n,
        None => {
            return Err(GlbError::MalformedDocument);
        },
    };
    let mut buffers: Vec<Buffer> = Vec::new();
    let mut i: usize = 0;
    while i < buffer_count
        invariant
            i <= buffer_count,
            doc_array_len(*doc, "buffers"@) == Some(buffer_count),
            buffers@.len() == i,
            forall|k: int| 0 <= k < i ==> #[trigger] buffer_entry_ok(*doc, k),
            forall|k: int|
                0 <= k < i ==> doc_elem_u64(*doc, "buffers"@, k, "byteLength"@) == Some(
                    (#[trigger] buffers@[k]).length as u64,
                ),
        decreases buffer_count - i,
    {
        let length = match json_elem_u64(doc, "buffers", i, "byteLength") {
            Some(x) => x,
            None => {
                assert(!buffer_entry_ok(*doc, i as int));
                return Err(GlbError::MalformedDocument);
            },
        };
        if length > u32::MAX as u64 {
            assert(!buffer_entry_ok(*doc, i as int));
            return Err(GlbError::MalformedDocument);
        }
        buffers.push(Buffer { length: length as u32 });
        i = i + 1;
    }

    let view_count = match json_array_len(doc, "bufferViews") {
        Some(n) => n,
        None => {
            return Err(GlbError::MalformedDocument);
        },
    };
    let mut buffer_views: Vec<BufferView> = Vec::new();
    let mut v: usize = 0;
    while v < view_count
        invariant
            v <= view_count,
            doc_array_len(*doc, "buffers"@) == Some(buffer_count),
            buffers@.len() == buffer_count,
            forall|k: int| 0 <= k < buffer_count ==> #[trigger] buffer_entry_ok(*doc, k),
            forall|k: int|
                0 <= k < buffer_count ==> doc_elem_u64(*doc, "buffers"@, k, "byteLength"@)
                    == Some((#[trigger] buffers@[k]).length as u64),
            doc_array_len(*doc, "bufferViews"@) == Some(view_count),
            buffer_views@.len() == v,
            forall|k: int| 0 <= k < v ==> #[trigger] view_entry_ok(*doc, k),
            forall|k: int|
                0 <= k < v ==> {
                    let bv = #[trigger] buffer_views@[k];
                    &&& doc_elem_u64(*doc, "bufferViews"@, k, "buffer"@) == Some(bv.buffer as u64)
                    &&& doc_elem_u64(*doc, "bufferViews"@, k, "byteLength"@) == Some(
                        bv.length as u64,
                    )
                    &&& if doc_elem_has_field(*doc, "bufferViews"@, k, "byteOffset"@) {
                        doc_elem_u64(*doc, "bufferViews"@, k, "byteOffset"@) == Some(
                            bv.offset as u64,
                        )
                    } else {
                        bv.offset == 0
                    }
                },
        decreases view_count - v,
    {
        let buffer = match json_elem_u64(doc, "bufferViews", v, "buffer") {
            Some(x) => x,
            None => {
                assert(!view_entry_ok(*doc, v as int));
                return Err(GlbError::MalformedDocument);
            },
        };
        let length = match json_elem_u64(doc, "bufferViews", v, "byteLength") {
            Some(x) => x,
            None => {
                assert(!view_entry_ok(*doc, v as int));
                return Err(GlbError::MalformedDocument);
            },
        };
        let offset = if json_elem_has_field(doc, "bufferViews", v, "byteOffset") {
            match json_elem_u64(doc, "bufferViews", v, "byteOffset") {
                Some(x) => x,
                None => {
                    assert(!view_entry_ok(*doc, v as int));
                    return Err(GlbError::MalformedDocument);
                },
            }
        } else {
            0
        };
        if buffer > u32::MAX as u64 || length > u32::MAX as u64 || offset > u32::MAX as u64 {
            assert(!view_entry_ok(*doc, v as int));
            return Err(GlbError::MalformedDocument);
        }
        buffer_views.push(
            BufferView { buffer: buffer as u32, offset: offset as u32, length: length as u32 },
        );
        v = v + 1;
    }

    let image_count = match json_array_len(doc, "images") {
        Some(n) => n,
        None => {
            return Err(GlbError::MalformedDocument);
        },
    };
    let mut images: Vec<Image> = Vec::new();
    let mut j: usize = 0;
    while j < image_count
        invariant
            j <= image_count,
            doc_array_len(*doc, "buffers"@) == Some(buffer_count),
            buffers@.len() == buffer_count,
            forall|k: int| 0 <= k < buffer_count ==> #[trigger] buffer_entry_ok(*doc, k),
            forall|k: int|
                0 <= k < buffer_count ==> doc_elem_u64(*doc, "buffers"@, k, "byteLength"@)
                    == Some((#[trigger] buffers@[k]).length as u64),
            doc_array_len(*doc, "bufferViews"@) == Some(view_count),
            buffer_views@.len() == view_count,
            forall|k: int| 0 <= k < view_count ==> #[trigger] view_entry_ok(*doc, k),
            forall|k: int|
                0 <= k < view_count ==> {
                    let bv = #[trigger] buffer_views@[k];
                    &&& doc_elem_u64(*doc, "bufferViews"@, k, "buffer"@) == Some(bv.buffer as u64)
                    &&& doc_elem_u64(*doc, "bufferViews"@, k, "byteLength"@) == Some(
                        bv.length as u64,
                    )
                    &&& if doc_elem_has_field(*doc, "bufferViews"@, k, "byteOffset"@) {
                        doc_elem_u64(*doc, "bufferViews"@, k, "byteOffset"@) == Some(
                            bv.offset as u64,
                        )
                    } else {
                        bv.offset == 0
                    }
                },
            doc_array_len(*doc, "images"@) == Some(image_count),
            images@.len() == j,
            forall|k: int| 0 <= k < j ==> #[trigger] image_entry_ok(*doc, k),
            forall|k: int|
                0 <= k < j ==> {
                    let im = #[trigger] images@[k];
                    &&& doc_elem_u64(*doc, "images"@, k, "bufferView"@) == Some(
                        im.buffer_view_index as u64,
                    )
                    &&& doc_elem_str(*doc, "images"@, k, "mimeType"@) == Some(im.mime_type@)
                },
        decreases image_count - j,
    {
        let buffer_view_index = match json_elem_u64(doc, "images", j, "bufferView") {
            Some(x) => x,
            None => {
                assert(!image_entry_ok(*doc, j as int));
                return Err(GlbError::MalformedDocument);
            },
        };
        if buffer_view_index > u32::MAX as u64 {
            assert(!image_entry_ok(*doc, j as int));
            return Err(GlbError::MalformedDocument);
        }
        let mime_type = match json_elem_str(doc, "images", j, "mimeType") {
            Some(s) => s,
            None => {
                assert(!image_entry_ok(*doc, j as int));
                return Err(GlbError::MalformedDocument);
            },
        };
        images.push(Image { buffer_view_index: buffer_view_index as u32, mime_type });
        j = j + 1;
    }

    Ok(Gltf { images, buffer_views, buffers })
}

/// The document after the first `count` view patches have been written:
/// each stores its new offset under the entry's `byteOffset` and, where
/// present, its new length under `byteLength`.
pub open spec fn view_patches_applied(
    doc: serde_json::Value,
    entries: Seq<(usize, Option<usize>)>,
    count: int,
) -> Option<serde_json::Value>
    decreases count,
{
    if count <= 0 {
        Some(doc)
    } else {
        match view_patches_applied(doc, entries, count - 1) {
            Some(d) => match with_elem_u64(
                d,
                "bufferViews"@,
                count - 1,
                "byteOffset"@,
                entries[count - 1].0 as u64,
            ) {
                Some(d2) => match entries[count - 1].1 {
                    Some(l) => with_elem_u64(d2, "bufferViews"@, count - 1, "byteLength"@, l as u64),
                    None => Some(d2),
                },
                None => None,
            },
            None => None,
        }
    }
}

/// The document after the first `count` image patches have been written:
/// each patched image gains its new MIME type and its vendor extension
/// block (extension name, width, height, format name).
pub open spec fn image_patches_applied(
    doc: serde_json::Value,
    entries: Seq<Option<(Seq<char>, Seq<char>, u32, u32, Seq<char>)>>,
    count: int,
) -> Option<serde_json::Value>
    decreases count,
{
    if count <= 0 {
        Some(doc)
    } else {
        match image_patches_applied(doc, entries, count - 1) {
            Some(d) => match entries[count - 1] {
                Some(e) => match with_elem_str(d, "images"@, count - 1, "mimeType"@, e.0) {
                    Some(d2) => with_elem_nested_object(
                        d2,
                        "images"@,
                        count - 1,
                        "extensions"@,
                        e.1,
                        "width"@,
                        e.2 as u64,
                        "height"@,
                        e.3 as u64,
                        "format"@,
                        e.4,
                    ),
                    None => None,
                },
                None => Some(d),
            },
            None => None,
        }
    }
}

/// The view patches as plain values: new offset and optional new length.
pub open spec fn patch_view_entries(patch: DocumentPatch) -> Seq<(usize, Option<usize>)> {
    patch.views@.map_values(|e: ViewPatch| (e.new_offset, e.new_length))
}

/// The image patches as plain values: MIME type, extension name, width,
/// height and format name.
pub open spec fn patch_image_entries(patch: DocumentPatch) -> Seq<
    Option<(Seq<char>, Seq<char>, u32, u32, Seq<char>)>,
> {
    patch.images@.map_values(
        |e: Option<ImagePatch>|
            match e {
                Some(ip) => Some((ip.mime_type@, ip.extension@, ip.width, ip.height, ip.format@)),
                None => None,
            },
    )
}

/// The document after the whole patch has been written: every view patch in
/// index order, every image patch in index order, then the two
/// extension-usage lists, each a one-element string array.
pub open spec fn patch_applied(doc: serde_json::Value, patch: DocumentPatch) -> Option<
    serde_json::Value,
> {
    match view_patches_applied(doc, patch_view_entries(patch), patch.views@.len() as int) {
        Some(d) => match image_patches_applied(
            d,
            patch_image_entries(patch),
            patch.images@.len() as int,
        ) {
            Some(d2) => match with_string_singleton(
                d2,
                "extensionsUsed"@,
                patch.extensions_used@[0]@,
            ) {
                Some(d3) => with_string_singleton(
                    d3,
                    "extensionsRequired"@,
                    patch.extensions_required@[0]@,
                ),
                None => None,
            },
            None => None,
        },
        None => None,
    }
}

proof fn lemma_view_fold_none(
    doc: serde_json::Value,
    entries: Seq<(usize, Option<usize>)>,
    a: int,
    b: int,
)
    requires
        0 <= a <= b,
        view_patches_applied(doc, entries, a) is None,
    ensures
        view_patches_applied(doc, entries, b) is None,
    decreases b - a,
{
    if a < b {
        lemma_view_fold_none(doc, entries, a, b - 1);
    }
}

proof fn lemma_image_fold_none(
    doc: serde_json::Value,
    entries: Seq<Option<(Seq<char>, Seq<char>, u32, u32, Seq<char>)>>,
    a: int,
    b: int,
)
    requires
        0 <= a <= b,
        image_patches_applied(doc, entries, a) is None,
    ensures
        image_patches_applied(doc, entries, b) is None,
    decreases b - a,
{
    if a < b {
        lemma_image_fold_none(doc, entries, a, b - 1);
    }
}

/// Write the patch back into the JSON tree, in the order `patch_applied`
/// describes. It succeeds exactly where every write finds its entry, and
/// the final document is then exactly the patched one; a write can only
/// fail where the tree no longer holds the entry the model was extracted
/// from, reported as `MalformedDocument`.
pub fn apply_patch(doc: &mut serde_json::Value, patch: &DocumentPatch) -> (r: Result<
    (),
    GlbError,
>)
    requires
        patch.extensions_used@.len() == 1,
        patch.extensions_required@.len() == 1,
    ensures
        r is Ok <==> patch_applied(*old(doc), *patch) is Some,
        r is Ok ==> Some(*final(doc)) == patch_applied(*old(doc), *patch),
        r matches Err(e) ==> e == GlbError::MalformedDocument,
{
    let ghost d0 = *old(doc);
    let ghost view_entries = patch_view_entries(*patch);
    let ghost image_entries = patch_image_entries(*patch);
    let view_total = patch.views.len();
    let mut v: usize = 0;
    while v < view_total
        invariant
            v <= view_total,
            view_total == patch.views@.len(),
            d0 == *old(doc),
            view_entries == patch_view_entries(*patch),
            image_entries == patch_image_entries(*patch),
            patch.extensions_used@.len() == 1,
            patch.extensions_required@.len() == 1,
            view_patches_applied(d0, view_entries, v as int) == Some(*doc),
        decreases view_total - v,
    {
        let offset = patch.views[v].new_offset;
        if !json_set_elem_u64(doc, "bufferViews", v, "byteOffset", offset as u64) {
            proof {
                assert(view_patches_applied(d0, view_entries, v as int + 1) is None);
                lemma_view_fold_none(d0, view_entries, v as int + 1, view_total as int);
                assert(patch_applied(*old(doc), *patch) is None);
            }
            return Err(GlbError::MalformedDocument);
        }
        match patch.views[v].new_length {
            Some(length) => {
                if !json_set_elem_u64(doc, "bufferViews", v, "byteLength", length as u64) {
                    proof {
                        assert(view_patches_applied(d0, view_entries, v as int + 1) is None);
                        lemma_view_fold_none(d0, view_entries, v as int + 1, view_total as int);
                    }
                    return Err(GlbError::MalformedDocument);
                }
            },
            None => {},
        }
        v = v + 1;
        proof {
            assert(view_patches_applied(d0, view_entries, v as int) == Some(*doc));
        }
    }

    let ghost d1 = *doc;
    let image_total = patch.images.len();
    let mut i: usize = 0;
    while i < image_total
        invariant
            i <= image_total,
            image_total == patch.images@.len(),
            d0 == *old(doc),
            view_entries == patch_view_entries(*patch),
            image_entries == patch_image_entries(*patch),
            patch.extensions_used@.len() == 1,
            patch.extensions_required@.len() == 1,
            view_patches_applied(d0, view_entries, patch.views@.len() as int) == Some(d1),
            image_patches_applied(d1, image_entries, i as int) == Some(*doc),
        decreases image_total - i,
    {
        match &patch.images[i] {
            Some(image_patch) => {
                if !json_set_elem_str(doc, "images", i, "mimeType", image_patch.mime_type.as_str())
                {
                    proof {
                        assert(image_patches_applied(d1, image_entries, i as int + 1) is None);
                        lemma_image_fold_none(d1, image_entries, i as int + 1, image_total as int);
                        assert(patch_applied(*old(doc), *patch) is None);
                    }
                    return Err(GlbError::MalformedDocument);
                }
                if !json_set_elem_nested_object(
                    doc,
                    "images",
                    i,
                    "extensions",
                    image_patch.extension.as_str(),
                    "width",
                    image_patch.width as u64,
                    "height",
                    image_patch.height as u64,
                    "format",
                    image_patch.format.as_str(),
                ) {
                    proof {
                        assert(image_patches_applied(d1, image_entries, i as int + 1) is None);
                        lemma_image_fold_none(d1, image_entries, i as int + 1, image_total as int);
                        assert(patch_applied(*old(doc), *patch) is None);
                    }
                    return Err(GlbError::MalformedDocument);
                }
            },
            None => {},
        }
        i = i + 1;
        proof {
            assert(image_patches_applied(d1, image_entries, i as int) == Some(*doc));
        }
    }

    if !json_set_string_singleton(doc, "extensionsUsed", patch.extensions_used[0].as_str()) {
        proof {
            assert(patch_applied(*old(doc), *patch) is None);
        }
        return Err(GlbError::MalformedDocument);
    }
    if !json_set_string_singleton(
        doc,
        "extensionsRequired",
        patch.extensions_required[0].as_str(),
    ) {
        proof {
            assert(patch_applied(*old(doc), *patch) is None);
        }
        return Err(GlbError::MalformedDocument);
    }
    Ok(())
}

} // verus!
