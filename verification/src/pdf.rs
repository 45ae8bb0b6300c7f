//! PDF metadata stripping with the `lopdf` crate: the document information
//! dictionary, XMP metadata references and streams, and the standard info
//! fields of every dictionary are removed.

use vstd::prelude::*;
use vstd::string::*;
use lopdf::{Document, Object};
use crate::privacy::{push_label, MetadataError, StripResult, StrippedFile, saturating_diff, strings_view};
use crate::text::{joined, owned, same_bytes};

verus! {

#[verifier::external_type_specification]
#[verifier::external_body]
pub struct ExDocument(lopdf::Document);

/// The id of an indirect PDF object: object number and generation.
pub type ObjectId = (u32, u16);

/// The kinds of object the stripper treats differently.
#[derive(Debug, Clone, Copy, PartialEq, Eq, Structural)]
pub enum PdfObjectKind {
    Dictionary,
    Stream,
    Other,
}

/// What the stripper sees of a dictionary value.
pub enum PdfValue {
    Reference(ObjectId),
    Name(Seq<u8>),
    Other,
}

/// What the stripper sees of one object: its kind, the entries of its
/// dictionary (a stream's own dictionary; none for other objects) and the
/// length of a stream's content.
pub struct PdfObjectShape {
    pub kind: PdfObjectKind,
    pub entries: Map<Seq<u8>, PdfValue>,
    pub content_len: nat,
}

/// The objects of a document, by id.
pub uninterp spec fn pdf_objects(d: Document) -> Map<ObjectId, PdfObjectShape>;

/// The keys of a document's trailer dictionary.
pub uninterp spec fn pdf_trailer_keys(d: Document) -> Set<Seq<u8>>;

/// What `Document::load_mem` makes of `bytes`: the trailer keys and objects
/// of the document, or the text of its error.
pub uninterp spec fn pdf_load(bytes: Seq<u8>) -> Result<(Set<Seq<u8>>, Map<ObjectId, PdfObjectShape>), Seq<char>>;

/// Objects other than dictionaries and streams have no entries: the model
/// reads entries from a dictionary, or from a stream's own dictionary.
pub open spec fn shapes_wf(m: Map<ObjectId, PdfObjectShape>) -> bool {
    forall|id: ObjectId| #[trigger] m.dom().contains(id) && m[id].kind == PdfObjectKind::Other
        ==> m[id].entries.dom() =~= Set::<Seq<u8>>::empty()
}

/// What removing a dictionary entry gave back.
pub enum RemovedEntry {
    Absent,
    Reference(u32, u16),
    Present,
}

/// Loads a PDF document from memory (`Document::load_mem`, which
/// `Document::load` runs on a file's bytes). The crate is built without its
/// `rayon` feature, so the objects are read one after the other and the
/// outcome is a function of the bytes.
#[verifier::external_body]
fn pdf_load_document(bytes: &[u8]) -> (r: Result<Document, String>)
    ensures
        match (r, pdf_load(bytes@)) {
            (Ok(d), Ok((t, m))) => pdf_trailer_keys(d) == t && pdf_objects(d) == m && shapes_wf(m),
            (Err(e), Err(x)) => e@ == x,
            _ => false,
        },
{
    match Document::load_mem(bytes) {
        Ok(d) => Ok(d),
        Err(e) => Err(e.to_string()),
    }
}

/// Whether the trailer has the entry `key` (`Dictionary::has`).
#[verifier::external_body]
fn pdf_trailer_has(d: &Document, key: &[u8]) -> (r: bool)
    ensures
        r == pdf_trailer_keys(*d).contains(key@),
{
    d.trailer.has(key)
}

/// Whether object `id` has the entry `key` (`Dictionary::has`, on a
/// stream's own dictionary for a stream; other objects have no entries).
#[verifier::external_body]
fn pdf_has_entry(d: &Document, id: ObjectId, key: &[u8]) -> (r: bool)
    requires
        pdf_objects(*d).dom().contains(id),
    ensures
        r == pdf_objects(*d)[id].entries.contains_key(key@),
{
    match d.objects.get(&id) {
        Some(Object::Dictionary(dict)) => dict.has(key),
        Some(Object::Stream(stream)) => stream.dict.has(key),
        _ => false,
    }
}

/// The length of the content of stream `id` (`Vec::len`).
#[verifier::external_body]
fn pdf_stream_content_len(d: &Document, id: ObjectId) -> (r: usize)
    requires
        pdf_objects(*d).dom().contains(id),
        pdf_objects(*d)[id].kind == PdfObjectKind::Stream,
    ensures
        r == pdf_objects(*d)[id].content_len,
{
    match d.objects.get(&id) {
        Some(Object::Stream(stream)) => stream.content.len(),
        _ => 0,
    }
}

/// Removes `key` from the trailer (`Dictionary::remove`); tells whether it
/// was there.
#[verifier::external_body]
fn pdf_remove_trailer_entry(d: &mut Document, key: &[u8]) -> (r: bool)
    ensures
        r == pdf_trailer_keys(*old(d)).contains(key@),
        pdf_trailer_keys(*final(d)) == pdf_trailer_keys(*old(d)).remove(key@),
        pdf_objects(*final(d)) == pdf_objects(*old(d)),
{
    d.trailer.remove(key).is_some()
}

/// Whether `a` comes before `b` in the order of object ids.
pub open spec fn id_before(a: ObjectId, b: ObjectId) -> bool {
    a.0 < b.0 || (a.0 == b.0 && a.1 < b.1)
}

/// `ids` lists every id of `dom` once, in ascending order.
pub open spec fn enumerates(ids: Seq<ObjectId>, dom: Set<ObjectId>) -> bool {
    &&& forall|i: int, j: int| 0 <= i < j < ids.len() ==> id_before(ids[i], ids[j])
    &&& forall|i: int| 0 <= i < ids.len() ==> dom.contains(#[trigger] ids[i])
    &&& forall|id: ObjectId| dom.contains(id) ==> ids.contains(id)
}

/// The ids of the document's objects, in the ascending order in which its
/// `BTreeMap` of objects yields its keys.
#[verifier::external_body]
fn pdf_object_ids(d: &Document) -> (r: Vec<ObjectId>)
    ensures
        enumerates(r@, pdf_objects(*d).dom()),
{
    d.objects.keys().copied().collect()
}

/// Whether object `id` is a dictionary, a stream or something else.
#[verifier::external_body]
fn pdf_object_kind(d: &Document, id: ObjectId) -> (r: PdfObjectKind)
    requires
        pdf_objects(*d).dom().contains(id),
    ensures
        r == pdf_objects(*d)[id].kind,
{
    match d.objects.get(&id) {
        Some(Object::Dictionary(_)) => PdfObjectKind::Dictionary,
        Some(Object::Stream(_)) => PdfObjectKind::Stream,
        _ => PdfObjectKind::Other,
    }
}

/// Removes `key` from the dictionary of object `id` (`Dictionary::remove`,
/// on a stream's own dictionary for a stream) and tells what was there.
#[verifier::external_body]
fn pdf_remove_entry(d: &mut Document, id: ObjectId, key: &[u8]) -> (r: RemovedEntry)
    requires
        pdf_objects(*old(d)).dom().contains(id),
    ensures
        ({
            let sh = pdf_objects(*old(d))[id];
            &&& match r {
                RemovedEntry::Absent => !sh.entries.contains_key(key@),
                RemovedEntry::Reference(a, b) => sh.entries.get(key@) == Some(PdfValue::Reference((a, b))),
                RemovedEntry::Present => sh.entries.contains_key(key@) && !(sh.entries[key@] is Reference),
            }
            &&& pdf_objects(*final(d)) == pdf_objects(*old(d)).insert(
                id,
                PdfObjectShape { entries: sh.entries.remove(key@), ..sh },
            )
        }),
        pdf_trailer_keys(*final(d)) == pdf_trailer_keys(*old(d)),
{
    let dict = match d.objects.get_mut(&id) {
        Some(Object::Dictionary(dict)) => dict,
        Some(Object::Stream(stream)) => &mut stream.dict,
        _ => return RemovedEntry::Absent,
    };
    match dict.remove(key) {
        None => RemovedEntry::Absent,
        Some(Object::Reference(r)) => RemovedEntry::Reference(r.0, r.1),
        Some(_) => RemovedEntry::Present,
    }
}

/// The name that entry `key` of stream `id` holds, if it holds a name.
#[verifier::external_body]
fn pdf_stream_name_entry(d: &Document, id: ObjectId, key: &[u8]) -> (r: Option<Vec<u8>>)
    requires
        pdf_objects(*d).dom().contains(id),
        pdf_objects(*d)[id].kind == PdfObjectKind::Stream,
    ensures
        match r {
            Some(n) => pdf_objects(*d)[id].entries.get(key@) == Some(PdfValue::Name(n@)),
            None => !(pdf_objects(*d)[id].entries.get(key@) matches Some(PdfValue::Name(_))),
        },
{
    match d.objects.get(&id) {
        Some(Object::Stream(stream)) => match stream.dict.get(key) {
            Ok(Object::Name(n)) => Some(n.clone()),
            _ => None,
        },
        _ => None,
    }
}

/// Empties the content of stream `id` (`Vec::clear`).
#[verifier::external_body]
fn pdf_clear_stream(d: &mut Document, id: ObjectId)
    requires
        pdf_objects(*old(d)).dom().contains(id),
        pdf_objects(*old(d))[id].kind == PdfObjectKind::Stream,
    ensures
        pdf_objects(*final(d)) == pdf_objects(*old(d)).insert(
            id,
            PdfObjectShape { content_len: 0, ..pdf_objects(*old(d))[id] },
        ),
        pdf_trailer_keys(*final(d)) == pdf_trailer_keys(*old(d)),
{
    if let Some(Object::Stream(stream)) = d.objects.get_mut(&id) {
        stream.content.clear();
    }
}

/// Sets entry `key` of stream `id` to the integer `value` (`Dictionary::set`).
#[verifier::external_body]
fn pdf_set_integer_entry(d: &mut Document, id: ObjectId, key: &[u8], value: i64)
    requires
        pdf_objects(*old(d)).dom().contains(id),
        pdf_objects(*old(d))[id].kind == PdfObjectKind::Stream,
    ensures
        ({
            let sh = pdf_objects(*old(d))[id];
            pdf_objects(*final(d)) == pdf_objects(*old(d)).insert(
                id,
                PdfObjectShape { entries: sh.entries.insert(key@, PdfValue::Other), ..sh },
            )
        }),
        pdf_trailer_keys(*final(d)) == pdf_trailer_keys(*old(d)),
{
    if let Some(Object::Stream(stream)) = d.objects.get_mut(&id) {
        stream.dict.set(key.to_vec(), value);
    }
}

/// Removes object `id` (`BTreeMap::remove`); tells whether it was there.
#[verifier::external_body]
fn pdf_remove_object(d: &mut Document, id: ObjectId) -> (r: bool)
    ensures
        r == pdf_objects(*old(d)).dom().contains(id),
        pdf_objects(*final(d)) == pdf_objects(*old(d)).remove(id),
        pdf_trailer_keys(*final(d)) == pdf_trailer_keys(*old(d)),
{
    d.objects.remove(&id).is_some()
}

/// Compresses the document's streams (`Document::compress`). As its source
/// shows, a compressed stream gains only the `Filter` and `Length` entries,
/// an empty stream is left alone, and nothing else changes.
#[verifier::external_body]
fn pdf_compress(d: &mut Document)
    ensures
        pdf_trailer_keys(*final(d)) == pdf_trailer_keys(*old(d)),
        compressed_from(pdf_objects(*final(d)), pdf_objects(*old(d))),
{
    d.compress();
}

/// What `Document::save_to` writes into memory for the document `d`: the
/// bytes, or the text of its error. The writer is deterministic: it walks
/// the objects in id order and each dictionary in its own order, so this is a
/// function of the document.
pub uninterp spec fn pdf_saved(d: Document) -> Result<Seq<u8>, Seq<char>>;

/// Serializes the document (`Document::save_to` into memory). Claims only
/// that the outcome is the one named for the document as it was before the
/// call. Nothing is claimed of what the bytes load back to: the writer does
/// not simply round-trip the model (it drops object and cross-reference
/// streams, which it regenerates, adds `Size` to the trailer, and fails for a
/// document that asks for a cross-reference stream when no object number is
/// left); `finish_pdf_strip` loads the bytes again and checks them.
#[verifier::external_body]
fn pdf_save(d: &mut Document) -> (r: Result<Vec<u8>, String>)
    ensures
        (match r {
            Ok(b) => Ok(b@),
            Err(e) => Err(e@),
        }) == pdf_saved(*old(d)),
{
    let mut out: Vec<u8> = Vec::new();
    match d.save_to(&mut out) {
        Ok(()) => Ok(out),
        Err(e) => Err(e.to_string()),
    }
}

/// `Filter`, which compression adds.
pub open spec fn filter_key() -> Seq<u8> {
    seq![0x46u8, 0x69u8, 0x6cu8, 0x74u8, 0x65u8, 0x72u8]
}

/// `Length`, which compression and stream clearing set.
pub open spec fn length_key() -> Seq<u8> {
    seq![0x4cu8, 0x65u8, 0x6eu8, 0x67u8, 0x74u8, 0x68u8]
}

/// `Metadata`: the key of XMP metadata references, and the `/Type` name of
/// XMP metadata streams.
pub open spec fn metadata_key() -> Seq<u8> {
    seq![0x4du8, 0x65u8, 0x74u8, 0x61u8, 0x64u8, 0x61u8, 0x74u8, 0x61u8]
}

/// `Info`, the trailer entry of the document information dictionary.
pub open spec fn info_key() -> Seq<u8> {
    seq![0x49u8, 0x6eu8, 0x66u8, 0x6fu8]
}

/// `Type`.
pub open spec fn type_key() -> Seq<u8> {
    seq![0x54u8, 0x79u8, 0x70u8, 0x65u8]
}

/// The information fields removed from every dictionary, as bytes.
pub open spec fn pdf_info_keys() -> Seq<Seq<u8>> {
    seq![
        seq![0x41u8, 0x75u8, 0x74u8, 0x68u8, 0x6fu8, 0x72u8],
        seq![0x43u8, 0x72u8, 0x65u8, 0x61u8, 0x74u8, 0x6fu8, 0x72u8],
        seq![0x50u8, 0x72u8, 0x6fu8, 0x64u8, 0x75u8, 0x63u8, 0x65u8, 0x72u8],
        seq![0x43u8, 0x72u8, 0x65u8, 0x61u8, 0x74u8, 0x69u8, 0x6fu8, 0x6eu8, 0x44u8, 0x61u8, 0x74u8, 0x65u8],
        seq![0x4du8, 0x6fu8, 0x64u8, 0x44u8, 0x61u8, 0x74u8, 0x65u8],
        seq![0x54u8, 0x69u8, 0x74u8, 0x6cu8, 0x65u8],
        seq![0x53u8, 0x75u8, 0x62u8, 0x6au8, 0x65u8, 0x63u8, 0x74u8],
        seq![0x4bu8, 0x65u8, 0x79u8, 0x77u8, 0x6fu8, 0x72u8, 0x64u8, 0x73u8],
    ]
}

/// The names of those fields.
pub open spec fn pdf_info_names() -> Seq<Seq<char>> {
    seq!["Author"@, "Creator"@, "Producer"@, "CreationDate"@, "ModDate"@, "Title"@, "Subject"@, "Keywords"@]
}

/// Every key that stripping removes from a dictionary.
pub open spec fn stripped_keys() -> Set<Seq<u8>> {
    Set::new(|k: Seq<u8>| k == metadata_key() || pdf_info_keys().contains(k))
}

/// The first `n` information fields.
pub open spec fn info_key_prefix(n: int) -> Set<Seq<u8>> {
    Set::new(|k: Seq<u8>| exists|t: int| 0 <= t < n && pdf_info_keys()[t] == k)
}

/// What stripping reports for the first `n` information fields of entries.
pub open spec fn info_labels(entries: Map<Seq<u8>, PdfValue>, n: int) -> Seq<Seq<char>>
    decreases n,
{
    if n <= 0 || n > 8 {
        seq![]
    } else {
        info_labels(entries, n - 1) + if entries.contains_key(pdf_info_keys()[n - 1]) {
            seq!["PDF "@ + pdf_info_names()[n - 1] + " field"@]
        } else {
            seq![]
        }
    }
}

/// A stream whose `/Type` is `/Metadata`: an XMP metadata stream.
pub open spec fn is_metadata_stream(sh: PdfObjectShape) -> bool {
    sh.kind == PdfObjectKind::Stream && sh.entries.get(type_key()) == Some(
        PdfValue::Name(metadata_key()),
    )
}

/// What stripping reports for one object.
pub open spec fn object_labels(sh: PdfObjectShape) -> Seq<Seq<char>> {
    match sh.kind {
        PdfObjectKind::Dictionary => (if sh.entries.contains_key(metadata_key()) {
            seq!["PDF XMP Metadata reference"@]
        } else {
            seq![]
        }) + info_labels(sh.entries, 8),
        PdfObjectKind::Stream => (if sh.entries.contains_key(metadata_key()) {
            seq!["PDF stream Metadata reference"@]
        } else {
            seq![]
        }) + (if is_metadata_stream(sh) {
            seq!["PDF XMP Metadata stream"@]
        } else {
            seq![]
        }) + info_labels(sh.entries, 8),
        PdfObjectKind::Other => seq![],
    }
}

/// One object after stripping: the metadata reference and information
/// fields are gone from dictionaries and streams, and an XMP metadata stream
/// is emptied with its `Length` set to 0.
pub open spec fn stripped_shape(sh: PdfObjectShape) -> PdfObjectShape {
    match sh.kind {
        PdfObjectKind::Dictionary => PdfObjectShape {
            entries: sh.entries.remove_keys(stripped_keys()),
            ..sh
        },
        PdfObjectKind::Stream => if is_metadata_stream(sh) {
            PdfObjectShape {
                entries: sh.entries.remove_keys(stripped_keys()).insert(length_key(), PdfValue::Other),
                content_len: 0,
                ..sh
            }
        } else {
            PdfObjectShape { entries: sh.entries.remove_keys(stripped_keys()), ..sh }
        },
        PdfObjectKind::Other => sh,
    }
}

/// The object a dictionary's XMP metadata reference points to.
pub open spec fn metadata_target(sh: PdfObjectShape) -> Option<ObjectId> {
    if sh.kind == PdfObjectKind::Dictionary {
        match sh.entries.get(metadata_key()) {
            Some(PdfValue::Reference(t)) => Some(t),
            _ => None,
        }
    } else {
        None
    }
}

/// What stripping reports for the objects `ids`, in order.
pub open spec fn objects_labels(ids: Seq<ObjectId>, m: Map<ObjectId, PdfObjectShape>) -> Seq<Seq<char>>
    decreases ids.len(),
{
    if ids.len() == 0 {
        seq![]
    } else {
        objects_labels(ids.drop_last(), m) + object_labels(m[ids.last()])
    }
}

/// The objects that the dictionaries among `ids` reference as XMP metadata,
/// in order.
pub open spec fn metadata_targets(ids: Seq<ObjectId>, m: Map<ObjectId, PdfObjectShape>) -> Seq<ObjectId>
    decreases ids.len(),
{
    if ids.len() == 0 {
        seq![]
    } else {
        metadata_targets(ids.drop_last(), m) + match metadata_target(m[ids.last()]) {
            Some(t) => seq![t],
            None => seq![],
        }
    }
}

/// What removing the referenced metadata objects `targets` reports, with the
/// objects `dom` still present.
pub open spec fn removal_labels(targets: Seq<ObjectId>, dom: Set<ObjectId>) -> Seq<Seq<char>>
    decreases targets.len(),
{
    if targets.len() == 0 {
        seq![]
    } else if dom.contains(targets[0]) {
        seq!["PDF referenced Metadata object"@] + removal_labels(targets.drop_first(), dom.remove(targets[0]))
    } else {
        removal_labels(targets.drop_first(), dom)
    }
}

/// Everything stripping reports for a document with trailer keys `t` and
/// objects `m`, whose ids in ascending order are `ids`.
pub open spec fn pdf_strip_labels(t: Set<Seq<u8>>, ids: Seq<ObjectId>, m: Map<ObjectId, PdfObjectShape>) -> Seq<Seq<char>> {
    (if t.contains(info_key()) {
        seq!["PDF trailer Info dictionary"@]
    } else {
        seq![]
    }) + objects_labels(ids, m) + removal_labels(metadata_targets(ids, m), m.dom())
}

/// The objects after stripping: each stripped, without the objects that
/// XMP metadata references pointed to.
pub open spec fn pdf_stripped_objects(ids: Seq<ObjectId>, m: Map<ObjectId, PdfObjectShape>) -> Map<ObjectId, PdfObjectShape> {
    Map::new(
        |id: ObjectId| m.dom().contains(id) && !metadata_targets(ids, m).contains(id),
        |id: ObjectId| stripped_shape(m[id]),
    )
}

/// `after` is what compressing the objects `before` may give: the same
/// objects of the same kinds, where a stream may gain only `Filter` and
/// `Length` and an empty stream stays empty.
pub open spec fn compressed_from(after: Map<ObjectId, PdfObjectShape>, before: Map<ObjectId, PdfObjectShape>) -> bool {
    &&& after.dom() == before.dom()
    &&& forall|id: ObjectId| #[trigger] before.dom().contains(id) ==> {
        let a = after[id];
        let b = before[id];
        &&& a.kind == b.kind
        &&& forall|k: Seq<u8>| k != filter_key() && k != length_key() ==> a.entries.get(k)
            == #[trigger] b.entries.get(k)
        &&& (b.content_len == 0 ==> a.content_len == 0)
    }
}

fn info_key_at(j: usize) -> (r: (Vec<u8>, &'static str))
    requires
        j < 8,
    ensures
        r.0@ == pdf_info_keys()[j as int],
        r.1@ == pdf_info_names()[j as int],
{
    if j == 0 {
        let v = vec![0x41u8, 0x75u8, 0x74u8, 0x68u8, 0x6fu8, 0x72u8];
        assert(v@ == pdf_info_keys()[0]);
        (v, "Author")
    } else if j == 1 {
        let v = vec![0x43u8, 0x72u8, 0x65u8, 0x61u8, 0x74u8, 0x6fu8, 0x72u8];
        assert(v@ == pdf_info_keys()[1]);
        (v, "Creator")
    } else if j == 2 {
        let v = vec![0x50u8, 0x72u8, 0x6fu8, 0x64u8, 0x75u8, 0x63u8, 0x65u8, 0x72u8];
        assert(v@ == pdf_info_keys()[2]);
        (v, "Producer")
    } else if j == 3 {
        let v = vec![0x43u8, 0x72u8, 0x65u8, 0x61u8, 0x74u8, 0x69u8, 0x6fu8, 0x6eu8, 0x44u8, 0x61u8, 0x74u8, 0x65u8];
        assert(v@ == pdf_info_keys()[3]);
        (v, "CreationDate")
    } else if j == 4 {
        let v = vec![0x4du8, 0x6fu8, 0x64u8, 0x44u8, 0x61u8, 0x74u8, 0x65u8];
        assert(v@ == pdf_info_keys()[4]);
        (v, "ModDate")
    } else if j == 5 {
        let v = vec![0x54u8, 0x69u8, 0x74u8, 0x6cu8, 0x65u8];
        assert(v@ == pdf_info_keys()[5]);
        (v, "Title")
    } else if j == 6 {
        let v = vec![0x53u8, 0x75u8, 0x62u8, 0x6au8, 0x65u8, 0x63u8, 0x74u8];
        assert(v@ == pdf_info_keys()[6]);
        (v, "Subject")
    } else {
        let v = vec![0x4bu8, 0x65u8, 0x79u8, 0x77u8, 0x6fu8, 0x72u8, 0x64u8, 0x73u8];
        assert(v@ == pdf_info_keys()[7]);
        (v, "Keywords")
    }
}

fn metadata_key_bytes() -> (r: Vec<u8>)
    ensures
        r@ == metadata_key(),
{
    let v = vec![0x4du8, 0x65u8, 0x74u8, 0x61u8, 0x64u8, 0x61u8, 0x74u8, 0x61u8];
    assert(v@ == metadata_key());
    v
}

proof fn lemma_info_keys_distinct()
    ensures
        forall|i: int, j: int| 0 <= i < j < 8 ==> pdf_info_keys()[i] != pdf_info_keys()[j],
        forall|i: int| 0 <= i < 8 ==> pdf_info_keys()[i] != metadata_key(),
        forall|i: int| 0 <= i < 8 ==> pdf_info_keys()[i] != length_key(),
        metadata_key() != length_key(),
        metadata_key() != type_key(),
{
    let k = pdf_info_keys();
    assert(k[0].len() == 6 && k[1].len() == 7 && k[2].len() == 8 && k[3].len() == 12);
    assert(k[4].len() == 7 && k[5].len() == 5 && k[6].len() == 7 && k[7].len() == 8);
    assert(k[1][0] != k[4][0] && k[1][0] != k[6][0] && k[4][0] != k[6][0]);
    assert(k[2][0] != k[7][0]);
    assert(metadata_key().len() == 8 && length_key().len() == 6 && type_key().len() == 4);
    assert(k[2][0] != metadata_key()[0] && k[7][0] != metadata_key()[0]);
    assert(k[0][0] != length_key()[0]);
}

/// Removes the information fields from object `id`, reporting each one found.
fn remove_info_fields(doc: &mut Document, id: ObjectId, fields: &mut Vec<String>)
    requires
        pdf_objects(*old(doc)).dom().contains(id),
    ensures
        ({
            let sh = pdf_objects(*old(doc))[id];
            pdf_objects(*final(doc)) == pdf_objects(*old(doc)).insert(
                id,
                PdfObjectShape { entries: sh.entries.remove_keys(info_key_prefix(8)), ..sh },
            )
        }),
        pdf_trailer_keys(*final(doc)) == pdf_trailer_keys(*old(doc)),
        strings_view(final(fields)@) == strings_view(old(fields)@) + info_labels(
            pdf_objects(*old(doc))[id].entries,
            8,
        ),
{
    let ghost objs = pdf_objects(*doc);
    let ghost sh = objs[id];
    let ghost start = strings_view(fields@);
    proof {
        lemma_info_keys_distinct();
        assert(sh.entries.remove_keys(info_key_prefix(0)) =~= sh.entries);
        assert(objs.insert(id, PdfObjectShape { entries: sh.entries, ..sh }) =~= objs);
        assert(start + info_labels(sh.entries, 0) =~= start);
    }
    let mut j: usize = 0;
    while j < 8
        invariant
            j <= 8,
            objs.dom().contains(id),
            sh == objs[id],
            pdf_trailer_keys(*doc) == pdf_trailer_keys(*old(doc)),
            objs == pdf_objects(*old(doc)),
            start == strings_view(old(fields)@),
            pdf_objects(*doc) == objs.insert(
                id,
                PdfObjectShape { entries: sh.entries.remove_keys(info_key_prefix(j as int)), ..sh },
            ),
            strings_view(fields@) == start + info_labels(sh.entries, j as int),
            forall|i: int, t: int| 0 <= i < t < 8 ==> pdf_info_keys()[i] != pdf_info_keys()[t],
        decreases 8 - j,
    {
        let (key, name) = info_key_at(j);
        let ghost cur = sh.entries.remove_keys(info_key_prefix(j as int));
        proof {
            assert(!info_key_prefix(j as int).contains(key@)) by {
                if info_key_prefix(j as int).contains(key@) {
                    let t = choose|t: int| 0 <= t < j && pdf_info_keys()[t] == key@;
                }
            }
            assert(cur.contains_key(key@) == sh.entries.contains_key(key@));
            assert(cur.remove(key@) =~= sh.entries.remove_keys(info_key_prefix(j + 1)));
        }
        let removed = pdf_remove_entry(doc, id, key.as_slice());
        assert(pdf_objects(*doc) =~= objs.insert(
            id,
            PdfObjectShape { entries: sh.entries.remove_keys(info_key_prefix(j + 1)), ..sh },
        ));
        match removed {
            RemovedEntry::Absent => {},
            _ => {
                let mut label = joined("PDF ", name);
                label.append(" field");
                push_label(fields, label);
            },
        }
        assert(strings_view(fields@) =~= start + info_labels(sh.entries, j + 1));
        j = j + 1;
    }
}

/// Strips one object, reporting what it removed, and tells which object its
/// XMP metadata reference points to, if it is a dictionary with one.
fn strip_object(doc: &mut Document, id: ObjectId, fields: &mut Vec<String>) -> (r: Option<ObjectId>)
    requires
        pdf_objects(*old(doc)).dom().contains(id),
    ensures
        pdf_objects(*final(doc)) == pdf_objects(*old(doc)).insert(
            id,
            stripped_shape(pdf_objects(*old(doc))[id]),
        ),
        pdf_trailer_keys(*final(doc)) == pdf_trailer_keys(*old(doc)),
        strings_view(final(fields)@) == strings_view(old(fields)@) + object_labels(
            pdf_objects(*old(doc))[id],
        ),
        r == metadata_target(pdf_objects(*old(doc))[id]),
{
    let ghost objs = pdf_objects(*doc);
    let ghost sh = objs[id];
    let ghost start = strings_view(fields@);
    proof {
        lemma_info_keys_distinct();
    }
    let kind = pdf_object_kind(doc, id);
    match kind {
        PdfObjectKind::Other => {
            assert(objs.insert(id, stripped_shape(sh)) =~= objs);
            assert(start + object_labels(sh) =~= start);
            None
        },
        PdfObjectKind::Dictionary => {
            let meta = metadata_key_bytes();
            let removed = pdf_remove_entry(doc, id, meta.as_slice());
            let target = match removed {
                RemovedEntry::Absent => None,
                RemovedEntry::Reference(a, b) => {
                    push_label(fields, owned("PDF XMP Metadata reference"));
                    Some((a, b))
                },
                RemovedEntry::Present => {
                    push_label(fields, owned("PDF XMP Metadata reference"));
                    None
                },
            };
            let ghost mid = strings_view(fields@);
            let ghost e1 = sh.entries.remove(metadata_key());
            assert(info_labels(e1, 8) == info_labels(sh.entries, 8)) by {
                lemma_info_labels_ignore(sh.entries, metadata_key(), 8);
            }
            remove_info_fields(doc, id, fields);
            proof {
                assert(e1.remove_keys(info_key_prefix(8)) =~= sh.entries.remove_keys(stripped_keys()));
                assert(pdf_objects(*doc) =~= objs.insert(id, stripped_shape(sh)));
                assert(strings_view(fields@) =~= start + object_labels(sh));
            }
            target
        },
        PdfObjectKind::Stream => {
            let meta = metadata_key_bytes();
            let removed = pdf_remove_entry(doc, id, meta.as_slice());
            match removed {
                RemovedEntry::Absent => {},
                _ => {
                    push_label(fields, owned("PDF stream Metadata reference"));
                },
            }
            let ghost e1 = sh.entries.remove(metadata_key());
            let type_key_v = vec![0x54u8, 0x79u8, 0x70u8, 0x65u8];
            assert(type_key_v@ == type_key());
            let name = pdf_stream_name_entry(doc, id, type_key_v.as_slice());
            let is_meta = match &name {
                Some(n) => same_bytes(n.as_slice(), meta.as_slice()),
                None => false,
            };
            assert(e1.get(type_key()) == sh.entries.get(type_key()));
            assert(is_meta == is_metadata_stream(sh));
            let ghost e2 = if is_meta {
                e1.insert(length_key(), PdfValue::Other)
            } else {
                e1
            };
            if is_meta {
                pdf_clear_stream(doc, id);
                let length = vec![0x4cu8, 0x65u8, 0x6eu8, 0x67u8, 0x74u8, 0x68u8];
                assert(length@ == length_key());
                pdf_set_integer_entry(doc, id, length.as_slice(), 0);
                push_label(fields, owned("PDF XMP Metadata stream"));
            }
            assert(info_labels(e2, 8) == info_labels(sh.entries, 8)) by {
                lemma_info_labels_ignore(sh.entries, metadata_key(), 8);
                if is_meta {
                    lemma_info_labels_insert(e1, length_key(), PdfValue::Other, 8);
                }
            }
            remove_info_fields(doc, id, fields);
            proof {
                assert(e2.remove_keys(info_key_prefix(8)) =~= stripped_shape(sh).entries);
                assert(pdf_objects(*doc) =~= objs.insert(id, stripped_shape(sh)));
                assert(strings_view(fields@) =~= start + object_labels(sh));
            }
            None
        },
    }
}

proof fn lemma_info_labels_ignore(e: Map<Seq<u8>, PdfValue>, k: Seq<u8>, n: int)
    requires
        forall|i: int| 0 <= i < 8 ==> pdf_info_keys()[i] != k,
    ensures
        info_labels(e.remove(k), n) == info_labels(e, n),
    decreases n,
{
    if n > 0 && n <= 8 {
        lemma_info_labels_ignore(e, k, n - 1);
        assert(e.remove(k).contains_key(pdf_info_keys()[n - 1]) == e.contains_key(pdf_info_keys()[n - 1]));
    }
}

proof fn lemma_info_labels_insert(e: Map<Seq<u8>, PdfValue>, k: Seq<u8>, v: PdfValue, n: int)
    requires
        forall|i: int| 0 <= i < 8 ==> pdf_info_keys()[i] != k,
    ensures
        info_labels(e.insert(k, v), n) == info_labels(e, n),
    decreases n,
{
    if n > 0 && n <= 8 {
        lemma_info_labels_insert(e, k, v, n - 1);
        assert(e.insert(k, v).contains_key(pdf_info_keys()[n - 1]) == e.contains_key(pdf_info_keys()[n - 1]));
    }
}


/// The objects `m` with those among `done` stripped.
pub open spec fn partially_stripped(m: Map<ObjectId, PdfObjectShape>, done: Seq<ObjectId>) -> Map<ObjectId, PdfObjectShape> {
    Map::new(
        |id: ObjectId| m.dom().contains(id),
        |id: ObjectId| if done.contains(id) { stripped_shape(m[id]) } else { m[id] },
    )
}

/// The stripped objects `m` without those among `removed`.
pub open spec fn stripped_without(m: Map<ObjectId, PdfObjectShape>, removed: Seq<ObjectId>) -> Map<ObjectId, PdfObjectShape> {
    Map::new(
        |id: ObjectId| m.dom().contains(id) && !removed.contains(id),
        |id: ObjectId| stripped_shape(m[id]),
    )
}

/// Strips the document in place: the trailer's `Info` dictionary, each
/// dictionary's and stream's XMP metadata reference and information fields,
/// the content of XMP metadata streams, and the objects that dictionaries
/// reference as their XMP metadata. Reports what was removed, in order. The
/// ascending enumeration of object ids is unique, so the report is fully
/// determined.
pub fn strip_pdf_document(doc: &mut Document) -> (r: Vec<String>)
    ensures
        pdf_trailer_keys(*final(doc)) == pdf_trailer_keys(*old(doc)).remove(info_key()),
        exists|ids: Seq<ObjectId>| {
            &&& enumerates(ids, pdf_objects(*old(doc)).dom())
            &&& strings_view(r@) == pdf_strip_labels(
                pdf_trailer_keys(*old(doc)),
                ids,
                pdf_objects(*old(doc)),
            )
            &&& pdf_objects(*final(doc)) == pdf_stripped_objects(ids, pdf_objects(*old(doc)))
        },
{
    let ghost m = pdf_objects(*doc);
    let ghost t = pdf_trailer_keys(*doc);
    let mut fields: Vec<String> = Vec::new();
    let info = vec![0x49u8, 0x6eu8, 0x66u8, 0x6fu8];
    assert(info@ == info_key());
    if pdf_remove_trailer_entry(doc, info.as_slice()) {
        push_label(&mut fields, owned("PDF trailer Info dictionary"));
    }
    let ghost head = strings_view(fields@);
    assert(head == if t.contains(info_key()) {
        seq!["PDF trailer Info dictionary"@]
    } else {
        Seq::<Seq<char>>::empty()
    });
    let ids = pdf_object_ids(doc);
    let n = ids.len();
    let mut targets: Vec<ObjectId> = Vec::new();
    let mut k: usize = 0;
    assert(ids@.take(0) =~= Seq::<ObjectId>::empty());
    assert(partially_stripped(m, ids@.take(0)) =~= m);
    assert(head + objects_labels(ids@.take(0), m) =~= head);
    while k < n
        invariant
            n == ids@.len(),
            k <= n,
            enumerates(ids@, m.dom()),
            pdf_objects(*doc) == partially_stripped(m, ids@.take(k as int)),
            pdf_trailer_keys(*doc) == t.remove(info_key()),
            strings_view(fields@) == head + objects_labels(ids@.take(k as int), m),
            targets@ == metadata_targets(ids@.take(k as int), m),
        decreases n - k,
    {
        let id = ids[k];
        proof {
            assert(!ids@.take(k as int).contains(id)) by {
                if ids@.take(k as int).contains(id) {
                    let i = choose|i: int| 0 <= i < k && ids@.take(k as int)[i] == id;
                    assert(id_before(ids@[i], ids@[k as int]));
                }
            }
            assert(m.dom().contains(id));
            assert(pdf_objects(*doc)[id] == m[id]);
            assert(ids@.take(k + 1).drop_last() =~= ids@.take(k as int));
            assert(ids@.take(k + 1).last() == id);
        }
        let ghost fields_before = strings_view(fields@);
        let target = strip_object(doc, id, &mut fields);
        assert(pdf_objects(*doc) =~= partially_stripped(m, ids@.take(k + 1)));
        assert(strings_view(fields@) =~= head + objects_labels(ids@.take(k + 1), m));
        match target {
            Some(x) => {
                targets.push(x);
            },
            None => {},
        }
        assert(targets@ =~= metadata_targets(ids@.take(k + 1), m));
        k = k + 1;
    }
    assert(ids@.take(n as int) =~= ids@);
    let ghost all_targets = targets@;
    let ghost body = strings_view(fields@);
    assert(pdf_objects(*doc) =~= stripped_without(m, all_targets.take(0)));
    assert(all_targets.skip(0) =~= all_targets);
    assert(body + removal_labels(all_targets.skip(0), pdf_objects(*doc).dom()) =~= body
        + removal_labels(all_targets, m.dom()));
    let tn = targets.len();
    let mut j: usize = 0;
    while j < tn
        invariant
            tn == all_targets.len(),
            all_targets == targets@,
            j <= tn,
            pdf_objects(*doc) == stripped_without(m, all_targets.take(j as int)),
            pdf_trailer_keys(*doc) == t.remove(info_key()),
            strings_view(fields@) + removal_labels(all_targets.skip(j as int), pdf_objects(*doc).dom())
                == body + removal_labels(all_targets, m.dom()),
        decreases tn - j,
    {
        let x = targets[j];
        let ghost before = strings_view(fields@);
        let ghost dom0 = pdf_objects(*doc).dom();
        proof {
            assert(all_targets.skip(j as int)[0] == x);
            assert(all_targets.skip(j as int).drop_first() =~= all_targets.skip(j + 1));
            assert(all_targets.take(j + 1) =~= all_targets.take(j as int).push(x));
        }
        if pdf_remove_object(doc, x) {
            push_label(&mut fields, owned("PDF referenced Metadata object"));
            assert(pdf_objects(*doc).dom() =~= dom0.remove(x));
            assert(strings_view(fields@) + removal_labels(all_targets.skip(j + 1), pdf_objects(*doc).dom())
                =~= before + removal_labels(all_targets.skip(j as int), dom0));
        } else {
            assert(pdf_objects(*doc).dom() =~= dom0);
        }
        proof {
            let a = all_targets.take(j as int);
            let b = all_targets.take(j + 1);
            assert forall|id: ObjectId| b.contains(id) <==> (a.contains(id) || id == x) by {
                if a.contains(id) {
                    let i = choose|i: int| 0 <= i < a.len() && a[i] == id;
                    assert(b[i] == id);
                }
                if id == x {
                    assert(b[j as int] == id);
                }
                if b.contains(id) {
                    let i = choose|i: int| 0 <= i < b.len() && b[i] == id;
                    if i < j {
                        assert(a[i] == id);
                    }
                }
            }
        }
        assert(pdf_objects(*doc) =~= stripped_without(m, all_targets.take(j + 1)));
        j = j + 1;
    }
    assert(all_targets.take(tn as int) =~= all_targets);
    assert(all_targets.skip(tn as int) =~= Seq::<ObjectId>::empty());
    assert(strings_view(fields@) =~= pdf_strip_labels(t, ids@, m));
    assert(pdf_objects(*doc) =~= pdf_stripped_objects(ids@, m));
    fields
}


/// Whether an object holds no XMP metadata reference and no information
/// field, and is not an XMP metadata stream with content.
pub open spec fn clean_object(sh: PdfObjectShape) -> bool {
    &&& forall|k: Seq<u8>| stripped_keys().contains(k) ==> !sh.entries.contains_key(k)
    &&& (is_metadata_stream(sh) ==> sh.content_len == 0)
}

/// Whether a document with trailer keys `t` and objects `m` holds no
/// metadata: no `Info` in the trailer, and every object clean.
pub open spec fn clean_document(t: Set<Seq<u8>>, m: Map<ObjectId, PdfObjectShape>) -> bool {
    &&& !t.contains(info_key())
    &&& forall|id: ObjectId| #[trigger] m.dom().contains(id) ==> clean_object(m[id])
}

fn object_is_clean(doc: &Document, id: ObjectId) -> (r: bool)
    requires
        pdf_objects(*doc).dom().contains(id),
    ensures
        r == clean_object(pdf_objects(*doc)[id]),
{
    let ghost sh = pdf_objects(*doc)[id];
    let meta = metadata_key_bytes();
    if pdf_has_entry(doc, id, meta.as_slice()) {
        assert(stripped_keys().contains(metadata_key()));
        return false;
    }
    let mut j: usize = 0;
    while j < 8
        invariant
            j <= 8,
            pdf_objects(*doc).dom().contains(id),
            sh == pdf_objects(*doc)[id],
            !sh.entries.contains_key(metadata_key()),
            meta@ == metadata_key(),
            forall|t: int| 0 <= t < j ==> !sh.entries.contains_key(#[trigger] pdf_info_keys()[t]),
        decreases 8 - j,
    {
        let (key, _) = info_key_at(j);
        if pdf_has_entry(doc, id, key.as_slice()) {
            assert(pdf_info_keys()[j as int] == key@);
            assert(pdf_info_keys().contains(key@));
            assert(stripped_keys().contains(key@));
            return false;
        }
        j = j + 1;
    }
    assert forall|k: Seq<u8>| stripped_keys().contains(k) implies !sh.entries.contains_key(k) by {
        if k != metadata_key() {
            let t = choose|t: int| 0 <= t < pdf_info_keys().len() && pdf_info_keys()[t] == k;
            assert(!sh.entries.contains_key(pdf_info_keys()[t]));
        }
    }
    if pdf_object_kind(doc, id) != PdfObjectKind::Stream {
        return true;
    }
    let type_key_v = vec![0x54u8, 0x79u8, 0x70u8, 0x65u8];
    assert(type_key_v@ == type_key());
    let is_meta = match pdf_stream_name_entry(doc, id, type_key_v.as_slice()) {
        Some(n) => same_bytes(n.as_slice(), meta.as_slice()),
        None => false,
    };
    assert(is_meta == is_metadata_stream(sh));
    if is_meta {
        pdf_stream_content_len(doc, id) == 0
    } else {
        true
    }
}

/// Checks that the document holds no metadata.
fn document_is_clean(doc: &Document) -> (r: bool)
    ensures
        r == clean_document(pdf_trailer_keys(*doc), pdf_objects(*doc)),
{
    let info = vec![0x49u8, 0x6eu8, 0x66u8, 0x6fu8];
    assert(info@ == info_key());
    if pdf_trailer_has(doc, info.as_slice()) {
        return false;
    }
    let ghost m = pdf_objects(*doc);
    let ids = pdf_object_ids(doc);
    let mut k: usize = 0;
    while k < ids.len()
        invariant
            k <= ids@.len(),
            m == pdf_objects(*doc),
            enumerates(ids@, m.dom()),
            forall|i: int| 0 <= i < k ==> clean_object(m[#[trigger] ids@[i]]),
        decreases ids@.len() - k,
    {
        if !object_is_clean(doc, ids[k]) {
            return false;
        }
        k = k + 1;
    }
    assert forall|id: ObjectId| #[trigger] m.dom().contains(id) implies clean_object(m[id]) by {
        let i = choose|i: int| 0 <= i < ids@.len() && ids@[i] == id;
        assert(clean_object(m[ids@[i]]));
    }
    true
}

/// Prepares a document for saving: strips it (see `strip_pdf_document`) and
/// compresses its streams. Reports what was removed, in order.
pub fn prepare_pdf(doc: &mut Document) -> (r: Vec<String>)
    ensures
        pdf_trailer_keys(*final(doc)) == pdf_trailer_keys(*old(doc)).remove(info_key()),
        exists|ids: Seq<ObjectId>| {
            &&& enumerates(ids, pdf_objects(*old(doc)).dom())
            &&& strings_view(r@) == pdf_strip_labels(
                pdf_trailer_keys(*old(doc)),
                ids,
                pdf_objects(*old(doc)),
            )
            &&& compressed_from(
                pdf_objects(*final(doc)),
                pdf_stripped_objects(ids, pdf_objects(*old(doc))),
            )
        },
{
    let fields = strip_pdf_document(doc);
    pdf_compress(doc);
    fields
}

/// What finishing a strip reports, for the file `file_path` of
/// `original_size` bytes from which `fields` were removed, given what saving
/// the stripped document gave: the error of a failed save; the error of
/// bytes that do not load again; the written bytes and their report when
/// they load to a document that holds no metadata; otherwise an error.
pub open spec fn pdf_finish_outcome(
    file_path: Seq<char>,
    original_size: u64,
    fields: Seq<Seq<char>>,
    saved: Result<Seq<u8>, Seq<char>>,
    r: Result<StrippedFile, MetadataError>,
) -> bool {
    match saved {
        Err(e) => r matches Err(MetadataError::ImageProcessing(msg)) && msg@ == "Failed to write PDF: "@
            + e,
        Ok(b) => match pdf_load(b) {
            Err(x) => r matches Err(MetadataError::ImageProcessing(msg)) && msg@
                == "Failed to reload stripped PDF: "@ + x,
            Ok((t2, m2)) => if clean_document(t2, m2) {
                r matches Ok(f) && {
                    &&& f.contents@ == b
                    &&& f.result.file_path@ == file_path
                    &&& f.result.original_size == original_size
                    &&& f.result.stripped_size == b.len()
                    &&& f.result.bytes_removed == saturating_diff(
                        original_size,
                        f.result.stripped_size,
                    )
                    &&& strings_view(f.result.fields_removed@) == fields
                }
            } else {
                r matches Err(MetadataError::ImageProcessing(msg)) && msg@
                    == "Stripped PDF still holds metadata"@
            },
        },
    }
}

/// The view of a save's outcome.
pub open spec fn saved_view(saved: Result<Vec<u8>, String>) -> Result<Seq<u8>, Seq<char>> {
    match saved {
        Ok(b) => Ok(b@),
        Err(e) => Err(e@),
    }
}

/// Finishes stripping the file `file_path` of `original_size` bytes, from
/// which `fields` were removed, given what saving the stripped document gave.
/// Saved bytes are loaded again and returned only when they hold no
/// metadata.
pub fn finish_pdf_strip(
    file_path: String,
    original_size: u64,
    fields: Vec<String>,
    saved: Result<Vec<u8>, String>,
) -> (r: Result<StrippedFile, MetadataError>)
    ensures
        pdf_finish_outcome(file_path@, original_size, strings_view(fields@), saved_view(saved), r),
{
    let out = match saved {
        Ok(b) => b,
        Err(e) => {
            return Err(MetadataError::ImageProcessing(joined("Failed to write PDF: ", e.as_str())));
        },
    };
    match pdf_load_document(out.as_slice()) {
        Ok(written) => {
            if !document_is_clean(&written) {
                return Err(MetadataError::ImageProcessing(owned("Stripped PDF still holds metadata")));
            }
        },
        Err(e) => {
            return Err(
                MetadataError::ImageProcessing(joined("Failed to reload stripped PDF: ", e.as_str())),
            );
        },
    }
    let stripped_size = out.len() as u64;
    let result = StripResult::new(file_path, original_size, stripped_size, fields);
    Ok(StrippedFile { result, contents: out })
}

/// Strips the PDF `original` at `file_path`: the document is loaded,
/// prepared by `prepare_pdf` and saved, and `finish_pdf_strip` gives the
/// result for what saving gave. The document saved is the loaded one with
/// its trailer `Info` gone and its objects stripped and compressed, so it
/// holds no metadata.
pub fn strip_pdf_metadata(file_path: String, original: &[u8]) -> (r: Result<StrippedFile, MetadataError>)
    ensures
        match pdf_load(original@) {
            Err(x) => r matches Err(MetadataError::ImageProcessing(e)) && e@
                == "Failed to parse PDF: "@ + x,
            Ok((t, m)) => shapes_wf(m) && exists|ids: Seq<ObjectId>, d: Document|
                #![trigger enumerates(ids, m.dom()), pdf_saved(d)]
                {
                    &&& enumerates(ids, m.dom())
                    &&& pdf_trailer_keys(d) == t.remove(info_key())
                    &&& compressed_from(pdf_objects(d), pdf_stripped_objects(ids, m))
                    &&& holds_no_metadata(pdf_objects(d), m)
                    &&& pdf_finish_outcome(
                        file_path@,
                        original@.len() as u64,
                        pdf_strip_labels(t, ids, m),
                        pdf_saved(d),
                        r,
                    )
                },
        },
{
    let mut doc = match pdf_load_document(original) {
        Ok(d) => d,
        Err(e) => {
            return Err(MetadataError::ImageProcessing(joined("Failed to parse PDF: ", e.as_str())));
        },
    };
    let ghost m = pdf_objects(doc);
    let ghost t = pdf_trailer_keys(doc);
    let fields = prepare_pdf(&mut doc);
    let ghost prepared = doc;
    let saved = pdf_save(&mut doc);
    let ghost sv = saved_view(saved);
    assert(sv == pdf_saved(prepared));
    let ghost labels = strings_view(fields@);
    let original_size = original.len() as u64;
    let r = finish_pdf_strip(file_path, original_size, fields, saved);
    proof {
        let ids = choose|ids: Seq<ObjectId>| {
            &&& enumerates(ids, m.dom())
            &&& labels == pdf_strip_labels(t, ids, m)
            &&& compressed_from(pdf_objects(prepared), pdf_stripped_objects(ids, m))
        };
        stripped_pdf_holds_no_metadata(ids, m);
        compression_keeps_metadata_out(pdf_objects(prepared), pdf_stripped_objects(ids, m), m);
        assert(enumerates(ids, m.dom()) && pdf_saved(prepared) == sv);
    }
    r
}

/// Whether no object of `m` has a metadata reference or information field,
/// and every object that was an XMP metadata stream in `orig` is empty.
pub open spec fn holds_no_metadata(m: Map<ObjectId, PdfObjectShape>, orig: Map<ObjectId, PdfObjectShape>) -> bool {
    &&& forall|id: ObjectId, k: Seq<u8>| #[trigger] m.dom().contains(id) && stripped_keys().contains(k)
        ==> !(#[trigger] m[id].entries.contains_key(k))
    &&& forall|id: ObjectId| #[trigger] m.dom().contains(id) && orig.dom().contains(id)
        && is_metadata_stream(orig[id]) ==> m[id].content_len == 0
}

/// After stripping, no object keeps an XMP metadata reference or an
/// information field, XMP metadata streams are empty, and no object that a
/// dictionary referenced as its XMP metadata is left.
pub proof fn stripped_pdf_holds_no_metadata(ids: Seq<ObjectId>, m: Map<ObjectId, PdfObjectShape>)
    requires
        shapes_wf(m),
    ensures
        holds_no_metadata(pdf_stripped_objects(ids, m), m),
        forall|i: int| 0 <= i < metadata_targets(ids, m).len() ==> !pdf_stripped_objects(ids, m).dom().contains(
            #[trigger] metadata_targets(ids, m)[i],
        ),
{
    lemma_info_keys_distinct();
    let s = pdf_stripped_objects(ids, m);
    assert forall|id: ObjectId, k: Seq<u8>| #[trigger] s.dom().contains(id) && stripped_keys().contains(k)
        implies !(#[trigger] s[id].entries.contains_key(k)) by {
        assert(k != length_key());
        if m[id].kind == PdfObjectKind::Other {
            assert(!m[id].entries.dom().contains(k));
        }
    }
    assert forall|i: int| 0 <= i < metadata_targets(ids, m).len() implies !s.dom().contains(
        #[trigger] metadata_targets(ids, m)[i],
    ) by {
        assert(metadata_targets(ids, m).contains(metadata_targets(ids, m)[i]));
    }
}

/// Compressing streams cannot bring metadata back: it adds only `Filter`
/// and `Length` entries and leaves empty streams empty.
pub proof fn compression_keeps_metadata_out(
    after: Map<ObjectId, PdfObjectShape>,
    before: Map<ObjectId, PdfObjectShape>,
    orig: Map<ObjectId, PdfObjectShape>,
)
    requires
        compressed_from(after, before),
        holds_no_metadata(before, orig),
    ensures
        holds_no_metadata(after, orig),
{
    lemma_info_keys_distinct();
    assert forall|id: ObjectId, k: Seq<u8>| #[trigger] after.dom().contains(id) && stripped_keys().contains(k)
        implies !(#[trigger] after[id].entries.contains_key(k)) by {
        assert(k != length_key());
        assert(k != filter_key()) by {
            assert(filter_key()[0] != metadata_key()[0]);
            assert(filter_key().len() == 6);
            assert(pdf_info_keys()[0].len() == 6 && pdf_info_keys()[0][0] != filter_key()[0]);
            assert(pdf_info_keys()[1].len() == 7 && pdf_info_keys()[2].len() == 8);
            assert(pdf_info_keys()[3].len() == 12 && pdf_info_keys()[4].len() == 7);
            assert(pdf_info_keys()[5].len() == 5 && pdf_info_keys()[6].len() == 7);
            assert(pdf_info_keys()[7].len() == 8);
        }
        assert(after[id].entries.get(k) == before[id].entries.get(k));
    }
}

} // verus!
