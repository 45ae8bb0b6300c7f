//! JPEG and PNG metadata: which segments and chunks carry metadata, what
//! inspecting them reports, and stripping them with the `img-parts` crate.

use vstd::prelude::*;
use vstd::string::*;
use img_parts::jpeg::Jpeg;
use img_parts::png::Png;
use crate::privacy::{push_label, MetadataError, StripResult, StrippedFile, saturating_diff, strings_view};
use crate::text::{decimal, joined, owned, push_decimal, same_bytes};

verus! {

#[verifier::external_type_specification]
#[verifier::external_body]
pub struct ExJpeg(img_parts::jpeg::Jpeg);

#[verifier::external_type_specification]
#[verifier::external_body]
pub struct ExPng(img_parts::png::Png);

/// One JPEG segment: its marker, its contents and the entropy-coded data
/// that follows a start-of-scan segment.
pub type JpegSegmentData = (u8, Seq<u8>, Seq<u8>);

/// One PNG chunk: its type, its contents and its CRC.
pub type PngChunkData = (Seq<u8>, Seq<u8>, Seq<u8>);

/// The segments a `Jpeg` holds, in order.
pub uninterp spec fn jpeg_segments(j: Jpeg) -> Seq<JpegSegmentData>;

/// What `Jpeg::from_bytes` makes of `bytes`: the segments read, or the text
/// of its error.
pub uninterp spec fn jpeg_parse(bytes: Seq<u8>) -> Result<Seq<JpegSegmentData>, Seq<char>>;

/// The bytes `img-parts` writes for a JPEG made of these segments.
pub uninterp spec fn jpeg_encoding(segments: Seq<JpegSegmentData>) -> Seq<u8>;

/// The chunks a `Png` holds, in order.
pub uninterp spec fn png_chunks(p: Png) -> Seq<PngChunkData>;

/// What `Png::from_bytes` makes of `bytes`: the chunks read, or the text of
/// its error.
pub uninterp spec fn png_parse(bytes: Seq<u8>) -> Result<Seq<PngChunkData>, Seq<char>>;

/// The bytes `img-parts` writes for a PNG made of these chunks.
pub uninterp spec fn png_encoding(chunks: Seq<PngChunkData>) -> Seq<u8>;

/// The total length of the segments' contents.
pub open spec fn jpeg_contents_total(s: Seq<JpegSegmentData>) -> nat
    decreases s.len(),
{
    if s.len() == 0 { 0 } else { jpeg_contents_total(s.drop_last()) + s.last().1.len() }
}

/// The total length of the chunks' contents.
pub open spec fn png_contents_total(s: Seq<PngChunkData>) -> nat
    decreases s.len(),
{
    if s.len() == 0 { 0 } else { png_contents_total(s.drop_last()) + s.last().1.len() }
}

/// Parses a JPEG with `Jpeg::from_bytes`. Besides naming the outcome, claims
/// what its source shows: segment contents are consecutive, disjoint pieces
/// of the input, so their lengths add up to at most the input's length.
#[verifier::external_body]
fn jpeg_from_bytes(bytes: &[u8]) -> (r: Result<Jpeg, String>)
    ensures
        match (r, jpeg_parse(bytes@)) {
            (Ok(j), Ok(segs)) => jpeg_segments(j) == segs && jpeg_contents_total(segs)
                <= bytes@.len(),
            (Err(m), Err(t)) => m@ == t,
            _ => false,
        },
{
    match Jpeg::from_bytes(bytes.to_vec().into()) {
        Ok(j) => Ok(j),
        Err(e) => Err(e.to_string()),
    }
}

/// The number of segments (`Jpeg::segments().len()`).
#[verifier::external_body]
fn jpeg_segment_count(j: &Jpeg) -> (r: usize)
    ensures
        r == jpeg_segments(*j).len(),
{
    j.segments().len()
}

/// The marker of segment `i` (`JpegSegment::marker`).
#[verifier::external_body]
fn jpeg_marker(j: &Jpeg, i: usize) -> (r: u8)
    requires
        i < jpeg_segments(*j).len(),
    ensures
        r == jpeg_segments(*j)[i as int].0,
{
    j.segments()[i].marker()
}

/// A copy of the contents of segment `i` (`JpegSegment::contents`).
#[verifier::external_body]
fn jpeg_contents(j: &Jpeg, i: usize) -> (r: Vec<u8>)
    requires
        i < jpeg_segments(*j).len(),
    ensures
        r@ == jpeg_segments(*j)[i as int].1,
{
    j.segments()[i].contents().to_vec()
}

/// Removes segment `i`, keeping the others in order (`Vec::remove` on
/// `Jpeg::segments_mut`).
#[verifier::external_body]
fn jpeg_remove_segment(j: &mut Jpeg, i: usize)
    requires
        i < jpeg_segments(*old(j)).len(),
    ensures
        jpeg_segments(*final(j)) == jpeg_segments(*old(j)).remove(i as int),
{
    j.segments_mut().remove(i);
}

/// Encodes the JPEG into memory (`Jpeg::encoder` and `write_to` into a
/// `Vec<u8>`). `write_to` fails only when the writer fails, and writing to a
/// `Vec<u8>` never fails, so the result is always `Ok`, with the bytes named
/// by the segments.
#[verifier::external_body]
fn jpeg_encode(j: Jpeg) -> (r: Result<Vec<u8>, String>)
    ensures
        r is Ok,
        r matches Ok(b) ==> b@ == jpeg_encoding(jpeg_segments(j)),
{
    let mut out: Vec<u8> = Vec::new();
    match j.encoder().write_to(&mut out) {
        Ok(_) => Ok(out),
        Err(e) => Err(e.to_string()),
    }
}

/// Parses a PNG with `Png::from_bytes`. Besides naming the outcome, claims
/// what its source shows: chunk contents are consecutive, disjoint pieces of
/// the input, so their lengths add up to at most the input's length.
#[verifier::external_body]
fn png_from_bytes(bytes: &[u8]) -> (r: Result<Png, String>)
    ensures
        match (r, png_parse(bytes@)) {
            (Ok(p), Ok(chunks)) => png_chunks(p) == chunks && png_contents_total(chunks)
                <= bytes@.len(),
            (Err(m), Err(t)) => m@ == t,
            _ => false,
        },
{
    match Png::from_bytes(bytes.to_vec().into()) {
        Ok(p) => Ok(p),
        Err(e) => Err(e.to_string()),
    }
}

/// The number of chunks (`Png::chunks().len()`).
#[verifier::external_body]
fn png_chunk_count(p: &Png) -> (r: usize)
    ensures
        r == png_chunks(*p).len(),
{
    p.chunks().len()
}

/// The type of chunk `i` (`PngChunk::kind`).
#[verifier::external_body]
fn png_kind(p: &Png, i: usize) -> (r: Vec<u8>)
    requires
        i < png_chunks(*p).len(),
    ensures
        r@ == png_chunks(*p)[i as int].0,
{
    p.chunks()[i].kind().to_vec()
}

/// The length of the contents of chunk `i` (`PngChunk::contents`).
#[verifier::external_body]
fn png_contents_len(p: &Png, i: usize) -> (r: usize)
    requires
        i < png_chunks(*p).len(),
    ensures
        r == png_chunks(*p)[i as int].1.len(),
{
    p.chunks()[i].contents().len()
}

/// Removes chunk `i`, keeping the others in order (`Vec::remove` on
/// `Png::chunks_mut`).
#[verifier::external_body]
fn png_remove_chunk(p: &mut Png, i: usize)
    requires
        i < png_chunks(*old(p)).len(),
    ensures
        png_chunks(*final(p)) == png_chunks(*old(p)).remove(i as int),
{
    p.chunks_mut().remove(i);
}

/// Encodes the PNG into memory (`Png::encoder` and `write_to` into a
/// `Vec<u8>`). `write_to` fails only when the writer fails, and writing to a
/// `Vec<u8>` never fails, so the result is always `Ok`, with the bytes named
/// by the chunks.
#[verifier::external_body]
fn png_encode(p: Png) -> (r: Result<Vec<u8>, String>)
    ensures
        r is Ok,
        r matches Ok(b) ==> b@ == png_encoding(png_chunks(p)),
{
    let mut out: Vec<u8> = Vec::new();
    match p.encoder().write_to(&mut out) {
        Ok(_) => Ok(out),
        Err(e) => Err(e.to_string()),
    }
}

// ---------------------------------------------------------------------------
// Byte patterns

/// Whether `s` begins with `p`.
pub open spec fn has_bytes_prefix(s: Seq<u8>, p: Seq<u8>) -> bool {
    p.len() <= s.len() && s.subrange(0, p.len() as int) == p
}

/// The start of an EXIF APP1 segment: `Exif\0`.
pub open spec fn exif_prefix() -> Seq<u8> {
    seq![0x45u8, 0x78u8, 0x69u8, 0x66u8, 0x00u8]
}

/// The start of an XMP APP1 segment: `http://ns.adobe.com/xap/`.
pub open spec fn xmp_prefix() -> Seq<u8> {
    seq![
        0x68u8, 0x74u8, 0x74u8, 0x70u8, 0x3au8, 0x2fu8, 0x2fu8, 0x6eu8, 0x73u8, 0x2eu8, 0x61u8,
        0x64u8, 0x6fu8, 0x62u8, 0x65u8, 0x2eu8, 0x63u8, 0x6fu8, 0x6du8, 0x2fu8, 0x78u8, 0x61u8,
        0x70u8, 0x2fu8,
    ]
}

/// Whether the EXIF GPS IFD tag `88 25` occurs anywhere in `s`.
pub open spec fn has_gps_tag(s: Seq<u8>) -> bool {
    exists|i: int| 0 <= i < s.len() - 1 && #[trigger] s[i] == 0x88u8 && s[i + 1] == 0x25u8
}

/// Whether `s` begins with `p`.
pub fn starts_with_bytes(s: &[u8], p: &[u8]) -> (r: bool)
    ensures
        r == has_bytes_prefix(s@, p@),
{
    let n = s.len();
    let m = p.len();
    if m > n {
        return false;
    }
    let mut i: usize = 0;
    while i < m
        invariant
            n == s@.len(),
            m == p@.len(),
            m <= n,
            i <= m,
            forall|k: int| 0 <= k < i ==> s@[k] == p@[k],
        decreases m - i,
    {
        if s[i] != p[i] {
            assert(s@.subrange(0, m as int)[i as int] != p@[i as int]);
            return false;
        }
        i = i + 1;
    }
    assert(s@.subrange(0, m as int) =~= p@);
    true
}

fn gps_tag_present(s: &[u8]) -> (r: bool)
    ensures
        r == has_gps_tag(s@),
{
    let n = s.len();
    let mut i: usize = 0;
    while i < n
        invariant
            n == s@.len(),
            i <= n,
            forall|k: int| 0 <= k < i && k < n - 1 ==> !(#[trigger] s@[k] == 0x88u8 && s@[k + 1] == 0x25u8),
        decreases n - i,
    {
        if i + 1 < n && s[i] == 0x88 && s[i + 1] == 0x25 {
            return true;
        }
        i = i + 1;
    }
    false
}

// ---------------------------------------------------------------------------
// JPEG

/// APP1 to APP15 and comment segments carry metadata.
pub open spec fn is_jpeg_metadata_marker(m: u8) -> bool {
    m == 0xE1 || (0xE2 <= m <= 0xEF) || m == 0xFE
}

/// Stripping empties metadata segments and then drops every segment from
/// APP1 upward that is empty: what stays is each non-metadata segment below
/// APP1, and each non-empty non-metadata segment above.
pub open spec fn jpeg_segment_kept(s: JpegSegmentData) -> bool {
    !is_jpeg_metadata_marker(s.0) && (s.0 < 0xE1 || s.1.len() > 0)
}

/// The segments a stripped JPEG keeps.
pub open spec fn jpeg_kept_segments(segs: Seq<JpegSegmentData>) -> Seq<JpegSegmentData> {
    segs.filter(|s: JpegSegmentData| jpeg_segment_kept(s))
}

/// What stripping reports for one segment.
pub open spec fn jpeg_strip_label(s: JpegSegmentData) -> Seq<Seq<char>> {
    if s.0 == 0xE1 {
        if has_bytes_prefix(s.1, exif_prefix()) {
            seq!["EXIF (GPS, camera, timestamps)"@]
        } else if has_bytes_prefix(s.1, xmp_prefix()) {
            seq!["XMP (Adobe metadata)"@]
        } else {
            seq!["APP1 segment"@]
        }
    } else if 0xE2 <= s.0 <= 0xEF {
        if s.0 == 0xE2 {
            seq!["ICC Color Profile"@]
        } else {
            seq!["APP"@ + decimal((s.0 - 0xE0) as nat) + " segment"@]
        }
    } else if s.0 == 0xFE {
        seq!["JPEG Comment"@]
    } else {
        seq![]
    }
}

/// What stripping reports for the segments, in order.
pub open spec fn jpeg_strip_labels(segs: Seq<JpegSegmentData>) -> Seq<Seq<char>>
    decreases segs.len(),
{
    if segs.len() == 0 {
        seq![]
    } else {
        jpeg_strip_labels(segs.drop_last()) + jpeg_strip_label(segs.last())
    }
}

/// The label for an application segment other than APP1 and APP2.
fn app_label(marker: u8, suffix: &str) -> (r: String)
    requires
        0xE0 <= marker,
    ensures
        r@ == "APP"@ + decimal((marker - 0xE0) as nat) + suffix@,
{
    let mut s = owned("APP");
    push_decimal(&mut s, (marker - 0xE0) as u64);
    s.append(suffix);
    s
}

proof fn lemma_filter_step<A>(s: Seq<A>, k: int, p: spec_fn(A) -> bool)
    requires
        0 <= k < s.len(),
    ensures
        s.take(k + 1).filter(p) == if p(s[k]) {
            s.take(k).filter(p).push(s[k])
        } else {
            s.take(k).filter(p)
        },
{
    let t = s.take(k + 1);
    assert(t.drop_last() =~= s.take(k));
    assert(t.last() == s[k]);
    reveal_with_fuel(Seq::<_>::filter, 1);
}

/// Strips the metadata segments out of the JPEG `original`: APP1 (EXIF, XMP),
/// APP2 to APP15 (ICC profiles and others) and comments. Reports what was
/// removed, and returns the re-encoded image for `file_path`.
pub fn strip_jpeg_metadata(file_path: String, original: &[u8]) -> (r: Result<StrippedFile, MetadataError>)
    ensures
        match jpeg_parse(original@) {
            Err(t) => r matches Err(MetadataError::ImageProcessing(m)) && m@
                == "Failed to parse JPEG: "@ + t,
            Ok(segs) => match r {
                Ok(f) => {
                    &&& f.contents@ == jpeg_encoding(jpeg_kept_segments(segs))
                    &&& strings_view(f.result.fields_removed@) == jpeg_strip_labels(segs)
                    &&& f.result.file_path@ == file_path@
                    &&& f.result.original_size == original@.len()
                    &&& f.result.stripped_size == f.contents@.len()
                    &&& f.result.bytes_removed == saturating_diff(
                        f.result.original_size,
                        f.result.stripped_size,
                    )
                },
                Err(_) => false,
            },
        },
{
    let mut jpeg = match jpeg_from_bytes(original) {
        Ok(j) => j,
        Err(m) => {
            return Err(MetadataError::ImageProcessing(joined("Failed to parse JPEG: ", m.as_str())));
        },
    };
    let ghost segs = jpeg_segments(jpeg);
    let ghost keep = |s: JpegSegmentData| jpeg_segment_kept(s);
    let exif = vec![0x45u8, 0x78u8, 0x69u8, 0x66u8, 0x00u8];
    let xmp = vec![
        0x68u8, 0x74u8, 0x74u8, 0x70u8, 0x3au8, 0x2fu8, 0x2fu8, 0x6eu8, 0x73u8, 0x2eu8, 0x61u8,
        0x64u8, 0x6fu8, 0x62u8, 0x65u8, 0x2eu8, 0x63u8, 0x6fu8, 0x6du8, 0x2fu8, 0x78u8, 0x61u8,
        0x70u8, 0x2fu8,
    ];
    assert(exif@ == exif_prefix());
    assert(xmp@ == xmp_prefix());
    let n = jpeg_segment_count(&jpeg);
    let mut fields: Vec<String> = Vec::new();
    let mut k: usize = 0;
    let mut i: usize = 0;
    assert(segs.take(0) =~= Seq::<JpegSegmentData>::empty());
    assert(segs.skip(0) =~= segs);
    assert(segs.take(0).filter(keep) =~= Seq::<JpegSegmentData>::empty()) by {
        reveal_with_fuel(Seq::<_>::filter, 1);
    }
    while k < n
        invariant
            n == segs.len(),
            k <= n,
            exif@ == exif_prefix(),
            xmp@ == xmp_prefix(),
            keep == (|s: JpegSegmentData| jpeg_segment_kept(s)),
            i == segs.take(k as int).filter(keep).len(),
            jpeg_segments(jpeg) == segs.take(k as int).filter(keep) + segs.skip(k as int),
            strings_view(fields@) == jpeg_strip_labels(segs.take(k as int)),
        decreases n - k,
    {
        let ghost cur = jpeg_segments(jpeg);
        assert(cur[i as int] == segs[k as int]);
        let marker = jpeg_marker(&jpeg, i);
        let contents = jpeg_contents(&jpeg, i);
        proof {
            assert(segs.take(k + 1).drop_last() =~= segs.take(k as int));
            assert(segs.take(k + 1).last() == segs[k as int]);
        }
        if marker == 0xE1 {
            if starts_with_bytes(contents.as_slice(), exif.as_slice()) {
                push_label(&mut fields, owned("EXIF (GPS, camera, timestamps)"));
            } else if starts_with_bytes(contents.as_slice(), xmp.as_slice()) {
                push_label(&mut fields, owned("XMP (Adobe metadata)"));
            } else {
                push_label(&mut fields, owned("APP1 segment"));
            }
        } else if 0xE2 <= marker && marker <= 0xEF {
            if marker == 0xE2 {
                push_label(&mut fields, owned("ICC Color Profile"));
            } else {
                push_label(&mut fields, app_label(marker, " segment"));
            }
        } else if marker == 0xFE {
            push_label(&mut fields, owned("JPEG Comment"));
        }
        assert(strings_view(fields@) =~= jpeg_strip_labels(segs.take(k + 1)));
        proof {
            lemma_filter_step(segs, k as int, keep);
        }
        let kept = !(marker == 0xE1 || (0xE2 <= marker && marker <= 0xEF) || marker == 0xFE) && (
        marker < 0xE1 || contents.len() > 0);
        assert(kept == keep(segs[k as int]));
        if kept {
            assert(segs.take(k + 1).filter(keep) + segs.skip(k + 1) =~= segs.take(k as int).filter(
                keep,
            ) + segs.skip(k as int));
            i = i + 1;
        } else {
            jpeg_remove_segment(&mut jpeg, i);
            assert(jpeg_segments(jpeg) =~= segs.take(k + 1).filter(keep) + segs.skip(k + 1));
        }
        k = k + 1;
    }
    assert(segs.take(n as int) =~= segs);
    assert(jpeg_segments(jpeg) =~= jpeg_kept_segments(segs));
    let out = match jpeg_encode(jpeg) {
        Ok(b) => b,
        Err(m) => {
            return Err(MetadataError::ImageProcessing(joined("Failed to write JPEG: ", m.as_str())));
        },
    };
    let original_size = original.len() as u64;
    let stripped_size = out.len() as u64;
    let result = StripResult::new(file_path, original_size, stripped_size, fields);
    Ok(StrippedFile { result, contents: out })
}

/// A stripped JPEG holds no APP1 to APP15 or comment segment, and keeps every
/// segment below APP1, such as the JFIF APP0 header, in its place.
pub proof fn stripped_jpeg_keeps_no_metadata(segs: Seq<JpegSegmentData>)
    ensures
        forall|i: int| 0 <= i < jpeg_kept_segments(segs).len() ==> !is_jpeg_metadata_marker(
            (#[trigger] jpeg_kept_segments(segs)[i]).0,
        ),
        forall|i: int| 0 <= i < segs.len() && (#[trigger] segs[i]).0 < 0xE1 ==> jpeg_kept_segments(
            segs,
        ).contains(segs[i]),
{
    let keep = |s: JpegSegmentData| jpeg_segment_kept(s);
    assert forall|i: int| 0 <= i < jpeg_kept_segments(segs).len() implies !is_jpeg_metadata_marker(
        (#[trigger] jpeg_kept_segments(segs)[i]).0,
    ) by {
        segs.lemma_filter_pred(keep, i);
    }
    assert forall|i: int| 0 <= i < segs.len() && (#[trigger] segs[i]).0 < 0xE1 implies jpeg_kept_segments(
        segs,
    ).contains(segs[i]) by {
        segs.lemma_filter_contains(keep, i);
    }
}

// ---------------------------------------------------------------------------
// PNG

/// The PNG chunk types that carry metadata, in the order they are checked:
/// `tEXt`, `iTXt`, `zTXt`, `eXIf`, `iCCP`, `tIME`.
pub open spec fn png_metadata_kinds() -> Seq<Seq<u8>> {
    seq![
        seq![0x74u8, 0x45u8, 0x58u8, 0x74u8],
        seq![0x69u8, 0x54u8, 0x58u8, 0x74u8],
        seq![0x7au8, 0x54u8, 0x58u8, 0x74u8],
        seq![0x65u8, 0x58u8, 0x49u8, 0x66u8],
        seq![0x69u8, 0x43u8, 0x43u8, 0x50u8],
        seq![0x74u8, 0x49u8, 0x4du8, 0x45u8],
    ]
}

/// Whether a chunk type carries metadata.
pub open spec fn is_png_metadata_kind(kind: Seq<u8>) -> bool {
    png_metadata_kinds().contains(kind)
}

/// The PNG chunks a stripped image keeps.
pub open spec fn png_kept_chunks(chunks: Seq<PngChunkData>) -> Seq<PngChunkData> {
    chunks.filter(|c: PngChunkData| !is_png_metadata_kind(c.0))
}

/// What stripping reports for one chunk.
pub open spec fn png_strip_label(kind: Seq<u8>) -> Seq<Seq<char>> {
    if kind == png_metadata_kinds()[0] {
        seq!["PNG tEXt chunk"@]
    } else if kind == png_metadata_kinds()[1] {
        seq!["PNG iTXt chunk"@]
    } else if kind == png_metadata_kinds()[2] {
        seq!["PNG zTXt chunk"@]
    } else if kind == png_metadata_kinds()[3] {
        seq!["PNG eXIf chunk"@]
    } else if kind == png_metadata_kinds()[4] {
        seq!["PNG iCCP chunk"@]
    } else if kind == png_metadata_kinds()[5] {
        seq!["PNG tIME chunk"@]
    } else {
        seq![]
    }
}

/// What stripping reports for the chunks, in order.
pub open spec fn png_strip_labels(chunks: Seq<PngChunkData>) -> Seq<Seq<char>>
    decreases chunks.len(),
{
    if chunks.len() == 0 {
        seq![]
    } else {
        png_strip_labels(chunks.drop_last()) + png_strip_label(chunks.last().0)
    }
}

/// Which metadata chunk type `kind` is: its index in `png_metadata_kinds`,
/// or 6 when it is none of them.
fn png_metadata_index(kind: &Vec<u8>) -> (r: usize)
    ensures
        r <= 6,
        r < 6 ==> kind@ == png_metadata_kinds()[r as int],
        r == 6 ==> !is_png_metadata_kind(kind@),
        forall|j: int| 0 <= j < r ==> kind@ != png_metadata_kinds()[j],
{
    let kinds: [[u8; 4]; 6] = [
        [0x74u8, 0x45u8, 0x58u8, 0x74u8],
        [0x69u8, 0x54u8, 0x58u8, 0x74u8],
        [0x7au8, 0x54u8, 0x58u8, 0x74u8],
        [0x65u8, 0x58u8, 0x49u8, 0x66u8],
        [0x69u8, 0x43u8, 0x43u8, 0x50u8],
        [0x74u8, 0x49u8, 0x4du8, 0x45u8],
    ];
    assert(kinds@[0]@ == png_metadata_kinds()[0]);
    assert(kinds@[1]@ == png_metadata_kinds()[1]);
    assert(kinds@[2]@ == png_metadata_kinds()[2]);
    assert(kinds@[3]@ == png_metadata_kinds()[3]);
    assert(kinds@[4]@ == png_metadata_kinds()[4]);
    assert(kinds@[5]@ == png_metadata_kinds()[5]);
    let mut j: usize = 0;
    while j < 6
        invariant
            j <= 6,
            forall|t: int| 0 <= t < 6 ==> (#[trigger] kinds@[t])@ == png_metadata_kinds()[t],
            forall|t: int| 0 <= t < j ==> kind@ != png_metadata_kinds()[t],
        decreases 6 - j,
    {
        if same_bytes(kind.as_slice(), kinds[j].as_slice()) {
            return j;
        }
        j = j + 1;
    }
    assert forall|x: Seq<u8>| png_metadata_kinds().contains(x) implies x != kind@ by {
        let t = choose|t: int| 0 <= t < 6 && png_metadata_kinds()[t] == x;
    }
    6
}

/// Strips the PNG metadata chunks (`tEXt`, `iTXt`, `zTXt`, `eXIf`, `iCCP`,
/// `tIME`) out of `original`. Reports what was removed, and returns the
/// re-encoded image for `file_path`.
pub fn strip_png_metadata(file_path: String, original: &[u8]) -> (r: Result<StrippedFile, MetadataError>)
    ensures
        match png_parse(original@) {
            Err(t) => r matches Err(MetadataError::ImageProcessing(m)) && m@
                == "Failed to parse PNG: "@ + t,
            Ok(chunks) => match r {
                Ok(f) => {
                    &&& f.contents@ == png_encoding(png_kept_chunks(chunks))
                    &&& strings_view(f.result.fields_removed@) == png_strip_labels(chunks)
                    &&& f.result.file_path@ == file_path@
                    &&& f.result.original_size == original@.len()
                    &&& f.result.stripped_size == f.contents@.len()
                    &&& f.result.bytes_removed == saturating_diff(
                        f.result.original_size,
                        f.result.stripped_size,
                    )
                },
                Err(_) => false,
            },
        },
{
    let mut png = match png_from_bytes(original) {
        Ok(p) => p,
        Err(m) => {
            return Err(MetadataError::ImageProcessing(joined("Failed to parse PNG: ", m.as_str())));
        },
    };
    let ghost chunks = png_chunks(png);
    let ghost keep = |c: PngChunkData| !is_png_metadata_kind(c.0);
    let n = png_chunk_count(&png);
    let mut fields: Vec<String> = Vec::new();
    let mut k: usize = 0;
    let mut i: usize = 0;
    assert(chunks.take(0) =~= Seq::<PngChunkData>::empty());
    assert(chunks.skip(0) =~= chunks);
    assert(chunks.take(0).filter(keep) =~= Seq::<PngChunkData>::empty()) by {
        reveal_with_fuel(Seq::<_>::filter, 1);
    }
    while k < n
        invariant
            n == chunks.len(),
            k <= n,
            keep == (|c: PngChunkData| !is_png_metadata_kind(c.0)),
            i == chunks.take(k as int).filter(keep).len(),
            png_chunks(png) == chunks.take(k as int).filter(keep) + chunks.skip(k as int),
            strings_view(fields@) == png_strip_labels(chunks.take(k as int)),
        decreases n - k,
    {
        let ghost cur = png_chunks(png);
        assert(cur[i as int] == chunks[k as int]);
        let kind = png_kind(&png, i);
        let j = png_metadata_index(&kind);
        proof {
            assert(chunks.take(k + 1).drop_last() =~= chunks.take(k as int));
            assert(chunks.take(k + 1).last() == chunks[k as int]);
        }
        if j == 0 {
            push_label(&mut fields, owned("PNG tEXt chunk"));
        } else if j == 1 {
            push_label(&mut fields, owned("PNG iTXt chunk"));
        } else if j == 2 {
            push_label(&mut fields, owned("PNG zTXt chunk"));
        } else if j == 3 {
            push_label(&mut fields, owned("PNG eXIf chunk"));
        } else if j == 4 {
            push_label(&mut fields, owned("PNG iCCP chunk"));
        } else if j == 5 {
            push_label(&mut fields, owned("PNG tIME chunk"));
        }
        assert(strings_view(fields@) =~= png_strip_labels(chunks.take(k + 1)));
        proof {
            lemma_filter_step(chunks, k as int, keep);
            if j < 6 {
                assert(png_metadata_kinds()[j as int] == kind@);
                assert(png_metadata_kinds().contains(kind@));
            }
        }
        if j == 6 {
            assert(chunks.take(k + 1).filter(keep) + chunks.skip(k + 1) =~= chunks.take(
                k as int,
            ).filter(keep) + chunks.skip(k as int));
            i = i + 1;
        } else {
            png_remove_chunk(&mut png, i);
            assert(png_chunks(png) =~= chunks.take(k + 1).filter(keep) + chunks.skip(k + 1));
        }
        k = k + 1;
    }
    assert(chunks.take(n as int) =~= chunks);
    assert(png_chunks(png) =~= png_kept_chunks(chunks));
    let out = match png_encode(png) {
        Ok(b) => b,
        Err(m) => {
            return Err(MetadataError::ImageProcessing(joined("Failed to write PNG: ", m.as_str())));
        },
    };
    let original_size = original.len() as u64;
    let stripped_size = out.len() as u64;
    let result = StripResult::new(file_path, original_size, stripped_size, fields);
    Ok(StrippedFile { result, contents: out })
}

/// A stripped PNG holds no metadata chunk, and keeps every other chunk.
pub proof fn stripped_png_keeps_no_metadata(chunks: Seq<PngChunkData>)
    ensures
        forall|i: int| 0 <= i < png_kept_chunks(chunks).len() ==> !is_png_metadata_kind(
            (#[trigger] png_kept_chunks(chunks)[i]).0,
        ),
        forall|i: int| 0 <= i < chunks.len() && !is_png_metadata_kind((#[trigger] chunks[i]).0)
            ==> png_kept_chunks(chunks).contains(chunks[i]),
{
    let keep = |c: PngChunkData| !is_png_metadata_kind(c.0);
    assert forall|i: int| 0 <= i < png_kept_chunks(chunks).len() implies !is_png_metadata_kind(
        (#[trigger] png_kept_chunks(chunks)[i]).0,
    ) by {
        chunks.lemma_filter_pred(keep, i);
    }
    assert forall|i: int| 0 <= i < chunks.len() && !is_png_metadata_kind(
        (#[trigger] chunks[i]).0,
    ) implies png_kept_chunks(chunks).contains(chunks[i]) by {
        chunks.lemma_filter_contains(keep, i);
    }
}


// ---------------------------------------------------------------------------
// Inspection

/// What inspecting a file reports: whether it holds EXIF data and GPS
/// coordinates, how many bytes of metadata it holds, and what was found.
pub struct MetadataScan {
    pub has_exif: bool,
    pub has_gps: bool,
    pub size: nat,
    pub fields: Seq<Seq<char>>,
}

/// Nothing found yet.
pub open spec fn empty_scan() -> MetadataScan {
    MetadataScan { has_exif: false, has_gps: false, size: 0, fields: seq![] }
}

/// The scan after looking at one more JPEG segment: APP1 counts, and reports
/// EXIF data (with GPS coordinates when the GPS tag occurs in it) and XMP
/// metadata; APP2 to APP15 and comments count and are reported.
pub open spec fn jpeg_scan_step(st: MetadataScan, s: JpegSegmentData) -> MetadataScan {
    if s.0 == 0xE1 {
        let st1 = MetadataScan { size: st.size + s.1.len(), ..st };
        let st2 = if has_bytes_prefix(s.1, exif_prefix()) {
            let a = MetadataScan { has_exif: true, fields: st1.fields.push("EXIF data"@), ..st1 };
            if has_gps_tag(s.1) {
                MetadataScan { has_gps: true, fields: a.fields.push("GPS coordinates"@), ..a }
            } else {
                a
            }
        } else {
            st1
        };
        if has_bytes_prefix(s.1, xmp_prefix()) {
            MetadataScan { fields: st2.fields.push("XMP metadata"@), ..st2 }
        } else {
            st2
        }
    } else if 0xE2 <= s.0 <= 0xEF {
        MetadataScan {
            size: st.size + s.1.len(),
            fields: st.fields.push("APP"@ + decimal((s.0 - 0xE0) as nat) + " data"@),
            ..st
        }
    } else if s.0 == 0xFE {
        MetadataScan { size: st.size + s.1.len(), fields: st.fields.push("Comment"@), ..st }
    } else {
        st
    }
}

/// What inspecting these JPEG segments reports.
pub open spec fn jpeg_scan(segs: Seq<JpegSegmentData>) -> MetadataScan
    decreases segs.len(),
{
    if segs.len() == 0 {
        empty_scan()
    } else {
        jpeg_scan_step(jpeg_scan(segs.drop_last()), segs.last())
    }
}

/// The scan after looking at one more PNG chunk: `eXIf` counts and is EXIF
/// data, the text chunks count and are reported by type, `tIME` counts and is
/// the modification time.
pub open spec fn png_scan_step(st: MetadataScan, c: PngChunkData) -> MetadataScan {
    let kinds = png_metadata_kinds();
    if c.0 == kinds[3] {
        MetadataScan {
            has_exif: true,
            size: st.size + c.1.len(),
            fields: st.fields.push("EXIF data"@),
            ..st
        }
    } else if c.0 == kinds[0] {
        MetadataScan { size: st.size + c.1.len(), fields: st.fields.push("tEXt text chunk"@), ..st }
    } else if c.0 == kinds[1] {
        MetadataScan { size: st.size + c.1.len(), fields: st.fields.push("iTXt text chunk"@), ..st }
    } else if c.0 == kinds[2] {
        MetadataScan { size: st.size + c.1.len(), fields: st.fields.push("zTXt text chunk"@), ..st }
    } else if c.0 == kinds[5] {
        MetadataScan {
            size: st.size + c.1.len(),
            fields: st.fields.push("Modification time"@),
            ..st
        }
    } else {
        st
    }
}

/// What inspecting these PNG chunks reports.
pub open spec fn png_scan(chunks: Seq<PngChunkData>) -> MetadataScan
    decreases chunks.len(),
{
    if chunks.len() == 0 {
        empty_scan()
    } else {
        png_scan_step(png_scan(chunks.drop_last()), chunks.last())
    }
}

/// What inspecting a JPEG file reports; a file that does not parse reports
/// nothing.
pub open spec fn jpeg_file_scan(bytes: Seq<u8>) -> MetadataScan {
    match jpeg_parse(bytes) {
        Ok(segs) => jpeg_scan(segs),
        Err(_) => empty_scan(),
    }
}

/// What inspecting a PNG file reports; a file that does not parse reports
/// nothing.
pub open spec fn png_file_scan(bytes: Seq<u8>) -> MetadataScan {
    match png_parse(bytes) {
        Ok(chunks) => png_scan(chunks),
        Err(_) => empty_scan(),
    }
}

/// A scan as the program holds it.
pub struct ScanResult {
    pub has_exif: bool,
    pub has_gps: bool,
    pub size: usize,
    pub fields: Vec<String>,
}

/// Whether `r` holds the scan `st`.
pub open spec fn holds_scan(r: ScanResult, st: MetadataScan) -> bool {
    &&& r.has_exif == st.has_exif
    &&& r.has_gps == st.has_gps
    &&& r.size == st.size
    &&& strings_view(r.fields@) == st.fields
}

proof fn lemma_jpeg_scan_size(segs: Seq<JpegSegmentData>)
    ensures
        jpeg_scan(segs).size <= jpeg_contents_total(segs),
    decreases segs.len(),
{
    if segs.len() > 0 {
        lemma_jpeg_scan_size(segs.drop_last());
    }
}

proof fn lemma_png_scan_size(chunks: Seq<PngChunkData>)
    ensures
        png_scan(chunks).size <= png_contents_total(chunks),
    decreases chunks.len(),
{
    if chunks.len() > 0 {
        lemma_png_scan_size(chunks.drop_last());
    }
}

proof fn lemma_total_prefix_jpeg(segs: Seq<JpegSegmentData>, k: int)
    requires
        0 <= k <= segs.len(),
    ensures
        jpeg_contents_total(segs.take(k)) <= jpeg_contents_total(segs),
    decreases segs.len() - k,
{
    if k < segs.len() {
        lemma_total_prefix_jpeg(segs, k + 1);
        assert(segs.take(k + 1).drop_last() =~= segs.take(k));
    } else {
        assert(segs.take(k) =~= segs);
    }
}

proof fn lemma_total_prefix_png(chunks: Seq<PngChunkData>, k: int)
    requires
        0 <= k <= chunks.len(),
    ensures
        png_contents_total(chunks.take(k)) <= png_contents_total(chunks),
    decreases chunks.len() - k,
{
    if k < chunks.len() {
        lemma_total_prefix_png(chunks, k + 1);
        assert(chunks.take(k + 1).drop_last() =~= chunks.take(k));
    } else {
        assert(chunks.take(k) =~= chunks);
    }
}

/// Inspects the metadata segments of the JPEG `bytes`.
pub fn inspect_jpeg(bytes: &[u8]) -> (r: ScanResult)
    ensures
        holds_scan(r, jpeg_file_scan(bytes@)),
{
    let mut r = ScanResult { has_exif: false, has_gps: false, size: 0, fields: Vec::new() };
    assert(strings_view(r.fields@) =~= Seq::<Seq<char>>::empty());
    let jpeg = match jpeg_from_bytes(bytes) {
        Ok(j) => j,
        Err(_) => return r,
    };
    let ghost segs = jpeg_segments(jpeg);
    let exif = vec![0x45u8, 0x78u8, 0x69u8, 0x66u8, 0x00u8];
    let xmp = vec![
        0x68u8, 0x74u8, 0x74u8, 0x70u8, 0x3au8, 0x2fu8, 0x2fu8, 0x6eu8, 0x73u8, 0x2eu8, 0x61u8,
        0x64u8, 0x6fu8, 0x62u8, 0x65u8, 0x2eu8, 0x63u8, 0x6fu8, 0x6du8, 0x2fu8, 0x78u8, 0x61u8,
        0x70u8, 0x2fu8,
    ];
    assert(exif@ == exif_prefix());
    assert(xmp@ == xmp_prefix());
    let n = jpeg_segment_count(&jpeg);
    let blen = bytes.len();
    let mut i: usize = 0;
    assert(segs.take(0) =~= Seq::<JpegSegmentData>::empty());
    while i < n
        invariant
            blen == bytes@.len(),
            n == segs.len(),
            segs == jpeg_segments(jpeg),
            jpeg_contents_total(segs) <= bytes@.len(),
            i <= n,
            exif@ == exif_prefix(),
            xmp@ == xmp_prefix(),
            holds_scan(r, jpeg_scan(segs.take(i as int))),
        decreases n - i,
    {
        proof {
            assert(segs.take(i + 1).drop_last() =~= segs.take(i as int));
            assert(segs.take(i + 1).last() == segs[i as int]);
            lemma_jpeg_scan_size(segs.take(i + 1));
            lemma_total_prefix_jpeg(segs, i + 1);
        }
        let marker = jpeg_marker(&jpeg, i);
        let contents = jpeg_contents(&jpeg, i);
        if marker == 0xE1 {
            r.size = r.size + contents.len();
            if starts_with_bytes(contents.as_slice(), exif.as_slice()) {
                r.has_exif = true;
                push_label(&mut r.fields, owned("EXIF data"));
                if gps_tag_present(contents.as_slice()) {
                    r.has_gps = true;
                    push_label(&mut r.fields, owned("GPS coordinates"));
                }
            }
            if starts_with_bytes(contents.as_slice(), xmp.as_slice()) {
                push_label(&mut r.fields, owned("XMP metadata"));
            }
        } else if 0xE2 <= marker && marker <= 0xEF {
            r.size = r.size + contents.len();
            push_label(&mut r.fields, app_label(marker, " data"));
        } else if marker == 0xFE {
            r.size = r.size + contents.len();
            push_label(&mut r.fields, owned("Comment"));
        }
        i = i + 1;
    }
    assert(segs.take(n as int) =~= segs);
    r
}

/// Inspects the metadata chunks of the PNG `bytes`.
pub fn inspect_png(bytes: &[u8]) -> (r: ScanResult)
    ensures
        holds_scan(r, png_file_scan(bytes@)),
{
    let mut r = ScanResult { has_exif: false, has_gps: false, size: 0, fields: Vec::new() };
    assert(strings_view(r.fields@) =~= Seq::<Seq<char>>::empty());
    let png = match png_from_bytes(bytes) {
        Ok(p) => p,
        Err(_) => return r,
    };
    let ghost chunks = png_chunks(png);
    let n = png_chunk_count(&png);
    let blen = bytes.len();
    let mut i: usize = 0;
    assert(chunks.take(0) =~= Seq::<PngChunkData>::empty());
    while i < n
        invariant
            blen == bytes@.len(),
            n == chunks.len(),
            chunks == png_chunks(png),
            png_contents_total(chunks) <= bytes@.len(),
            i <= n,
            holds_scan(r, png_scan(chunks.take(i as int))),
        decreases n - i,
    {
        proof {
            assert(chunks.take(i + 1).drop_last() =~= chunks.take(i as int));
            assert(chunks.take(i + 1).last() == chunks[i as int]);
            lemma_png_scan_size(chunks.take(i + 1));
            lemma_total_prefix_png(chunks, i + 1);
        }
        let kind = png_kind(&png, i);
        let j = png_metadata_index(&kind);
        let len = png_contents_len(&png, i);
        if j == 3 {
            r.has_exif = true;
            r.size = r.size + len;
            push_label(&mut r.fields, owned("EXIF data"));
        } else if j == 0 {
            r.size = r.size + len;
            push_label(&mut r.fields, owned("tEXt text chunk"));
        } else if j == 1 {
            r.size = r.size + len;
            push_label(&mut r.fields, owned("iTXt text chunk"));
        } else if j == 2 {
            r.size = r.size + len;
            push_label(&mut r.fields, owned("zTXt text chunk"));
        } else if j == 5 {
            r.size = r.size + len;
            push_label(&mut r.fields, owned("Modification time"));
        }
        i = i + 1;
    }
    assert(chunks.take(n as int) =~= chunks);
    r
}

/// Whether a JPEG segment is an APP1 segment that starts with `Exif\0` and
/// holds the GPS IFD tag, the bytes 0x88 0x25, somewhere in its contents.
pub open spec fn exif_segment_with_gps_tag(s: JpegSegmentData) -> bool {
    &&& s.0 == 0xE1
    &&& s.1.len() >= 5
    &&& s.1[0] == 0x45 && s.1[1] == 0x78 && s.1[2] == 0x69 && s.1[3] == 0x66 && s.1[4] == 0x00
    &&& exists|j: int| 0 <= j && j + 1 < s.1.len() && #[trigger] s.1[j] == 0x88 && s.1[j + 1] == 0x25
}

/// Inspecting a JPEG reports GPS coordinates exactly when one of its
/// segments is an EXIF APP1 segment holding the GPS IFD tag (0x88 0x25), and
/// then the report lists "GPS coordinates".
pub proof fn gps_is_reported_exactly_for_gps_tags(segs: Seq<JpegSegmentData>)
    ensures
        jpeg_scan(segs).has_gps <==> exists|i: int|
            0 <= i < segs.len() && #[trigger] exif_segment_with_gps_tag(segs[i]),
        jpeg_scan(segs).has_gps ==> jpeg_scan(segs).fields.contains("GPS coordinates"@),
    decreases segs.len(),
{
    if segs.len() > 0 {
        let rest = segs.drop_last();
        let last = segs.last();
        gps_is_reported_exactly_for_gps_tags(rest);
        let st = jpeg_scan(rest);
        let r = jpeg_scan(segs);
        assert(r == jpeg_scan_step(st, last));
        let gps_here = last.0 == 0xE1 && has_bytes_prefix(last.1, exif_prefix()) && has_gps_tag(
            last.1,
        );
        assert(has_bytes_prefix(last.1, exif_prefix()) <==> (last.1.len() >= 5 && last.1[0] == 0x45
            && last.1[1] == 0x78 && last.1[2] == 0x69 && last.1[3] == 0x66 && last.1[4] == 0x00)) by {
            if last.1.len() >= 5 && last.1[0] == 0x45 && last.1[1] == 0x78 && last.1[2] == 0x69
                && last.1[3] == 0x66 && last.1[4] == 0x00 {
                assert(last.1.subrange(0, 5) =~= exif_prefix());
            }
            if has_bytes_prefix(last.1, exif_prefix()) {
                assert(last.1.subrange(0, 5)[0] == last.1[0]);
                assert(last.1.subrange(0, 5)[4] == last.1[4]);
            }
        }
        assert(gps_here == exif_segment_with_gps_tag(last)) by {
            if exif_segment_with_gps_tag(last) {
                let j = choose|j: int| 0 <= j && j + 1 < last.1.len() && #[trigger] last.1[j] == 0x88
                    && last.1[j + 1] == 0x25;
                assert(last.1[j] == 0x88u8);
            }
            if has_gps_tag(last.1) {
                let j = choose|j: int| 0 <= j < last.1.len() - 1 && #[trigger] last.1[j] == 0x88u8
                    && last.1[j + 1] == 0x25u8;
                assert(last.1[j] == 0x88);
            }
        }
        assert(r.has_gps == (st.has_gps || gps_here));
        assert((exists|i: int| 0 <= i < segs.len() && #[trigger] exif_segment_with_gps_tag(segs[i]))
            <==> ((exists|i: int| 0 <= i < rest.len() && #[trigger] exif_segment_with_gps_tag(rest[i]))
            || exif_segment_with_gps_tag(last))) by {
            if exists|i: int| 0 <= i < segs.len() && #[trigger] exif_segment_with_gps_tag(segs[i]) {
                let i = choose|i: int| 0 <= i < segs.len() && #[trigger] exif_segment_with_gps_tag(segs[i]);
                if i < rest.len() {
                    assert(rest[i] == segs[i]);
                }
            }
            if exists|i: int| 0 <= i < rest.len() && #[trigger] exif_segment_with_gps_tag(rest[i]) {
                let i = choose|i: int| 0 <= i < rest.len() && #[trigger] exif_segment_with_gps_tag(rest[i]);
                assert(segs[i] == rest[i]);
            }
            if exif_segment_with_gps_tag(last) {
                assert(segs[segs.len() - 1] == last);
            }
        }
        if r.has_gps {
            let g = "GPS coordinates"@;
            if st.has_gps {
                let k = choose|k: int| 0 <= k < st.fields.len() && st.fields[k] == g;
                assert(r.fields.len() >= st.fields.len());
                assert(st.fields.is_prefix_of(r.fields)) by {
                    let st1 = MetadataScan { size: st.size + last.1.len(), ..st };
                    if last.0 == 0xE1 {
                        let a = st1.fields.push("EXIF data"@);
                        let b = a.push("GPS coordinates"@);
                        let xm = "XMP metadata"@;
                        assert(st.fields.is_prefix_of(a));
                        assert(a.is_prefix_of(b));
                        assert(st.fields.is_prefix_of(b));
                        assert(st.fields.is_prefix_of(a.push(xm)));
                        assert(st.fields.is_prefix_of(b.push(xm)));
                        assert(st.fields.is_prefix_of(st.fields.push(xm)));
                    }
                }
                assert(r.fields[k] == g);
            } else {
                assert(gps_here);
                let a = st.fields.push("EXIF data"@).push(g);
                assert(a[a.len() - 1] == g);
                if has_bytes_prefix(last.1, xmp_prefix()) {
                    assert(r.fields == a.push("XMP metadata"@));
                    assert(r.fields[a.len() - 1] == g);
                } else {
                    assert(r.fields == a);
                }
            }
        }
    }
}

/// Whether a PNG chunk type is one of `tEXt`, `iTXt`, `zTXt`, `eXIf`,
/// `iCCP` or `tIME`, spelled out as bytes.
pub open spec fn is_text_exif_icc_or_time_chunk(k: Seq<u8>) -> bool {
    ||| k == seq![0x74u8, 0x45u8, 0x58u8, 0x74u8]
    ||| k == seq![0x69u8, 0x54u8, 0x58u8, 0x74u8]
    ||| k == seq![0x7au8, 0x54u8, 0x58u8, 0x74u8]
    ||| k == seq![0x65u8, 0x58u8, 0x49u8, 0x66u8]
    ||| k == seq![0x69u8, 0x43u8, 0x43u8, 0x50u8]
    ||| k == seq![0x74u8, 0x49u8, 0x4du8, 0x45u8]
}

/// A stripped JPEG keeps no APP1 to APP15 segment (markers 0xE1 to 0xEF) and
/// no comment (0xFE), and keeps every segment whose marker is below 0xE1,
/// such as the JFIF APP0 header.
pub proof fn stripped_jpeg_drops_app_and_comment_segments(segs: Seq<JpegSegmentData>)
    ensures
        forall|i: int| 0 <= i < jpeg_kept_segments(segs).len() ==> {
            let m = (#[trigger] jpeg_kept_segments(segs)[i]).0;
            !(0xE1 <= m && m <= 0xEF) && m != 0xFE
        },
        forall|i: int| 0 <= i < segs.len() && (#[trigger] segs[i]).0 < 0xE1 ==> jpeg_kept_segments(
            segs,
        ).contains(segs[i]),
{
    stripped_jpeg_keeps_no_metadata(segs);
}

/// A stripped PNG keeps no `tEXt`, `iTXt`, `zTXt`, `eXIf`, `iCCP` or `tIME`
/// chunk, and keeps every chunk of any other type.
pub proof fn stripped_png_drops_text_exif_icc_and_time(chunks: Seq<PngChunkData>)
    ensures
        forall|i: int| 0 <= i < png_kept_chunks(chunks).len() ==> !is_text_exif_icc_or_time_chunk(
            (#[trigger] png_kept_chunks(chunks)[i]).0,
        ),
        forall|i: int| 0 <= i < chunks.len() && !is_text_exif_icc_or_time_chunk(
            (#[trigger] chunks[i]).0,
        ) ==> png_kept_chunks(chunks).contains(chunks[i]),
{
    stripped_png_keeps_no_metadata(chunks);
    let kinds = png_metadata_kinds();
    assert forall|k: Seq<u8>| is_png_metadata_kind(k) <==> is_text_exif_icc_or_time_chunk(k) by {
        if is_png_metadata_kind(k) {
            let j = choose|j: int| 0 <= j < kinds.len() && kinds[j] == k;
        }
        if is_text_exif_icc_or_time_chunk(k) {
            if k == kinds[0] {} else if k == kinds[1] {} else if k == kinds[2] {} else if k == kinds[3] {
            } else if k == kinds[4] {} else {
                assert(k == kinds[5]);
            }
            assert(kinds[0] == seq![0x74u8, 0x45u8, 0x58u8, 0x74u8]);
        }
    }
}

} // verus!
