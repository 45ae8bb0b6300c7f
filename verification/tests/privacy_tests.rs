use std::path::PathBuf;

use whatnull::images::{inspect_jpeg, inspect_png, strip_jpeg_metadata, strip_png_metadata};
use whatnull::pdf::{finish_pdf_strip, prepare_pdf, strip_pdf_metadata};
use whatnull::privacy::{
    detect_file_type, ffmpeg_strip_args, file_type_for_extension, inspect_failure,
    inspect_metadata, sibling_file_name, sibling_output_path, strip_av_metadata, strip_failure,
    strip_metadata, FfmpegRun, MetadataError, StripMethod, StripResult,
};
use whatnull::types::AppError;

const JPEG_APP0_JFIF: u8 = 0xE0;
const JPEG_APP1_EXIF_XMP: u8 = 0xE1;

fn minimal_jpeg_with_exif() -> Vec<u8> {
    let soi: &[u8] = &[0xFF, 0xD8];
    let app0_jfif: &[u8] = &[
        0xFF, 0xE0, 0x00, 0x10, b'J', b'F', b'I', b'F', 0x00, 0x01, 0x01, 0x00, 0x00, 0x01,
        0x00, 0x01, 0x00, 0x00,
    ];
    let app1_exif: &[u8] = &[0xFF, 0xE1, 0x00, 0x08, b'E', b'x', b'i', b'f', 0x00, 0x00];
    let sof0: &[u8] = &[
        0xFF, 0xC0, 0x00, 0x0B, 0x08, 0x00, 0x01, 0x00, 0x01, 0x01, 0x01, 0x11, 0x00,
    ];
    let sos: &[u8] = &[
        0xFF, 0xDA, 0x00, 0x08, 0x01, 0x01, 0x00, 0x00, 0x3F, 0x00, 0x00,
    ];
    let eoi: &[u8] = &[0xFF, 0xD9];

    let mut bytes = Vec::new();
    for part in [soi, app0_jfif, app1_exif, sof0, sos, eoi] {
        bytes.extend_from_slice(part);
    }
    bytes
}

fn has_marker(bytes: &[u8], marker: u8) -> bool {
    img_parts::jpeg::Jpeg::from_bytes(bytes.to_vec().into())
        .unwrap()
        .segments()
        .iter()
        .any(|segment| segment.marker() == marker)
}

fn png_chunk(kind: &[u8; 4], contents: &[u8]) -> Vec<u8> {
    img_parts::png::PngChunk::new(*kind, img_parts::Bytes::copy_from_slice(contents))
        .encoder()
        .bytes()
        .to_vec()
}

fn minimal_png_with_text() -> Vec<u8> {
    let mut bytes = vec![0x89, b'P', b'N', b'G', 0x0D, 0x0A, 0x1A, 0x0A];
    let ihdr = [0, 0, 0, 1, 0, 0, 0, 1, 8, 0, 0, 0, 0];
    bytes.extend(png_chunk(b"IHDR", &ihdr));
    bytes.extend(png_chunk(b"tEXt", b"Author\0Alice"));
    bytes.extend(png_chunk(b"tIME", &[0x07, 0xE8, 1, 2, 3, 4, 5]));
    bytes.extend(png_chunk(b"IDAT", &[0x78, 0x9C, 0x63, 0x60, 0x00, 0x00, 0x00, 0x02, 0x00, 0x01]));
    bytes.extend(png_chunk(b"IEND", &[]));
    bytes
}

fn png_kinds(bytes: &[u8]) -> Vec<[u8; 4]> {
    img_parts::png::Png::from_bytes(bytes.to_vec().into())
        .unwrap()
        .chunks()
        .iter()
        .map(|c| c.kind())
        .collect()
}

fn pdf_with_info() -> Vec<u8> {
    let mut doc = lopdf::Document::with_version("1.5");
    let mut pages = lopdf::Dictionary::new();
    pages.set("Type", lopdf::Object::Name(b"Pages".to_vec()));
    pages.set("Kids", lopdf::Object::Array(Vec::new()));
    pages.set("Count", lopdf::Object::Integer(0));
    let pages_id = doc.add_object(lopdf::Object::Dictionary(pages));
    let mut catalog = lopdf::Dictionary::new();
    catalog.set("Type", lopdf::Object::Name(b"Catalog".to_vec()));
    catalog.set("Pages", lopdf::Object::Reference(pages_id));
    let catalog_id = doc.add_object(lopdf::Object::Dictionary(catalog));
    let mut info = lopdf::Dictionary::new();
    info.set("Author", lopdf::Object::string_literal("Alice"));
    info.set("Title", lopdf::Object::string_literal("Secret plans"));
    let info_id = doc.add_object(lopdf::Object::Dictionary(info));
    doc.trailer.set("Root", lopdf::Object::Reference(catalog_id));
    doc.trailer.set("Info", lopdf::Object::Reference(info_id));
    let mut out = Vec::new();
    doc.save_to(&mut out).unwrap();
    out
}

#[test]
fn test_detect_file_type() {
    assert_eq!(detect_file_type("photo.jpg").as_deref(), Some("jpeg"));
    assert_eq!(detect_file_type("photo.JPEG").as_deref(), Some("jpeg"));
    assert_eq!(detect_file_type("image.png").as_deref(), Some("png"));
    assert_eq!(detect_file_type("video.mp4").as_deref(), Some("video"));
    assert_eq!(detect_file_type("doc.pdf").as_deref(), Some("pdf"));
    assert_eq!(detect_file_type("noext"), None);
}

#[test]
fn other_extensions_name_their_own_type() {
    assert_eq!(detect_file_type("song.FLAC").as_deref(), Some("audio"));
    assert_eq!(detect_file_type("anim.gif").as_deref(), Some("gif"));
    assert_eq!(detect_file_type("archive.tar.GZ").as_deref(), Some("gz"));
    assert_eq!(file_type_for_extension("webm"), "video");
    assert_eq!(file_type_for_extension("m4a"), "audio");
    assert_eq!(file_type_for_extension("xyz"), "xyz");
}

#[test]
fn test_unsupported_file_type() {
    let result = strip_metadata("/tmp/test.xyz");
    assert!(result.is_err());
    match result {
        Err(MetadataError::UnsupportedFileType(_)) => {}
        _ => panic!("Expected UnsupportedFileType error"),
    }
}

#[test]
fn strip_metadata_picks_the_stripper_by_type() {
    assert_eq!(strip_metadata("/a/b.JPG").unwrap(), StripMethod::Jpeg);
    assert_eq!(strip_metadata("b.png").unwrap(), StripMethod::Png);
    assert_eq!(strip_metadata("b.pdf").unwrap(), StripMethod::Pdf);
    assert_eq!(strip_metadata("b.mkv").unwrap(), StripMethod::AudioVideo);
    assert_eq!(strip_metadata("b.wav").unwrap(), StripMethod::AudioVideo);
    match strip_metadata("b.gif") {
        Err(MetadataError::UnsupportedFileType(m)) => {
            assert_eq!(m, "No metadata stripper for type: gif")
        }
        other => panic!("unexpected {:?}", other),
    }
    match strip_metadata("/tmp/noext") {
        Err(MetadataError::UnsupportedFileType(m)) => assert_eq!(m, "Unknown file extension"),
        other => panic!("unexpected {:?}", other),
    }
}

#[test]
fn sibling_output_path_keeps_the_container_extension() {
    assert_eq!(
        PathBuf::from(sibling_output_path("/tmp/clip.mp4")),
        PathBuf::from("/tmp/clip.whatnull-stripped.mp4")
    );
    assert_eq!(
        PathBuf::from(sibling_output_path("/tmp/song.MP3")),
        PathBuf::from("/tmp/song.whatnull-stripped.MP3")
    );
    assert_eq!(
        PathBuf::from(sibling_output_path("/tmp/noext")),
        PathBuf::from("/tmp/noext.whatnull-stripped")
    );
}

#[test]
fn sibling_file_name_without_a_stem() {
    assert_eq!(sibling_file_name(None, None), "whatnull.whatnull-stripped");
    assert_eq!(
        sibling_file_name(Some("a".to_string()), Some("b".to_string())),
        "a.whatnull-stripped.b"
    );
}

#[test]
fn strip_jpeg_metadata_removes_the_exif_segment_and_keeps_jfif() {
    let source = minimal_jpeg_with_exif();
    assert!(has_marker(&source, JPEG_APP1_EXIF_XMP));

    let stripped = strip_jpeg_metadata("exif.jpg".to_string(), &source).unwrap();

    assert!(!has_marker(&stripped.contents, JPEG_APP1_EXIF_XMP));
    assert!(has_marker(&stripped.contents, JPEG_APP0_JFIF));
    assert!(stripped
        .result
        .fields_removed
        .iter()
        .any(|field| field.contains("EXIF")));
    assert_eq!(stripped.result.file_path, "exif.jpg");
    assert_eq!(stripped.result.original_size, source.len() as u64);
    assert_eq!(stripped.result.stripped_size, stripped.contents.len() as u64);
    assert_eq!(stripped.result.bytes_removed, 10);
    assert_eq!(
        stripped.result.fields_removed,
        vec!["EXIF (GPS, camera, timestamps)".to_string()]
    );
}

#[test]
fn strip_jpeg_metadata_refuses_what_is_not_a_jpeg() {
    match strip_jpeg_metadata("x.jpg".to_string(), b"not a jpeg") {
        Err(MetadataError::ImageProcessing(m)) => assert!(m.starts_with("Failed to parse JPEG: ")),
        other => panic!("unexpected {:?}", other),
    }
}

#[test]
fn strip_png_metadata_removes_text_and_time_chunks() {
    let source = minimal_png_with_text();
    let stripped = strip_png_metadata("a.png".to_string(), &source).unwrap();
    assert_eq!(
        stripped.result.fields_removed,
        vec!["PNG tEXt chunk".to_string(), "PNG tIME chunk".to_string()]
    );
    assert_eq!(png_kinds(&stripped.contents), vec![*b"IHDR", *b"IDAT", *b"IEND"]);
    assert_eq!(stripped.result.original_size, source.len() as u64);
    assert_eq!(stripped.result.bytes_removed, (12 + 12) + (12 + 7));
}

#[test]
fn strip_png_metadata_refuses_what_is_not_a_png() {
    match strip_png_metadata("x.png".to_string(), b"GIF89a") {
        Err(MetadataError::ImageProcessing(m)) => assert!(m.starts_with("Failed to parse PNG: ")),
        other => panic!("unexpected {:?}", other),
    }
}

#[test]
fn strip_pdf_metadata_drops_the_info_dictionary() {
    let source = pdf_with_info();
    let stripped = strip_pdf_metadata("doc.pdf".to_string(), &source).unwrap();
    let fields = &stripped.result.fields_removed;
    assert!(fields.contains(&"PDF trailer Info dictionary".to_string()));
    assert!(fields.contains(&"PDF Author field".to_string()));
    assert!(fields.contains(&"PDF Title field".to_string()));
    let doc = lopdf::Document::load_mem(&stripped.contents).unwrap();
    assert!(doc.trailer.get(b"Info").is_err());
    for object in doc.objects.values() {
        if let lopdf::Object::Dictionary(d) = object {
            assert!(!d.has(b"Author"));
            assert!(!d.has(b"Title"));
        }
    }
}

#[test]
fn strip_pdf_metadata_refuses_what_is_not_a_pdf() {
    match strip_pdf_metadata("x.pdf".to_string(), b"hello") {
        Err(MetadataError::ImageProcessing(m)) => assert!(m.starts_with("Failed to parse PDF: ")),
        other => panic!("unexpected {:?}", other),
    }
}

#[test]
fn inspect_metadata_finds_exif_in_a_jpeg() {
    let info = inspect_metadata("p.jpg".to_string(), &minimal_jpeg_with_exif()).unwrap();
    assert_eq!(info.file_type, "jpeg");
    assert!(info.has_exif);
    assert!(!info.has_gps);
    assert_eq!(info.metadata_size_bytes, 6);
    assert_eq!(info.fields_found, vec!["EXIF data".to_string()]);
    let scan = inspect_jpeg(&minimal_jpeg_with_exif());
    assert!(scan.has_exif);
}

#[test]
fn inspect_metadata_finds_png_text_chunks() {
    let scan = inspect_png(&minimal_png_with_text());
    assert!(!scan.has_exif);
    assert_eq!(scan.size, 12 + 7);
    assert_eq!(
        scan.fields,
        vec!["tEXt text chunk".to_string(), "Modification time".to_string()]
    );
}

#[test]
fn inspect_metadata_lists_pdf_keys() {
    let bytes = b"%PDF-1.4 << /Author (A) /Producer (B) >>";
    let info = inspect_metadata("d.PDF".to_string(), bytes).unwrap();
    assert_eq!(info.file_type, "pdf");
    assert_eq!(
        info.fields_found,
        vec!["PDF /Author".to_string(), "PDF /Producer".to_string()]
    );
    assert_eq!(info.metadata_size_bytes, 7 + 9);
}

#[test]
fn inspect_metadata_of_other_types() {
    let info = inspect_metadata("v.mp4".to_string(), b"").unwrap();
    assert_eq!(info.file_type, "video");
    assert_eq!(
        info.fields_found,
        vec!["Metadata inspection not available for this type".to_string()]
    );
    match inspect_metadata("noext".to_string(), b"") {
        Err(MetadataError::UnsupportedFileType(m)) => assert_eq!(m, "Unknown extension"),
        other => panic!("unexpected {:?}", other),
    }
}

#[test]
fn strip_result_saturates_the_difference() {
    let r = StripResult::new("f".to_string(), 5, 9, Vec::new());
    assert_eq!(r.bytes_removed, 0);
    let r = StripResult::for_audio_video("f.mp3".to_string(), 100, 40);
    assert_eq!(r.bytes_removed, 60);
    assert_eq!(
        r.fields_removed,
        vec![
            "Video/Audio global metadata".to_string(),
            "Container metadata tags".to_string(),
            "Chapter metadata".to_string()
        ]
    );
}

#[test]
fn ffmpeg_is_asked_to_drop_all_metadata() {
    assert_eq!(
        ffmpeg_strip_args("/tmp/a.mp3", "/tmp/a.whatnull-stripped.mp3"),
        vec!["-i", "/tmp/a.mp3", "-map_metadata", "-1", "-c", "copy", "-y", "/tmp/a.whatnull-stripped.mp3"]
    );
}

#[test]
fn av_outcomes() {
    let ok = strip_av_metadata("/v.mp4".to_string(), 1000, FfmpegRun::Succeeded { stripped_size: 900 })
        .unwrap();
    assert_eq!(ok.bytes_removed, 100);
    assert_eq!(ok.stripped_size, 900);
    assert_eq!(ok.fields_removed.len(), 3);
    match strip_av_metadata("/v.mp4".to_string(), 1, FfmpegRun::Failed) {
        Err(MetadataError::ImageProcessing(m)) => assert_eq!(m, "ffmpeg exited with non-zero status"),
        other => panic!("unexpected {:?}", other),
    }
    match strip_av_metadata("/v.mp4".to_string(), 1, FfmpegRun::NotStarted) {
        Err(MetadataError::ImageProcessing(m)) => assert!(m.starts_with("ffmpeg not found.")),
        other => panic!("unexpected {:?}", other),
    }
}

#[test]
fn metadata_errors_are_reported_with_context() {
    let e = MetadataError::UnsupportedFileType("Unknown file extension".to_string());
    assert_eq!(e.message(), "Unsupported file type: Unknown file extension");
    match strip_failure(&e) {
        AppError::Internal(m) => assert_eq!(
            m,
            "Metadata strip failed: Unsupported file type: Unknown file extension"
        ),
        other => panic!("unexpected {:?}", other),
    }
    match inspect_failure(&MetadataError::Io("denied".to_string())) {
        AppError::Internal(m) => assert_eq!(m, "Metadata inspect failed: IO error: denied"),
        other => panic!("unexpected {:?}", other),
    }
}

#[test]
fn finishing_a_pdf_strip_checks_the_written_bytes() {
    let fields = vec!["PDF Author field".to_string()];
    match finish_pdf_strip("d.pdf".to_string(), 10, fields.clone(), Err("disk full".to_string())) {
        Err(MetadataError::ImageProcessing(m)) => assert_eq!(m, "Failed to write PDF: disk full"),
        other => panic!("unexpected {:?}", other),
    }
    match finish_pdf_strip("d.pdf".to_string(), 10, fields.clone(), Ok(b"not a pdf".to_vec())) {
        Err(MetadataError::ImageProcessing(m)) => {
            assert!(m.starts_with("Failed to reload stripped PDF: "))
        }
        other => panic!("unexpected {:?}", other),
    }
    match finish_pdf_strip("d.pdf".to_string(), 10, fields.clone(), Ok(pdf_with_info())) {
        Err(MetadataError::ImageProcessing(m)) => assert_eq!(m, "Stripped PDF still holds metadata"),
        other => panic!("unexpected {:?}", other),
    }
    let mut doc = lopdf::Document::load_mem(&pdf_with_info()).unwrap();
    let removed = prepare_pdf(&mut doc);
    assert!(removed.contains(&"PDF trailer Info dictionary".to_string()));
    let mut clean = Vec::new();
    doc.save_to(&mut clean).unwrap();
    let done = finish_pdf_strip("d.pdf".to_string(), 100_000, fields.clone(), Ok(clean.clone())).unwrap();
    assert_eq!(done.contents, clean);
    assert_eq!(done.result.fields_removed, fields);
    assert_eq!(done.result.stripped_size, clean.len() as u64);
    assert_eq!(done.result.bytes_removed, 100_000 - clean.len() as u64);
}
