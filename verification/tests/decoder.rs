use lingua::file_io::{ClipArchive, Dictionary, JsonArrayDecoder};

fn record_json(traditional: &str, pinyin: &str) -> String {
    let mut s = String::new();
    s.push_str("{\"traditional\":\"");
    s.push_str(traditional);
    s.push_str("\",\"simplified\":\"");
    s.push_str(traditional);
    s.push_str("\",\"english\":\"x\",\"pinyin\":\"");
    s.push_str(pinyin);
    s.push_str("\"}");
    s
}

fn zlib_compress(data: &[u8]) -> Vec<u8> {
    let mut enc = flate2::write::ZlibEncoder::new(Vec::new(), flate2::Compression::default());
    std::io::Write::write_all(&mut enc, data).unwrap();
    enc.finish().unwrap()
}

#[test]
fn test_empty_array_yields_no_records() {
    let src = b"[]".to_vec();
    let mut dec = JsonArrayDecoder::new();
    assert!(matches!(dec.next_record(&src), Ok(None)));
    assert!(matches!(dec.next_record(&src), Ok(None)));
}

#[test]
fn test_single_record_stream() {
    let mut text = String::from("[");
    text.push_str(&record_json("請", "qǐng"));
    text.push(']');
    let src = text.into_bytes();
    let mut dec = JsonArrayDecoder::new();
    let first = dec.next_record(&src).unwrap().unwrap();
    assert_eq!(first.traditional, "請");
    assert_eq!(first.pinyin, "qǐng");
    assert_eq!(first.english, "x");
    assert!(matches!(dec.next_record(&src), Ok(None)));
}

#[test]
fn test_truncated_stream_is_a_format_error() {
    let mut text = String::from("[");
    text.push_str(&record_json("請", "qǐng"));
    // no closing bracket
    let src = text.into_bytes();
    let mut dec = JsonArrayDecoder::new();
    let first = dec.next_record(&src).unwrap().unwrap();
    assert_eq!(first.traditional, "請");
    assert!(dec.next_record(&src).is_err());
}

#[test]
fn test_leading_garbage_is_a_format_error() {
    let src = b"x[]".to_vec();
    let mut dec = JsonArrayDecoder::new();
    assert!(dec.next_record(&src).is_err());
}

#[test]
fn test_whitespace_around_framing_is_skipped() {
    let mut text = String::from("  [\n ");
    text.push_str(&record_json("你", "nǐ"));
    text.push_str(" ,\t");
    text.push_str(&record_json("好", "hǎo"));
    text.push_str(" ]");
    let src = text.into_bytes();
    let mut dec = JsonArrayDecoder::new();
    assert_eq!(dec.next_record(&src).unwrap().unwrap().traditional, "你");
    assert_eq!(dec.next_record(&src).unwrap().unwrap().traditional, "好");
    assert!(matches!(dec.next_record(&src), Ok(None)));
}

#[test]
fn test_malformed_record_is_skipped() {
    // A well-formed JSON value of the wrong shape is read over; the scan
    // continues at the next delimiter.
    let mut text = String::from("[5,{\"traditional\":\"甲\"},");
    text.push_str(&record_json("好", "hǎo"));
    text.push(']');
    let src = text.into_bytes();
    let mut dec = JsonArrayDecoder::new();
    let rec = dec.next_record(&src).unwrap().unwrap();
    assert_eq!(rec.traditional, "好");
    assert!(matches!(dec.next_record(&src), Ok(None)));
}

#[test]
fn test_lookup_finds_first_match_only() {
    let mut text = String::from("[");
    text.push_str(&record_json("你", "nǐ"));
    text.push(',');
    text.push_str(&record_json("你", "LATER"));
    text.push(']');
    let dict = Dictionary::new(text.into_bytes());
    assert_eq!(dict.lookup_pinyin("你"), Some("nǐ".to_string()));
    assert_eq!(dict.lookup_pinyin("好"), None);
}

#[test]
fn test_lookup_on_malformed_stream_is_not_found() {
    let dict = Dictionary::new(b"not json at all".to_vec());
    assert_eq!(dict.lookup_pinyin("你"), None);
}

#[test]
fn test_dictionary_from_compressed_bytes() {
    let mut text = String::from("[");
    text.push_str(&record_json("請", "qǐng"));
    text.push(']');
    let compressed = zlib_compress(text.as_bytes());
    let dict = Dictionary::from_compressed(&compressed).unwrap();
    assert_eq!(dict.lookup_pinyin("請"), Some("qǐng".to_string()));
}

#[test]
fn test_corrupt_compressed_dictionary_fails_at_startup() {
    let garbage = b"\x01\x02\x03\x04".to_vec();
    assert!(Dictionary::from_compressed(&garbage).is_err());
}

#[test]
fn test_archive_lookup_by_exact_name() {
    let mut builder = tar::Builder::new(Vec::new());
    let clip = b"CLIPBYTES".to_vec();
    let mut header = tar::Header::new_gnu();
    header.set_size(clip.len() as u64);
    header.set_cksum();
    builder.append_data(&mut header, "qing3_MV1.mp3", &clip[..]).unwrap();
    let other = b"OTHER".to_vec();
    let mut header2 = tar::Header::new_gnu();
    header2.set_size(other.len() as u64);
    header2.set_cksum();
    builder.append_data(&mut header2, "le_FV2.mp3", &other[..]).unwrap();
    let tar_bytes = builder.into_inner().unwrap();

    let archive = ClipArchive::from_compressed(&zlib_compress(&tar_bytes)).unwrap();
    assert_eq!(archive.get_audio_file_from_compressed_archive("qing3_MV1.mp3"), clip);
    assert_eq!(archive.get_audio_file_from_compressed_archive("le_FV2.mp3"), other);
    // a missing clip is silence, not a fault
    assert_eq!(
        archive.get_audio_file_from_compressed_archive("hao3_MV2.mp3"),
        Vec::<u8>::new()
    );
}
