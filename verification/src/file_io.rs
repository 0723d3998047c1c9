//! The streaming dictionary decoder and the clip archive.
//!
//! The dictionary is one zlib-compressed file whose decompressed content is a
//! JSON array of records. The decoder walks the array incrementally — skip
//! whitespace, `[`, then records separated by `,` until `]` — and stops the
//! moment the caller has what it needs; it never materializes the whole
//! corpus. Array framing is parsed and verified here byte by byte; reading
//! one JSON value (and decompression itself) is delegated to outside crates
//! through the trusted items below.

use vstd::prelude::*;
use vstd::string::StringExecFns;

use crate::models::{spec_opt_strings_view, BaseModel, BaseModelDto, DictObject, ToBaseModel};

verus! {

/// Malformed array framing, bytes that are not a JSON value where a record
/// was expected, or a premature end of the record stream.
#[derive(Clone, Copy, Debug, PartialEq, Eq, Structural)]
pub struct StreamFormatError;

/// A compressed source that could not be decompressed at startup.
#[derive(Clone, Copy, Debug, PartialEq, Eq, Structural)]
pub struct StartupLoadError;

/// What the zlib stream at the front of `s` decompresses to, or `None` when
/// the bytes are not a well-formed zlib stream. Decompression is a function
/// of the bytes alone.
pub uninterp spec fn zlib_inflate(s: Seq<u8>) -> Option<Seq<u8>>;

/// Relies on flate2::read::ZlibDecoder: decompresses the byte buffer, and
/// reports a corrupt stream as an error.
#[verifier::external_body]
fn inflate(data: &Vec<u8>) -> (r: Option<Vec<u8>>)
    ensures
        match r {
            Some(v) => zlib_inflate(data@) == Some(v@),
            None => zlib_inflate(data@) is None,
        },
{
    let mut decoder = flate2::read::ZlibDecoder::new(&data[..]);
    let mut out = Vec::new();
    match std::io::Read::read_to_end(&mut decoder, &mut out) {
        Ok(_) => Some(out),
        Err(_) => None,
    }
}

/// Result of reading one JSON value from the front of `s`: `None` when the
/// bytes do not begin with a well-formed JSON value; otherwise
/// `Some((used, fields))`, where `used` counts the bytes the value occupies
/// (leading whitespace included) and `fields` holds the four string fields
/// `(traditional, simplified, english, pinyin)` when the value is an object
/// with string values under all four keys, and `None` for a value of any
/// other shape.
pub uninterp spec fn json_record_of(s: Seq<u8>) -> Option<
    (int, Option<(Seq<char>, Seq<char>, Seq<char>, Seq<char>)>),
>;

/// Relies on serde_json's StreamDeserializer: it reads exactly one JSON value
/// from the front of the given slice and tells how many bytes it used. A
/// value of the wrong shape is still consumed whole; only its fields are
/// refused.
#[verifier::external_body]
fn parse_record(src: &Vec<u8>, pos: usize) -> (r: Option<(usize, Option<DictObject>)>)
    requires
        pos <= src@.len(),
    ensures
        match r {
            Some((end, rec)) => {
                &&& pos < end <= src@.len()
                &&& json_record_of(src@.skip(pos as int)) matches Some((used, fields))
                &&& used == end - pos
                &&& match rec {
                    Some(d) => fields == Some(
                        (d.traditional@, d.simplified@, d.english@, d.pinyin@),
                    ),
                    None => fields is None,
                }
            },
            None => json_record_of(src@.skip(pos as int)) is None,
        },
{
    let mut it = serde_json::Deserializer::from_slice(&src[pos..]).into_iter::<serde_json::Value>();
    let v = match it.next() { Some(Ok(v)) => v, _ => return None };
    let end = pos + it.byte_offset();
    let rec = match serde_json::from_value::<std::collections::BTreeMap<String, String>>(v) {
        Ok(mut m) => match (m.remove("traditional"), m.remove("simplified"), m.remove("english"), m.remove("pinyin")) {
            (Some(t), Some(s), Some(e), Some(p)) => Some(DictObject { traditional: t, simplified: s, english: e, pinyin: p }),
            _ => None,
        },
        Err(_) => None,
    };
    Some((end, rec))
}

/// The blank bytes the scan steps over between tokens of the array.
pub open spec fn spec_is_json_space(b: u8) -> bool {
    b == 32 || b == 9 || b == 10 || b == 13 || b == 12
}

/// Index of the first non-blank byte at or after `i`, or the length of the
/// stream when only blanks remain.
pub open spec fn spec_skip_ws(s: Seq<u8>, i: int) -> int
    decreases s.len() - i,
{
    if i < 0 || i >= s.len() {
        s.len() as int
    } else if spec_is_json_space(s[i]) {
        spec_skip_ws(s, i + 1)
    } else {
        i
    }
}

proof fn lemma_skip_ws_bounds(s: Seq<u8>, i: int)
    requires
        0 <= i <= s.len(),
    ensures
        i <= spec_skip_ws(s, i) <= s.len(),
    decreases s.len() - i,
{
    if i < s.len() && spec_is_json_space(s[i]) {
        lemma_skip_ws_bounds(s, i + 1);
    }
}

/// Whether a byte is one of the blank bytes of the stream.
fn is_json_space(b: u8) -> (r: bool)
    ensures
        r == spec_is_json_space(b),
{
    b == 32 || b == 9 || b == 10 || b == 13 || b == 12
}

/// First non-blank position at or after `pos`.
fn skip_ws(src: &Vec<u8>, pos: usize) -> (r: usize)
    requires
        pos <= src@.len(),
    ensures
        r == spec_skip_ws(src@, pos as int),
        pos <= r <= src@.len(),
{
    let mut i = pos;
    loop
        invariant
            pos <= i <= src@.len(),
            spec_skip_ws(src@, pos as int) == spec_skip_ws(src@, i as int),
        ensures
            pos <= i <= src@.len(),
            spec_skip_ws(src@, pos as int) == i as int,
        decreases src@.len() - i,
    {
        if i == src.len() {
            break ;
        }
        if !is_json_space(src[i]) {
            break ;
        }
        i = i + 1;
    }
    i
}

/// Outcome of one step of the array scan, at specification level: a record
/// was read, a malformed record was read over and skipped, the array ended,
/// or the framing is broken.
pub enum ScanStep {
    Yield {
        traditional: Seq<char>,
        simplified: Seq<char>,
        english: Seq<char>,
        pinyin: Seq<char>,
        next: int,
    },
    Skip { next: int },
    End,
    Fail,
}

/// Reading one record starting at position `q` of the stream.
pub open spec fn spec_parse_at(s: Seq<u8>, q: int) -> ScanStep
    recommends
        0 <= q <= s.len(),
{
    match json_record_of(s.skip(q)) {
        None => ScanStep::Fail,
        Some((used, fields)) => {
            if 1 <= used && q + used <= s.len() {
                match fields {
                    Some(f) => ScanStep::Yield {
                        traditional: f.0,
                        simplified: f.1,
                        english: f.2,
                        pinyin: f.3,
                        next: q + used,
                    },
                    None => ScanStep::Skip { next: q + used },
                }
            } else {
                ScanStep::Fail
            }
        },
    }
}

/// One step of the scan from position `pos`. Before the first record
/// (`started` false) the stream must open with `[`, and a `]` right after it
/// ends the empty array. After a record (`started` true) one byte decides:
/// `,` continues with the next record, `]` ends the array, anything else —
/// or a premature end of the stream — breaks the framing.
pub open spec fn spec_step(s: Seq<u8>, pos: int, started: bool) -> ScanStep
    recommends
        0 <= pos <= s.len(),
{
    if !started {
        let k = spec_skip_ws(s, pos);
        if k >= s.len() {
            ScanStep::Fail
        } else if s[k] != 91 {
            ScanStep::Fail
        } else {
            let q = spec_skip_ws(s, k + 1);
            if q >= s.len() {
                ScanStep::Fail
            } else if s[q] == 93 {
                ScanStep::End
            } else {
                spec_parse_at(s, q)
            }
        }
    } else {
        let k = spec_skip_ws(s, pos);
        if k >= s.len() {
            ScanStep::Fail
        } else if s[k] == 93 {
            ScanStep::End
        } else if s[k] == 44 {
            spec_parse_at(s, spec_skip_ws(s, k + 1))
        } else {
            ScanStep::Fail
        }
    }
}

proof fn lemma_step_progress(s: Seq<u8>, pos: int, started: bool)
    requires
        0 <= pos <= s.len(),
    ensures
        spec_step(s, pos, started) matches ScanStep::Yield { next, .. } ==> pos < next <= s.len(),
        spec_step(s, pos, started) matches ScanStep::Skip { next } ==> pos < next <= s.len(),
{
    lemma_skip_ws_bounds(s, pos);
    let k = spec_skip_ws(s, pos);
    if k < s.len() {
        lemma_skip_ws_bounds(s, k + 1);
    }
}

/// The scan from position `pos` up to the next record, the end of the array,
/// or a framing fault, reading over skipped records on the way.
pub open spec fn spec_scan(s: Seq<u8>, pos: int, started: bool) -> ScanStep
    recommends
        0 <= pos <= s.len(),
    decreases s.len() - pos,
{
    match spec_step(s, pos, started) {
        ScanStep::Skip { next } => if pos < next <= s.len() {
            spec_scan(s, next, true)
        } else {
            ScanStep::Fail
        },
        other => other,
    }
}

/// The phonetic field of the first record whose traditional field equals the
/// key, scanning from position `pos`; `None` when no record matches, the
/// array ends, or the stream is malformed.
pub open spec fn spec_lookup(s: Seq<u8>, pos: int, started: bool, key: Seq<char>) -> Option<
    Seq<char>,
>
    recommends
        0 <= pos <= s.len(),
    decreases s.len() - pos,
{
    match spec_step(s, pos, started) {
        ScanStep::Yield { traditional, pinyin, next, .. } => {
            if traditional == key {
                Some(pinyin)
            } else if pos < next <= s.len() {
                spec_lookup(s, next, true, key)
            } else {
                None
            }
        },
        ScanStep::Skip { next } => {
            if pos < next <= s.len() {
                spec_lookup(s, next, true, key)
            } else {
                None
            }
        },
        ScanStep::End => None,
        ScanStep::Fail => None,
    }
}

/// How the lookup relates to the scan: a scan that yields a record either
/// settles the lookup (on a key match) or leaves the rest of it to the
/// stream after that record, and a scan that ends or fails settles it to
/// "not found".
pub proof fn lemma_lookup_via_scan(s: Seq<u8>, pos: int, started: bool, key: Seq<char>)
    requires
        0 <= pos <= s.len(),
    ensures
        spec_scan(s, pos, started) matches ScanStep::Yield { traditional, pinyin, next, .. }
            ==> pos < next <= s.len() && spec_lookup(s, pos, started, key) == (
        if traditional == key {
            Some(pinyin)
        } else {
            spec_lookup(s, next, true, key)
        }),
        spec_scan(s, pos, started) is End ==> spec_lookup(s, pos, started, key) is None,
        spec_scan(s, pos, started) is Fail ==> spec_lookup(s, pos, started, key) is None,
    decreases s.len() - pos,
{
    lemma_step_progress(s, pos, started);
    match spec_step(s, pos, started) {
        ScanStep::Skip { next } => {
            if pos < next <= s.len() {
                lemma_lookup_via_scan(s, next, true, key);
            }
        },
        _ => {},
    }
}

/// Incremental reader of the record array: the position reached so far,
/// whether the opening `[` and a first record have been passed, and whether
/// the array's closing `]` has been seen.
pub struct JsonArrayDecoder {
    pub pos: usize,
    pub started: bool,
    pub done: bool,
}

impl JsonArrayDecoder {
    /// The decoder's position stays inside the stream it reads.
    pub open spec fn wf(&self, s: Seq<u8>) -> bool {
        self.pos <= s.len()
    }

    /// A decoder at the start of a stream.
    pub fn new() -> (r: Self)
        ensures
            r.pos == 0,
            !r.started,
            !r.done,
    {
        JsonArrayDecoder { pos: 0, started: false, done: false }
    }

    /// The next record of the array, reading over malformed records;
    /// `Ok(None)` once the array has ended, and an error when the framing is
    /// broken or the stream ends early. Each returned record is exactly what
    /// the scan from the current position yields.
    pub fn next_record(&mut self, src: &Vec<u8>) -> (r: Result<
        Option<DictObject>,
        StreamFormatError,
    >)
        requires
            old(self).wf(src@),
        ensures
            final(self).wf(src@),
            old(self).done ==> (r matches Ok(rec) && rec is None && *final(self) == *old(self)),
            !old(self).done ==> match r {
                Ok(Some(rec)) => {
                    &&& spec_scan(src@, old(self).pos as int, old(self).started)
                        matches ScanStep::Yield { traditional, simplified, english, pinyin, next }
                    &&& rec.traditional@ == traditional
                    &&& rec.simplified@ == simplified
                    &&& rec.english@ == english
                    &&& rec.pinyin@ == pinyin
                    &&& final(self).pos == next
                    &&& final(self).started
                    &&& !final(self).done
                },
                Ok(None) => spec_scan(src@, old(self).pos as int, old(self).started) is End
                    && final(self).done,
                Err(_) => spec_scan(src@, old(self).pos as int, old(self).started) is Fail,
            },
    {
        if self.done {
            return Ok(None);
        }
        loop
            invariant
                old(self).wf(src@),
                !old(self).done,
                self.pos <= src@.len(),
                !self.done,
                spec_scan(src@, old(self).pos as int, old(self).started) == spec_scan(
                    src@,
                    self.pos as int,
                    self.started,
                ),
            decreases src@.len() - self.pos,
        {
            let k = skip_ws(src, self.pos);
            if !self.started {
                if k == src.len() {
                    return Err(StreamFormatError);
                }
                if src[k] != 91 {
                    return Err(StreamFormatError);
                }
                let q = skip_ws(src, k + 1);
                if q == src.len() {
                    return Err(StreamFormatError);
                }
                if src[q] == 93 {
                    self.pos = q;
                    self.started = true;
                    self.done = true;
                    return Ok(None);
                }
                match parse_record(src, q) {
                    None => {
                        return Err(StreamFormatError);
                    },
                    Some((end, Some(rec))) => {
                        self.pos = end;
                        self.started = true;
                        return Ok(Some(rec));
                    },
                    Some((end, None)) => {
                        self.pos = end;
                        self.started = true;
                    },
                }
            } else {
                if k == src.len() {
                    return Err(StreamFormatError);
                }
                if src[k] == 93 {
                    self.pos = k;
                    self.done = true;
                    return Ok(None);
                }
                if src[k] != 44 {
                    return Err(StreamFormatError);
                }
                let q = skip_ws(src, k + 1);
                match parse_record(src, q) {
                    None => {
                        return Err(StreamFormatError);
                    },
                    Some((end, Some(rec))) => {
                        self.pos = end;
                        return Ok(Some(rec));
                    },
                    Some((end, None)) => {
                        self.pos = end;
                    },
                }
            }
        }
    }
}

/// The dictionary: the decompressed content of the compressed dictionary
/// file, a JSON-array-shaped sequence of records, scanned from the start on
/// every lookup. There is no index, by design; callers amortize the linear
/// scans through their own memoization.
pub struct Dictionary {
    bytes: Vec<u8>,
}

impl View for Dictionary {
    type V = Seq<u8>;

    closed spec fn view(&self) -> Seq<u8> {
        self.bytes@
    }
}

impl Dictionary {
    /// A dictionary over already-decompressed record-array bytes.
    pub fn new(bytes: Vec<u8>) -> (r: Self)
        ensures
            r@ == bytes@,
    {
        Dictionary { bytes }
    }

    /// A dictionary read from the compressed file's bytes; fails exactly
    /// when the bytes are not a well-formed zlib stream.
    pub fn from_compressed(data: &Vec<u8>) -> (r: Result<Self, StartupLoadError>)
        ensures
            match r {
                Ok(d) => zlib_inflate(data@) == Some(d@),
                Err(_) => zlib_inflate(data@) is None,
            },
    {
        match inflate(data) {
            Some(bytes) => Ok(Dictionary { bytes }),
            None => Err(StartupLoadError),
        }
    }

    /// The phonetic field of the first record whose traditional field equals
    /// the key. A malformed stream ends the scan as "not found": format
    /// faults are invisible to the caller, as the resolution engine treats a
    /// missing record and a broken stream alike.
    pub fn lookup_pinyin(&self, key: &str) -> (r: Option<String>)
        ensures
            match r {
                Some(p) => spec_lookup(self@, 0, false, key@) == Some(p@),
                None => spec_lookup(self@, 0, false, key@) is None,
            },
    {
        let k = String::from_str(key);
        let mut dec = JsonArrayDecoder::new();
        loop
            invariant
                dec.wf(self@),
                !dec.done,
                k@ == key@,
                spec_lookup(self@, 0, false, key@) == spec_lookup(
                    self@,
                    dec.pos as int,
                    dec.started,
                    key@,
                ),
            decreases self@.len() - dec.pos,
        {
            proof {
                lemma_lookup_via_scan(self@, dec.pos as int, dec.started, key@);
            }
            match dec.next_record(&self.bytes) {
                Ok(Some(rec)) => {
                    if rec.traditional == k {
                        return Some(rec.pinyin);
                    }
                },
                Ok(None) => {
                    return None;
                },
                Err(_) => {
                    return None;
                },
            }
        }
    }
}

/// The stored vocabulary entries turned into working entries, in order,
/// each with an empty phonetic cache.
pub fn read_phrases(values: Vec<BaseModelDto>) -> (r: Vec<BaseModel>)
    ensures
        r@.len() == values@.len(),
        forall|i: int|
            0 <= i < values@.len() ==> {
                &&& (#[trigger] r@[i]).traditional@ == values@[i].traditional@
                &&& r@[i].simplified@ == values@[i].simplified@
                &&& r@[i].english@ == values@[i].english@
                &&& spec_opt_strings_view(r@[i].notes) == spec_opt_strings_view(values@[i].notes)
                &&& !r@[i].pinyin_fetched
                &&& r@[i].pinyin is None
            },
{
    let mut out: Vec<BaseModel> = Vec::new();
    let mut i: usize = 0;
    while i < values.len()
        invariant
            i <= values@.len(),
            out@.len() == i,
            forall|k: int|
                0 <= k < i ==> {
                    &&& (#[trigger] out@[k]).traditional@ == values@[k].traditional@
                    &&& out@[k].simplified@ == values@[k].simplified@
                    &&& out@[k].english@ == values@[k].english@
                    &&& spec_opt_strings_view(out@[k].notes) == spec_opt_strings_view(values@[k].notes)
                    &&& !out@[k].pinyin_fetched
                    &&& out@[k].pinyin is None
                },
        decreases values@.len() - i,
    {
        out.push(values[i].to_base_model());
        i = i + 1;
    }
    out
}

/// The contents of the first entry named `name` in the tar archive bytes
/// `s`, or `None` when no entry of that name can be reached. Which entry
/// that is depends on the archive bytes and the name alone.
pub uninterp spec fn tar_entry_of(s: Seq<u8>, name: Seq<char>) -> Option<Seq<u8>>;

/// Relies on tar::Archive: entries are walked in order and the first whose
/// path equals the name is read whole; a fault in the archive before a
/// match is reached ends the walk empty-handed.
#[verifier::external_body]
fn archive_find(tar_bytes: &Vec<u8>, name: &str) -> (r: Option<Vec<u8>>)
    ensures
        match r {
            Some(v) => tar_entry_of(tar_bytes@, name@) == Some(v@),
            None => tar_entry_of(tar_bytes@, name@) is None,
        },
{
    let mut archive = tar::Archive::new(&tar_bytes[..]);
    let entries = match archive.entries() { Ok(e) => e, Err(_) => return None };
    for entry in entries {
        let mut file = match entry { Ok(f) => f, Err(_) => return None };
        let found = match file.path() { Ok(p) => p.to_str() == Some(name), Err(_) => false };
        if found {
            let mut buf = Vec::new();
            return std::io::Read::read_to_end(&mut file, &mut buf).ok().map(|_| buf);
        }
    }
    None
}

/// The bytes played for a clip name: the archive entry of that name, or an
/// empty buffer — presented as silence — when the archive holds no such
/// entry.
pub open spec fn spec_clip(tar: Seq<u8>, name: Seq<char>) -> Seq<u8> {
    match tar_entry_of(tar, name) {
        Some(d) => d,
        None => seq![],
    }
}

/// The precomputed clip archive: one tar container, itself stream-compressed
/// on disk, holding many small audio files looked up by exact name through a
/// sequential scan.
pub struct ClipArchive {
    tar: Vec<u8>,
}

impl View for ClipArchive {
    type V = Seq<u8>;

    closed spec fn view(&self) -> Seq<u8> {
        self.tar@
    }
}

impl ClipArchive {
    /// An archive over already-decompressed tar bytes.
    pub fn new(tar: Vec<u8>) -> (r: Self)
        ensures
            r@ == tar@,
    {
        ClipArchive { tar }
    }

    /// An archive read from the compressed file's bytes; fails exactly when
    /// the bytes are not a well-formed zlib stream.
    pub fn from_compressed(data: &Vec<u8>) -> (r: Result<Self, StartupLoadError>)
        ensures
            match r {
                Ok(a) => zlib_inflate(data@) == Some(a@),
                Err(_) => zlib_inflate(data@) is None,
            },
    {
        match inflate(data) {
            Some(tar) => Ok(ClipArchive { tar }),
            None => Err(StartupLoadError),
        }
    }

    /// The audio bytes stored under the given file name, or an empty buffer
    /// when the archive has no entry of that name — a missing clip is not a
    /// fault, it is played as silence.
    pub fn get_audio_file_from_compressed_archive(&self, file_name: &str) -> (r: Vec<u8>)
        ensures
            r@ == spec_clip(self@, file_name@),
    {
        match archive_find(&self.tar, file_name) {
            Some(buf) => buf,
            None => Vec::new(),
        }
    }
}

} // verus!
