//! Data model of the quiz: vocabulary entries with their memoized phonetic
//! transcriptions, tone derivation, and the audio-source resolver.

use vstd::prelude::*;
use vstd::string::{StrSliceExecFns, StringExecFns};

use crate::file_io::{spec_clip, ClipArchive, Dictionary};
use crate::utils::{
    contains_string, is_digit, join_with, lower_of, lowercase, match_tone, normalize_char, normalize_word,
    push_char, remove_spaces, spec_is_digit, spec_join, spec_match_tone, spec_normalize_char,
    random_below, spec_normalize_word, spec_remove_spaces, spec_tokens, spec_trim, split_spaces,
    trim_str, unicode_len_of_string,
};

verus! {

/// One record of the dictionary stream: a single character or word in its
/// traditional and simplified forms, an English gloss, and the phonetic
/// transcription. Records are transient: they live for one lookup only.
#[derive(Debug)]
pub struct DictObject {
    pub traditional: String,
    pub simplified: String,
    pub english: String,
    pub pinyin: String,
}

/// A vocabulary entry as it stands in the plain vocabulary file: parallel
/// lists of traditional-form words, simplified-form words and English
/// glosses, with optional free-text notes.
pub struct BaseModelDto {
    pub traditional: Vec<String>,
    pub simplified: Vec<String>,
    pub english: Vec<String>,
    pub notes: Option<Vec<String>>,
}

/// A vocabulary entry of the quiz. Besides the word lists it owns a lazily
/// computed, memoized phonetic transcription: a flag plus the cached list of
/// per-word transcriptions. Once computed, the cache is never recomputed for
/// the lifetime of the entry, and cloning an entry copies the cache.
/// Equality — used for deduplication — is structural over the word lists and
/// notes alone; the cache does not take part in it.
pub struct BaseModel {
    pub traditional: Vec<String>,
    pub simplified: Vec<String>,
    pub english: Vec<String>,
    pub notes: Option<Vec<String>>,
    pub pinyin_fetched: bool,
    pub pinyin: Option<Vec<String>>,
}

/// Conversion from the stored form of an entry into the quiz's working form.
pub trait ToBaseModel {
    /// The working entry with the same words and an empty phonetic cache.
    fn to_base_model(&self) -> BaseModel;
}

impl ToBaseModel for BaseModelDto {
    fn to_base_model(&self) -> (r: BaseModel)
        ensures
            r.traditional@ == self.traditional@,
            r.simplified@ == self.simplified@,
            r.english@ == self.english@,
            spec_opt_strings_view(r.notes) == spec_opt_strings_view(self.notes),
            !r.pinyin_fetched,
            r.pinyin is None,
    {
        BaseModel::new(
            clone_strings(&self.traditional),
            clone_strings(&self.simplified),
            clone_strings(&self.english),
            clone_notes(&self.notes),
        )
    }
}

/// An optional list of strings by its character contents, disregarding
/// which buffers hold them.
pub open spec fn spec_opt_strings_view(n: Option<Vec<String>>) -> Option<Seq<String>> {
    match n {
        Some(v) => Some(v@),
        None => None,
    }
}

/// The part of an entry that equality and deduplication look at: the three
/// word lists and the notes, by their character contents.
pub open spec fn spec_entry_key(m: BaseModel) -> (
    Seq<Seq<char>>,
    Seq<Seq<char>>,
    Seq<Seq<char>>,
    Option<Seq<Seq<char>>>,
) {
    (m.traditional.deep_view(), m.simplified.deep_view(), m.english.deep_view(), m.notes.deep_view())
}

/// Copy of a list of strings, character for character.
pub fn clone_strings(v: &Vec<String>) -> (r: Vec<String>)
    ensures
        r@ == v@,
{
    let mut r: Vec<String> = Vec::new();
    let mut i: usize = 0;
    while i < v.len()
        invariant
            i <= v@.len(),
            r@ == v@.subrange(0, i as int),
        decreases v@.len() - i,
    {
        r.push(v[i].clone());
        proof {
            assert(v@.subrange(0, i + 1) =~= v@.subrange(0, i as int).push(v@[i as int]));
        }
        i = i + 1;
    }
    proof {
        assert(v@.subrange(0, v@.len() as int) =~= v@);
    }
    r
}

/// Copy of an optional list of strings, character for character.
pub fn clone_notes(n: &Option<Vec<String>>) -> (r: Option<Vec<String>>)
    ensures
        spec_opt_strings_view(r) == spec_opt_strings_view(*n),
{
    match n {
        Some(v) => Some(clone_strings(v)),
        None => None,
    }
}

impl BaseModel {
    /// A fresh entry: the given words, and no phonetic transcription
    /// computed yet.
    pub fn new(
        traditional: Vec<String>,
        simplified: Vec<String>,
        english: Vec<String>,
        notes: Option<Vec<String>>,
    ) -> (r: Self)
        ensures
            r.traditional == traditional,
            r.simplified == simplified,
            r.english == english,
            r.notes == notes,
            !r.pinyin_fetched,
            r.pinyin is None,
    {
        BaseModel {
            traditional,
            simplified,
            english,
            notes,
            pinyin_fetched: false,
            pinyin: None,
        }
    }
}

impl Clone for BaseModel {
    /// Cloning copies the words and the memoized phonetic cache: a clone of
    /// an already-resolved entry needs no further decoder work.
    fn clone(&self) -> (r: Self)
        ensures
            r.traditional@ == self.traditional@,
            r.simplified@ == self.simplified@,
            r.english@ == self.english@,
            spec_opt_strings_view(r.notes) == spec_opt_strings_view(self.notes),
            r.pinyin_fetched == self.pinyin_fetched,
            spec_opt_strings_view(r.pinyin) == spec_opt_strings_view(self.pinyin),
            spec_entry_key(r) == spec_entry_key(*self),
    {
        let r = BaseModel {
            traditional: clone_strings(&self.traditional),
            simplified: clone_strings(&self.simplified),
            english: clone_strings(&self.english),
            notes: clone_notes(&self.notes),
            pinyin_fetched: self.pinyin_fetched,
            pinyin: clone_notes(&self.pinyin),
        };
        proof {
            assert(r.traditional.deep_view() =~= self.traditional.deep_view());
            assert(r.simplified.deep_view() =~= self.simplified.deep_view());
            assert(r.english.deep_view() =~= self.english.deep_view());
            assert(r.notes.deep_view() =~= self.notes.deep_view());
        }
        r
    }
}

/// Whether two lists of strings hold the same characters in the same order.
pub fn eq_string_vecs(a: &Vec<String>, b: &Vec<String>) -> (r: bool)
    ensures
        r == (a.deep_view() == b.deep_view()),
{
    if a.len() != b.len() {
        proof {
            assert(a.deep_view().len() == a@.len());
            assert(b.deep_view().len() == b@.len());
        }
        return false;
    }
    let mut i: usize = 0;
    while i < a.len()
        invariant
            a@.len() == b@.len(),
            i <= a@.len(),
            forall|k: int| 0 <= k < i ==> a.deep_view()[k] == b.deep_view()[k],
        decreases a@.len() - i,
    {
        if !(a[i] == b[i]) {
            proof {
                assert(a.deep_view()[i as int] == a@[i as int]@);
                assert(b.deep_view()[i as int] == b@[i as int]@);
            }
            return false;
        }
        proof {
            assert(a.deep_view()[i as int] == a@[i as int]@);
            assert(b.deep_view()[i as int] == b@[i as int]@);
        }
        i = i + 1;
    }
    proof {
        assert(a.deep_view() =~= b.deep_view());
    }
    true
}

/// Whether two optional note lists hold the same characters.
pub fn eq_notes(a: &Option<Vec<String>>, b: &Option<Vec<String>>) -> (r: bool)
    ensures
        r == (a.deep_view() == b.deep_view()),
{
    match (a, b) {
        (Some(x), Some(y)) => eq_string_vecs(x, y),
        (None, None) => true,
        _ => false,
    }
}

impl PartialEq for BaseModel {
    /// Structural equality over the word lists and notes; the phonetic
    /// cache does not take part.
    fn eq(&self, other: &Self) -> (r: bool) {
        eq_string_vecs(&self.traditional, &other.traditional) && eq_string_vecs(
            &self.simplified,
            &other.simplified,
        ) && eq_string_vecs(&self.english, &other.english) && eq_notes(&self.notes, &other.notes)
    }
}

impl vstd::std_specs::cmp::PartialEqSpecImpl for BaseModel {
    open spec fn obeys_eq_spec() -> bool {
        true
    }

    open spec fn eq_spec(&self, other: &Self) -> bool {
        spec_entry_key(*self) == spec_entry_key(*other)
    }
}

/// The dictionary lookup of one whole word: the phonetic field of the first
/// record whose traditional form equals the word.
pub open spec fn spec_word_lookup(dict: Seq<u8>, w: Seq<char>) -> Option<Seq<char>> {
    crate::file_io::spec_lookup(dict, 0, false, w)
}

/// Per-character fallback for one word: the lowercased entry of each
/// character in turn; characters without an entry are dropped silently.
pub open spec fn spec_char_syllables(dict: Seq<u8>, w: Seq<char>) -> Seq<Seq<char>>
    decreases w.len(),
{
    if w.len() == 0 {
        seq![]
    } else {
        let rest = spec_char_syllables(dict, w.drop_last());
        match spec_word_lookup(dict, seq![w.last()]) {
            Some(p) => rest.push(lower_of(p)),
            None => rest,
        }
    }
}

/// Per-character transcription of one word: surviving syllables joined with
/// a single space.
pub open spec fn spec_char_line(dict: Seq<u8>, w: Seq<char>) -> Seq<char> {
    spec_join(spec_char_syllables(dict, w), seq![' '])
}

/// Whether every word of the entry has a direct whole-word entry in the
/// dictionary.
pub open spec fn spec_all_words_hit(dict: Seq<u8>, words: Seq<Seq<char>>) -> bool {
    forall|i: int| 0 <= i < words.len() ==> spec_word_lookup(dict, #[trigger] words[i]) is Some
}

/// The resolved transcription of an entry's words: when every word has a
/// direct whole-word entry those entries are used verbatim, case-normalized
/// to lowercase; when any word misses, all partial results are discarded and
/// every word falls back to its per-character transcription.
pub open spec fn spec_resolve(dict: Seq<u8>, words: Seq<Seq<char>>) -> Seq<Seq<char>> {
    if spec_all_words_hit(dict, words) {
        Seq::new(
            words.len(),
            |i: int|
                match spec_word_lookup(dict, words[i]) {
                    Some(p) => lower_of(p),
                    None => seq![],
                },
        )
    } else {
        Seq::new(words.len(), |i: int| spec_char_line(dict, words[i]))
    }
}

/// Resolution law: when every word of an entry has a direct whole-word
/// dictionary entry, that transcription is used verbatim (case-normalized
/// to lowercase) and the per-character path is never taken; when any word
/// misses, partial results are discarded and every word is resolved per
/// character, missing characters silently omitted.
pub proof fn lemma_whole_word_priority(dict: Seq<u8>, words: Seq<Seq<char>>)
    ensures
        spec_resolve(dict, words).len() == words.len(),
        spec_all_words_hit(dict, words) ==> forall|i: int|
            0 <= i < words.len() ==> (spec_word_lookup(dict, #[trigger] words[i]) matches Some(p)
                && spec_resolve(dict, words)[i] == lower_of(p)),
        !spec_all_words_hit(dict, words) ==> forall|i: int|
            0 <= i < words.len() ==> spec_resolve(dict, words)[i] == spec_char_line(
                dict,
                #[trigger] words[i],
            ),
{
}

/// The per-character transcription of one word, built by querying the
/// decoder with each character in turn.
fn char_line(dict: &Dictionary, w: &str) -> (r: String)
    ensures
        r@ == spec_char_line(dict@, w@),
{
    let n = w.unicode_len();
    let mut parts: Vec<String> = Vec::new();
    let mut i: usize = 0;
    while i < n
        invariant
            n == w@.len(),
            i <= n,
            parts.deep_view() == spec_char_syllables(dict@, w@.subrange(0, i as int)),
        decreases n - i,
    {
        proof {
            assert(w@.subrange(0, i + 1).drop_last() =~= w@.subrange(0, i as int));
            assert(seq![w@.subrange(0, i + 1).last()] =~= w@.subrange(i as int, i + 1));
        }
        match dict.lookup_pinyin(w.substring_char(i, i + 1)) {
            Some(p) => {
                parts.push(lowercase(p.as_str()));
                proof {
                    assert(parts.deep_view() =~= spec_char_syllables(
                        dict@,
                        w@.subrange(0, i + 1),
                    ));
                }
            },
            None => {},
        }
        i = i + 1;
    }
    proof {
        assert(w@.subrange(0, n as int) =~= w@);
        reveal_strlit(" ");
        assert(" "@ =~= seq![' ']);
    }
    join_with(&parts, " ")
}

impl BaseModel {
    /// The phonetic transcription of the entry, one string per word,
    /// memoized per entry instance.
    ///
    /// The first call resolves through the decoder — whole-word lookups
    /// first, the per-character fallback when any word misses — and fills
    /// the cache. Every later call returns the cache unchanged, whatever
    /// dictionary is passed: two successive calls return equal results and
    /// the second performs no decoder work at all.
    pub fn pinyin(&mut self, dict: &Dictionary) -> (r: Vec<String>)
        ensures
            final(self).traditional@ == old(self).traditional@,
            final(self).simplified@ == old(self).simplified@,
            final(self).english@ == old(self).english@,
            final(self).notes == old(self).notes,
            final(self).pinyin_fetched,
            final(self).pinyin matches Some(cache) && cache.deep_view() == r.deep_view(),
            (old(self).pinyin_fetched && old(self).pinyin is Some) ==> (*final(self) == *old(self)
                && (old(self).pinyin matches Some(c) && r.deep_view() == c.deep_view())),
            !(old(self).pinyin_fetched && old(self).pinyin is Some) ==> r.deep_view()
                == spec_resolve(dict@, old(self).traditional.deep_view()),
    {
        if self.pinyin_fetched {
            if let Some(c) = &self.pinyin {
                return clone_strings(c);
            }
        }
        let n = self.traditional.len();
        let mut whole: Vec<String> = Vec::new();
        let mut all_hit = true;
        let mut i: usize = 0;
        while i < n
            invariant
                n == self.traditional@.len(),
                i <= n,
                all_hit ==> whole@.len() == i,
                all_hit ==> forall|k: int|
                    0 <= k < i ==> (spec_word_lookup(
                        dict@,
                        #[trigger] self.traditional.deep_view()[k],
                    ) matches Some(q) && whole.deep_view()[k] == lower_of(q)),
                !all_hit ==> exists|k: int|
                    0 <= k < n && spec_word_lookup(
                        dict@,
                        #[trigger] self.traditional.deep_view()[k],
                    ) is None,
            decreases n - i,
        {
            proof {
                assert(self.traditional.deep_view()[i as int] == self.traditional@[i as int]@);
            }
            match dict.lookup_pinyin(self.traditional[i].as_str()) {
                Some(p) => {
                    if all_hit {
                        whole.push(lowercase(p.as_str()));
                        proof {
                            assert(whole.deep_view()[i as int] == whole@[i as int]@);
                        }
                    }
                },
                None => {
                    all_hit = false;
                },
            }
            i = i + 1;
        }
        let ret: Vec<String>;
        if all_hit {
            ret = whole;
            proof {
                assert(spec_all_words_hit(dict@, self.traditional.deep_view()));
                assert(ret.deep_view() =~= spec_resolve(dict@, self.traditional.deep_view()));
            }
        } else {
            let mut lines: Vec<String> = Vec::new();
            let mut j: usize = 0;
            while j < n
                invariant
                    n == self.traditional@.len(),
                    j <= n,
                    !spec_all_words_hit(dict@, self.traditional.deep_view()),
                    lines@.len() == j,
                    forall|k: int|
                        0 <= k < j ==> lines.deep_view()[k] == spec_char_line(
                            dict@,
                            #[trigger] self.traditional.deep_view()[k],
                        ),
                decreases n - j,
            {
                proof {
                    assert(self.traditional.deep_view()[j as int]
                        == self.traditional@[j as int]@);
                }
                lines.push(char_line(dict, self.traditional[j].as_str()));
                proof {
                    assert(lines.deep_view()[j as int] == lines@[j as int]@);
                }
                j = j + 1;
            }
            ret = lines;
            proof {
                assert(ret.deep_view() =~= spec_resolve(dict@, self.traditional.deep_view()));
            }
        }
        self.pinyin = Some(clone_strings(&ret));
        self.pinyin_fetched = true;
        proof {
            assert(self.pinyin matches Some(cache) && cache.deep_view() =~= ret.deep_view());
        }
        ret
    }
}

/// The tone class of a syllable: the class of the last tone-marked character
/// in it, or 5 when no character carries a tone diacritic.
pub open spec fn spec_last_tone(w: Seq<char>) -> u8
    decreases w.len(),
{
    if w.len() == 0 {
        5
    } else if spec_match_tone(w.last()) != 5 {
        spec_match_tone(w.last())
    } else {
        spec_last_tone(w.drop_last())
    }
}

/// The digit character for a tone class 1 to 4.
pub open spec fn spec_digit_char(t: u8) -> char {
    if t == 1 {
        '1'
    } else if t == 2 {
        '2'
    } else if t == 3 {
        '3'
    } else {
        '4'
    }
}

/// The tone token derived from one syllable: the syllable rebuilt from
/// plain-alphabet characters, with the tone digit appended when some
/// character carried a diacritic, and nothing appended otherwise.
pub open spec fn spec_tone_word(w: Seq<char>) -> Seq<char> {
    if spec_last_tone(w) == 5 {
        spec_normalize_word(w)
    } else {
        spec_normalize_word(w).push(spec_digit_char(spec_last_tone(w)))
    }
}

/// The tone tokens of one transcription line, joined with single spaces.
pub open spec fn spec_tones_line(line: Seq<char>) -> Seq<char> {
    spec_join(spec_tokens(line).map_values(|w: Seq<char>| spec_tone_word(w)), seq![' '])
}

/// Tone derivation applied to each word's transcription line.
pub open spec fn spec_tones_of(lines: Seq<Seq<char>>) -> Seq<Seq<char>> {
    lines.map_values(|l: Seq<char>| spec_tones_line(l))
}

/// The tone token of one syllable.
fn tone_word(w: &str) -> (r: String)
    ensures
        r@ == spec_tone_word(w@),
{
    let n = w.unicode_len();
    let mut out = String::new();
    let mut tone: u8 = 5;
    let mut i: usize = 0;
    while i < n
        invariant
            n == w@.len(),
            i <= n,
            out@ == spec_normalize_word(w@.subrange(0, i as int)),
            tone == spec_last_tone(w@.subrange(0, i as int)),
        decreases n - i,
    {
        let c = w.get_char(i);
        let t = match_tone(c);
        if t != 5 {
            tone = t;
        }
        push_char(&mut out, normalize_char(c));
        proof {
            assert(w@.subrange(0, i + 1).drop_last() =~= w@.subrange(0, i as int));
            assert(w@.subrange(0, i + 1).last() == w@[i as int]);
            assert(spec_normalize_word(w@.subrange(0, i + 1)) =~= spec_normalize_word(
                w@.subrange(0, i as int),
            ).push(spec_normalize_char(w@[i as int])));
        }
        i = i + 1;
    }
    proof {
        assert(w@.subrange(0, n as int) =~= w@);
    }
    if tone != 5 {
        let d: char = if tone == 1 {
            '1'
        } else if tone == 2 {
            '2'
        } else if tone == 3 {
            '3'
        } else {
            '4'
        };
        push_char(&mut out, d);
    }
    out
}

/// The tone tokens of one transcription line, joined with single spaces.
fn tones_line(line: &str) -> (r: String)
    ensures
        r@ == spec_tones_line(line@),
{
    let toks = split_spaces(line);
    let mut out: Vec<String> = Vec::new();
    let mut i: usize = 0;
    while i < toks.len()
        invariant
            toks.deep_view() == spec_tokens(line@),
            i <= toks@.len(),
            out@.len() == i,
            forall|k: int|
                0 <= k < i ==> out.deep_view()[k] == spec_tone_word(
                    #[trigger] toks.deep_view()[k],
                ),
        decreases toks@.len() - i,
    {
        proof {
            assert(toks.deep_view()[i as int] == toks@[i as int]@);
        }
        out.push(tone_word(toks[i].as_str()));
        proof {
            assert(out.deep_view()[i as int] == out@[i as int]@);
        }
        i = i + 1;
    }
    proof {
        assert(out.deep_view() =~= spec_tokens(line@).map_values(
            |w: Seq<char>| spec_tone_word(w),
        ));
        reveal_strlit(" ");
        assert(" "@ =~= seq![' ']);
    }
    join_with(&out, " ")
}

impl BaseModel {
    /// The transcription of each word with every character replaced by its
    /// plain-alphabet equivalent. Resolves (and caches) the transcription
    /// first when needed.
    pub fn pinyin_alphabet(&mut self, dict: &Dictionary) -> (r: Vec<String>)
        ensures
            final(self).pinyin matches Some(cache) && r.deep_view() == cache.deep_view().map_values(
                |l: Seq<char>| spec_normalize_word(l),
            ),
            spec_entry_key(*final(self)) == spec_entry_key(*old(self)),
            final(self).pinyin_fetched,
            (old(self).pinyin_fetched && old(self).pinyin is Some) ==> *final(self) == *old(self),
            !(old(self).pinyin_fetched && old(self).pinyin is Some) ==> (
            final(self).pinyin matches Some(cache) && cache.deep_view() == spec_resolve(
                dict@,
                old(self).traditional.deep_view(),
            )),
    {
        let p = self.pinyin(dict);
        let mut out: Vec<String> = Vec::new();
        let mut i: usize = 0;
        while i < p.len()
            invariant
                i <= p@.len(),
                out@.len() == i,
                forall|k: int|
                    0 <= k < i ==> out.deep_view()[k] == spec_normalize_word(
                        #[trigger] p.deep_view()[k],
                    ),
            decreases p@.len() - i,
        {
            proof {
                assert(p.deep_view()[i as int] == p@[i as int]@);
            }
            out.push(normalize_word(p[i].as_str()));
            proof {
                assert(out.deep_view()[i as int] == out@[i as int]@);
            }
            i = i + 1;
        }
        proof {
            assert(out.deep_view() =~= p.deep_view().map_values(
                |l: Seq<char>| spec_normalize_word(l),
            ));
        }
        out
    }

    /// The tone tokens derived from each word's transcription, recomputed on
    /// every call from the memoized transcription: syllables split on
    /// whitespace, rebuilt plain with their tone digit appended, joined with
    /// single spaces.
    pub fn tones(&mut self, dict: &Dictionary) -> (r: Vec<String>)
        ensures
            final(self).pinyin matches Some(cache) && r.deep_view() == spec_tones_of(
                cache.deep_view(),
            ),
            spec_entry_key(*final(self)) == spec_entry_key(*old(self)),
            final(self).pinyin_fetched,
            (old(self).pinyin_fetched && old(self).pinyin is Some) ==> *final(self) == *old(self),
            !(old(self).pinyin_fetched && old(self).pinyin is Some) ==> (
            final(self).pinyin matches Some(cache) && cache.deep_view() == spec_resolve(
                dict@,
                old(self).traditional.deep_view(),
            )),
    {
        let p = self.pinyin(dict);
        let mut out: Vec<String> = Vec::new();
        let mut i: usize = 0;
        while i < p.len()
            invariant
                i <= p@.len(),
                out@.len() == i,
                forall|k: int|
                    0 <= k < i ==> out.deep_view()[k] == spec_tones_line(
                        #[trigger] p.deep_view()[k],
                    ),
            decreases p@.len() - i,
        {
            proof {
                assert(p.deep_view()[i as int] == p@[i as int]@);
            }
            out.push(tones_line(p[i].as_str()));
            proof {
                assert(out.deep_view()[i as int] == out@[i as int]@);
            }
            i = i + 1;
        }
        proof {
            assert(out.deep_view() =~= spec_tones_of(p.deep_view()));
        }
        out
    }
}

/// Whether the tone token of one syllable ends in a non-digit character,
/// that is, carries no tone digit.
pub open spec fn spec_token_neutral(w: Seq<char>) -> bool {
    spec_tone_word(w).len() > 0 && !spec_is_digit(spec_tone_word(w).last())
}

/// Whether any syllable across any word's tone tokens ends in a non-digit
/// character: the entry then has a "normal" (neutral-tone) syllable and its
/// audio must come from remote synthesis rather than the clip archive.
pub open spec fn spec_has_normal(lines: Seq<Seq<char>>) -> bool {
    exists|i: int, j: int|
        0 <= i < lines.len() && 0 <= j < spec_tokens(lines[i]).len() && spec_token_neutral(
            #[trigger] spec_tokens(lines[i])[j],
        )
}

/// Whether any tone token of one transcription line ends in a non-digit
/// character.
fn line_has_neutral(line: &str) -> (r: bool)
    ensures
        r == exists|j: int|
            0 <= j < spec_tokens(line@).len() && spec_token_neutral(
                #[trigger] spec_tokens(line@)[j],
            ),
{
    let toks = split_spaces(line);
    let mut j: usize = 0;
    while j < toks.len()
        invariant
            toks.deep_view() == spec_tokens(line@),
            j <= toks@.len(),
            forall|k: int|
                0 <= k < j ==> !spec_token_neutral(#[trigger] spec_tokens(line@)[k]),
        decreases toks@.len() - j,
    {
        proof {
            assert(toks.deep_view()[j as int] == toks@[j as int]@);
        }
        let tw = tone_word(toks[j].as_str());
        let l = unicode_len_of_string(&tw);
        if l > 0 {
            let c = tw.as_str().get_char(l - 1);
            if !is_digit(c) {
                proof {
                    assert(spec_token_neutral(spec_tokens(line@)[j as int]));
                }
                return true;
            }
        }
        j = j + 1;
    }
    false
}

impl BaseModel {
    /// Whether any syllable of the entry carries no tone digit. This alone
    /// decides the audio path: true sends the entry to remote synthesis.
    pub fn has_normal_tones(&mut self, dict: &Dictionary) -> (r: bool)
        ensures
            final(self).pinyin matches Some(cache) && r == spec_has_normal(cache.deep_view()),
            spec_entry_key(*final(self)) == spec_entry_key(*old(self)),
            final(self).pinyin_fetched,
            (old(self).pinyin_fetched && old(self).pinyin is Some) ==> *final(self) == *old(self),
            !(old(self).pinyin_fetched && old(self).pinyin is Some) ==> (
            final(self).pinyin matches Some(cache) && cache.deep_view() == spec_resolve(
                dict@,
                old(self).traditional.deep_view(),
            )),
    {
        let p = self.pinyin(dict);
        let mut i: usize = 0;
        while i < p.len()
            invariant
                i <= p@.len(),
                self.pinyin matches Some(cache) && cache.deep_view() == p.deep_view(),
                self.pinyin_fetched,
                spec_entry_key(*self) == spec_entry_key(*old(self)),
                (old(self).pinyin_fetched && old(self).pinyin is Some) ==> *self == *old(self),
                !(old(self).pinyin_fetched && old(self).pinyin is Some) ==> p.deep_view()
                    == spec_resolve(dict@, old(self).traditional.deep_view()),
                forall|k: int, j: int|
                    0 <= k < i && 0 <= j < spec_tokens(p.deep_view()[k]).len()
                        ==> !spec_token_neutral(#[trigger] spec_tokens(p.deep_view()[k])[j]),
            decreases p@.len() - i,
        {
            proof {
                assert(p.deep_view()[i as int] == p@[i as int]@);
            }
            if line_has_neutral(p[i].as_str()) {
                proof {
                    let j = choose|j: int|
                        0 <= j < spec_tokens(p.deep_view()[i as int]).len() && spec_token_neutral(
                            spec_tokens(p.deep_view()[i as int])[j],
                        );
                    assert(spec_token_neutral(spec_tokens(p.deep_view()[i as int])[j]));
                    assert(spec_has_normal(p.deep_view()));
                }
                return true;
            }
            i = i + 1;
        }
        proof {
            assert(!spec_has_normal(p.deep_view()));
        }
        false
    }

    /// The English glosses, trimmed of surrounding whitespace and
    /// lowercased, ready for answer comparison.
    pub fn english_trimmed(&self) -> (r: Vec<String>)
        ensures
            r.deep_view() == self.english.deep_view().map_values(
                |w: Seq<char>| lower_of(spec_trim(w)),
            ),
    {
        let mut out: Vec<String> = Vec::new();
        let mut i: usize = 0;
        while i < self.english.len()
            invariant
                i <= self.english@.len(),
                out@.len() == i,
                forall|k: int|
                    0 <= k < i ==> out.deep_view()[k] == lower_of(
                        spec_trim(#[trigger] self.english.deep_view()[k]),
                    ),
            decreases self.english@.len() - i,
        {
            proof {
                assert(self.english.deep_view()[i as int] == self.english@[i as int]@);
            }
            let t = trim_str(self.english[i].as_str());
            out.push(lowercase(t.as_str()));
            proof {
                assert(out.deep_view()[i as int] == out@[i as int]@);
            }
            i = i + 1;
        }
        proof {
            assert(out.deep_view() =~= self.english.deep_view().map_values(
                |w: Seq<char>| lower_of(spec_trim(w)),
            ));
        }
        out
    }

    /// The plain-alphabet transcription of each word, lowercased, trimmed
    /// and with spaces removed, ready for answer comparison.
    pub fn pinyin_alphabet_trimmed(&mut self, dict: &Dictionary) -> (r: Vec<String>)
        ensures
            final(self).pinyin matches Some(cache) && r.deep_view() == cache.deep_view().map_values(
                |l: Seq<char>| spec_alpha_trimmed_word(l),
            ),
            spec_entry_key(*final(self)) == spec_entry_key(*old(self)),
            final(self).pinyin_fetched,
            (old(self).pinyin_fetched && old(self).pinyin is Some) ==> *final(self) == *old(self),
            !(old(self).pinyin_fetched && old(self).pinyin is Some) ==> (
            final(self).pinyin matches Some(cache) && cache.deep_view() == spec_resolve(
                dict@,
                old(self).traditional.deep_view(),
            )),
    {
        let p = self.pinyin(dict);
        let mut out: Vec<String> = Vec::new();
        let mut i: usize = 0;
        while i < p.len()
            invariant
                i <= p@.len(),
                out@.len() == i,
                forall|k: int|
                    0 <= k < i ==> out.deep_view()[k] == spec_alpha_trimmed_word(
                        #[trigger] p.deep_view()[k],
                    ),
            decreases p@.len() - i,
        {
            proof {
                assert(p.deep_view()[i as int] == p@[i as int]@);
            }
            let norm = normalize_word(p[i].as_str());
            let low = lowercase(norm.as_str());
            let t = trim_str(low.as_str());
            out.push(remove_spaces(t.as_str()));
            proof {
                assert(out.deep_view()[i as int] == out@[i as int]@);
            }
            i = i + 1;
        }
        proof {
            match &self.pinyin {
                Some(cache) => {
                    assert forall|k: int| 0 <= k < out.deep_view().len() implies out.deep_view()[k]
                        == spec_alpha_trimmed_word(cache.deep_view()[k]) by {
                        assert(p.deep_view()[k] == cache.deep_view()[k]);
                    }
                    assert(out.deep_view() =~= cache.deep_view().map_values(
                        |l: Seq<char>| spec_alpha_trimmed_word(l),
                    ));
                },
                None => {
                    assert(false);
                },
            }
        }
        out
    }
}

/// A transcription word made comparable to a typed answer: plain alphabet,
/// lowercased, trimmed, spaces removed.
pub open spec fn spec_alpha_trimmed_word(l: Seq<char>) -> Seq<char> {
    spec_remove_spaces(spec_trim(lower_of(spec_normalize_word(l))))
}

/// A typed answer made comparable to an English gloss: trimmed, lowercased.
pub open spec fn spec_english_answer(resp: Seq<char>) -> Seq<char> {
    lower_of(spec_trim(resp))
}

/// A typed answer made comparable to a transcription: trimmed, lowercased,
/// spaces removed.
pub open spec fn spec_pinyin_answer(resp: Seq<char>) -> Seq<char> {
    spec_remove_spaces(lower_of(spec_trim(resp)))
}

impl BaseModel {
    /// The Chinese-to-English question line: transcription and traditional
    /// forms, each list joined with commas.
    pub fn question_chinese(&mut self, dict: &Dictionary) -> (r: String)
        ensures
            final(self).pinyin matches Some(cache) && r@ == "Here is a word in Chinese "@
                + spec_join(cache.deep_view(), ", "@) + ", "@ + spec_join(
                final(self).traditional.deep_view(),
                ", "@,
            ) + ". What is it in English?"@,
            spec_entry_key(*final(self)) == spec_entry_key(*old(self)),
            final(self).pinyin_fetched,
            (old(self).pinyin_fetched && old(self).pinyin is Some) ==> *final(self) == *old(self),
            !(old(self).pinyin_fetched && old(self).pinyin is Some) ==> (
            final(self).pinyin matches Some(cache) && cache.deep_view() == spec_resolve(
                dict@,
                old(self).traditional.deep_view(),
            )),
    {
        let p = self.pinyin(dict);
        let mut r = String::from_str("Here is a word in Chinese ");
        r.append(join_with(&p, ", ").as_str());
        r.append(", ");
        r.append(join_with(&self.traditional, ", ").as_str());
        r.append(". What is it in English?");
        r
    }

    /// The English-to-Chinese question line: the glosses joined with commas.
    pub fn question_english(&self) -> (r: String)
        ensures
            r@ == "Here is a word in English "@ + spec_join(self.english.deep_view(), ", "@)
                + ". What is it in Chinese?"@,
    {
        let mut r = String::from_str("Here is a word in English ");
        r.append(join_with(&self.english, ", ").as_str());
        r.append(". What is it in Chinese?");
        r
    }

    /// Whether a typed English answer matches one of the entry's glosses,
    /// after trimming and lowercasing both sides.
    pub open spec fn spec_chinese_correct(&self, resp: Seq<char>) -> bool {
        self.english.deep_view().map_values(|w: Seq<char>| lower_of(spec_trim(w))).contains(
            spec_english_answer(resp),
        )
    }

    /// The verdict line for a Chinese-to-English round: whether the typed
    /// gloss matches any of the entry's, and the glosses themselves.
    pub fn handle_chinese_response(&self, english_res: &str) -> (r: String)
        ensures
            r@ == (if self.spec_chinese_correct(english_res@) {
                "Correct! Well done!"@
            } else {
                "Wrong!"@
            }) + ". The English translation is: "@ + spec_join(self.english.deep_view(), ", "@)
                + "\n"@,
    {
        let answers = self.english_trimmed();
        let t = trim_str(english_res);
        let target = lowercase(t.as_str());
        let correct = contains_string(&answers, &target);
        let mut r: String;
        if correct {
            r = String::from_str("Correct! Well done!");
        } else {
            r = String::from_str("Wrong!");
        }
        r.append(". The English translation is: ");
        r.append(join_with(&self.english, ", ").as_str());
        r.append("\n");
        r
    }

    /// Whether a typed transcription answer matches one of the entry's
    /// plain-alphabet transcriptions, spaces and case disregarded.
    pub open spec fn spec_english_correct(cache: Seq<Seq<char>>, resp: Seq<char>) -> bool {
        cache.map_values(|l: Seq<char>| spec_alpha_trimmed_word(l)).contains(
            spec_pinyin_answer(resp),
        )
    }

    /// The verdict line for an English-to-Chinese round: whether the typed
    /// transcription matches, with the transcription and traditional forms.
    pub fn handle_english_response(&mut self, dict: &Dictionary, pinyin_res: &str) -> (r: String)
        ensures
            final(self).pinyin matches Some(cache) && r@ == (
            if Self::spec_english_correct(cache.deep_view(), pinyin_res@) {
                "Correct! Well done!"@
            } else {
                "Wrong!"@
            }) + ". The Chinese translation is: "@ + spec_join(cache.deep_view(), ", "@) + ", "@
                + spec_join(final(self).traditional.deep_view(), ", "@) + "\n"@,
            spec_entry_key(*final(self)) == spec_entry_key(*old(self)),
            final(self).pinyin_fetched,
            (old(self).pinyin_fetched && old(self).pinyin is Some) ==> *final(self) == *old(self),
            !(old(self).pinyin_fetched && old(self).pinyin is Some) ==> (
            final(self).pinyin matches Some(cache) && cache.deep_view() == spec_resolve(
                dict@,
                old(self).traditional.deep_view(),
            )),
    {
        let answers = self.pinyin_alphabet_trimmed(dict);
        let t = trim_str(pinyin_res);
        let low = lowercase(t.as_str());
        let target = remove_spaces(low.as_str());
        let correct = contains_string(&answers, &target);
        let p = self.pinyin(dict);
        let mut r: String;
        if correct {
            r = String::from_str("Correct! Well done!");
        } else {
            r = String::from_str("Wrong!");
        }
        r.append(". The Chinese translation is: ");
        r.append(join_with(&p, ", ").as_str());
        r.append(", ");
        r.append(join_with(&self.traditional, ", ").as_str());
        r.append("\n");
        r
    }
}

/// The six named archive voices, and the identifier reserved for the
/// remote-synthesis path, which the random draw never picks.
#[derive(Clone, Copy, Debug, PartialEq, Eq, Structural)]
pub enum Voice {
    MV1,
    MV2,
    MV3,
    FV1,
    FV2,
    FV3,
    Google,
}

/// The identifier of a voice as it appears in clip file names.
pub open spec fn spec_voice_name(v: Voice) -> Seq<char> {
    match v {
        Voice::MV1 => "MV1"@,
        Voice::MV2 => "MV2"@,
        Voice::MV3 => "MV3"@,
        Voice::FV1 => "FV1"@,
        Voice::FV2 => "FV2"@,
        Voice::FV3 => "FV3"@,
        Voice::Google => "Google"@,
    }
}

impl Voice {
    /// The voice's identifier, as used in clip file names.
    pub fn name(&self) -> (r: &'static str)
        ensures
            r@ == spec_voice_name(*self),
    {
        match self {
            Voice::MV1 => "MV1",
            Voice::MV2 => "MV2",
            Voice::MV3 => "MV3",
            Voice::FV1 => "FV1",
            Voice::FV2 => "FV2",
            Voice::FV3 => "FV3",
            Voice::Google => "Google",
        }
    }

    /// One of the six archive voices, drawn at random for each question; the
    /// remote-synthesis identifier is never drawn.
    pub fn random() -> (r: Voice)
        ensures
            !(r is Google),
    {
        let i = random_below(6);
        if i == 0 {
            Voice::MV1
        } else if i == 1 {
            Voice::MV2
        } else if i == 2 {
            Voice::MV3
        } else if i == 3 {
            Voice::FV1
        } else if i == 4 {
            Voice::FV2
        } else {
            Voice::FV3
        }
    }
}

/// The clip-archive file name for one tone token and voice.
pub open spec fn spec_clip_key(token: Seq<char>, voice: Voice) -> Seq<char> {
    token + "_"@ + spec_voice_name(voice) + ".mp3"@
}

/// The clip-archive file name for one tone token and voice.
fn clip_key(token: &str, voice: &Voice) -> (r: String)
    ensures
        r@ == spec_clip_key(token@, *voice),
{
    let mut r = String::from_str(token);
    r.append("_");
    r.append(voice.name());
    r.append(".mp3");
    r
}

/// The archive clips for one tones line: one buffer per tone token, an
/// empty buffer standing in for a missing clip.
pub open spec fn spec_line_clips(archive: Seq<u8>, line: Seq<char>, voice: Voice) -> Seq<Seq<u8>> {
    spec_tokens(line).map_values(|t: Seq<char>| spec_clip(archive, spec_clip_key(t, voice)))
}

/// The clip buffers for one tones line, scanned out of the archive.
fn line_clips(archive: &ClipArchive, line: &str, voice: &Voice) -> (r: Vec<Vec<u8>>)
    ensures
        r.deep_view() == spec_line_clips(archive@, line@, *voice),
{
    let toks = split_spaces(line);
    let mut out: Vec<Vec<u8>> = Vec::new();
    let mut j: usize = 0;
    while j < toks.len()
        invariant
            toks.deep_view() == spec_tokens(line@),
            j <= toks@.len(),
            out@.len() == j,
            forall|k: int|
                0 <= k < j ==> out.deep_view()[k] == spec_clip(
                    archive@,
                    spec_clip_key(#[trigger] spec_tokens(line@)[k], *voice),
                ),
        decreases toks@.len() - j,
    {
        proof {
            assert(toks.deep_view()[j as int] == toks@[j as int]@);
        }
        let key = clip_key(toks[j].as_str(), voice);
        out.push(archive.get_audio_file_from_compressed_archive(key.as_str()));
        proof {
            assert(out.deep_view()[j as int] == out@[j as int]@);
        }
        j = j + 1;
    }
    proof {
        assert(out.deep_view() =~= spec_line_clips(archive@, line@, *voice));
    }
    out
}

/// The remote-synthesis request for one traditional-form word.
pub open spec fn spec_synth_url(w: Seq<char>) -> Seq<char> {
    "https://translate.google.com/translate_tts?ie=UTF-8&q="@ + w + "&tl=zh-TW&client=tw-ob"@
}

/// Playable audio for one entry: either one buffer per syllable, grouped by
/// word, sourced from the precomputed clip archive, or one buffer per word
/// sourced from remote synthesis. Exactly one of the two forms is populated;
/// the pair lives until it is consumed and played, then is discarded.
#[derive(Debug)]
pub struct Pronouncation {
    pub bytes: Option<Vec<Vec<Vec<u8>>>>,
    pub google_bytes: Option<Vec<Vec<u8>>>,
}

/// What the audio resolver decided for an entry: clips ready to play, or
/// the word-level synthesis requests that the presentation layer must fetch
/// — any single failed fetch is fatal for the item, with no partial result.
pub enum AudioSource {
    Ready(Pronouncation),
    Remote(Vec<String>),
}

impl Pronouncation {
    /// Exactly one of the two audio forms is populated.
    pub open spec fn wf(&self) -> bool {
        (self.bytes is Some) != (self.google_bytes is Some)
    }

    /// Audio for an entry whose syllables all carry tone digits: for each
    /// word's tones line, one archive clip per syllable token, named
    /// `<token>_<voice>.mp3`; a missing clip is silence, not a fault.
    pub fn create_from_mp3(
        word: &mut BaseModel,
        voice: &Voice,
        dict: &Dictionary,
        archive: &ClipArchive,
    ) -> (r: Pronouncation)
        ensures
            r.wf(),
            r.google_bytes is None,
            final(word).pinyin matches Some(cache) && (r.bytes matches Some(b)
                && b.deep_view() == spec_tones_of(cache.deep_view()).map_values(
                |line: Seq<char>| spec_line_clips(archive@, line, *voice),
            )),
            spec_entry_key(*final(word)) == spec_entry_key(*old(word)),
            final(word).pinyin_fetched,
            (old(word).pinyin_fetched && old(word).pinyin is Some) ==> *final(word) == *old(word),
            !(old(word).pinyin_fetched && old(word).pinyin is Some) ==> (
            final(word).pinyin matches Some(cache) && cache.deep_view() == spec_resolve(
                dict@,
                old(word).traditional.deep_view(),
            )),
    {
        let tones = word.tones(dict);
        let mut grouped: Vec<Vec<Vec<u8>>> = Vec::new();
        let mut i: usize = 0;
        while i < tones.len()
            invariant
                i <= tones@.len(),
                grouped@.len() == i,
                forall|k: int|
                    0 <= k < i ==> grouped.deep_view()[k] == spec_line_clips(
                        archive@,
                        #[trigger] tones.deep_view()[k],
                        *voice,
                    ),
            decreases tones@.len() - i,
        {
            proof {
                assert(tones.deep_view()[i as int] == tones@[i as int]@);
            }
            grouped.push(line_clips(archive, tones[i].as_str(), voice));
            proof {
                assert(grouped.deep_view()[i as int] == grouped@[i as int].deep_view());
            }
            i = i + 1;
        }
        proof {
            match &word.pinyin {
                Some(cache) => {
                    assert forall|k: int|
                        0 <= k < grouped.deep_view().len() implies grouped.deep_view()[k]
                        == spec_line_clips(
                        archive@,
                        spec_tones_of(cache.deep_view())[k],
                        *voice,
                    ) by {
                        assert(tones.deep_view()[k] == spec_tones_of(cache.deep_view())[k]);
                    }
                    assert(grouped.deep_view() =~= spec_tones_of(cache.deep_view()).map_values(
                        |line: Seq<char>| spec_line_clips(archive@, line, *voice),
                    ));
                },
                None => {
                    assert(false);
                },
            }
        }
        Pronouncation { bytes: Some(grouped), google_bytes: None }
    }

    /// The remote-synthesis request for each traditional-form word of the
    /// entry, to be fetched concurrently by the presentation layer.
    pub fn synthesis_urls(word: &BaseModel) -> (r: Vec<String>)
        ensures
            r.deep_view() == word.traditional.deep_view().map_values(
                |w: Seq<char>| spec_synth_url(w),
            ),
    {
        let mut out: Vec<String> = Vec::new();
        let mut i: usize = 0;
        while i < word.traditional.len()
            invariant
                i <= word.traditional@.len(),
                out@.len() == i,
                forall|k: int|
                    0 <= k < i ==> out.deep_view()[k] == spec_synth_url(
                        #[trigger] word.traditional.deep_view()[k],
                    ),
            decreases word.traditional@.len() - i,
        {
            proof {
                assert(word.traditional.deep_view()[i as int] == word.traditional@[i as int]@);
            }
            let mut url = String::from_str("https://translate.google.com/translate_tts?ie=UTF-8&q=");
            url.append(word.traditional[i].as_str());
            url.append("&tl=zh-TW&client=tw-ob");
            out.push(url);
            proof {
                assert(out.deep_view()[i as int] == out@[i as int]@);
            }
            i = i + 1;
        }
        proof {
            assert(out.deep_view() =~= word.traditional.deep_view().map_values(
                |w: Seq<char>| spec_synth_url(w),
            ));
        }
        out
    }

    /// Audio assembled from fetched remote-synthesis responses, one buffer
    /// per word.
    pub fn from_google_bytes(results: Vec<Vec<u8>>) -> (r: Pronouncation)
        ensures
            r.wf(),
            r.bytes is None,
            r.google_bytes matches Some(g) && g@ == results@,
    {
        Pronouncation { bytes: None, google_bytes: Some(results) }
    }

    /// The audio source for an entry: entries with any neutral-tone syllable
    /// take the remote-synthesis path — never the archive — and all others
    /// are assembled from the clip archive at once.
    pub fn create_from(
        word: &mut BaseModel,
        voice: &Voice,
        dict: &Dictionary,
        archive: &ClipArchive,
    ) -> (r: AudioSource)
        ensures
            final(word).pinyin matches Some(cache) && (match r {
                AudioSource::Remote(urls) => spec_has_normal(cache.deep_view())
                    && urls.deep_view() == final(word).traditional.deep_view().map_values(
                    |w: Seq<char>| spec_synth_url(w),
                ),
                AudioSource::Ready(p) => !spec_has_normal(cache.deep_view()) && p.wf()
                    && p.google_bytes is None && (p.bytes matches Some(b) && b.deep_view()
                    == spec_tones_of(cache.deep_view()).map_values(
                    |line: Seq<char>| spec_line_clips(archive@, line, *voice),
                )),
            }),
            spec_entry_key(*final(word)) == spec_entry_key(*old(word)),
            final(word).pinyin_fetched,
            (old(word).pinyin_fetched && old(word).pinyin is Some) ==> *final(word) == *old(word),
            !(old(word).pinyin_fetched && old(word).pinyin is Some) ==> (
            final(word).pinyin matches Some(cache) && cache.deep_view() == spec_resolve(
                dict@,
                old(word).traditional.deep_view(),
            )),
    {
        if word.has_normal_tones(dict) {
            return AudioSource::Remote(Self::synthesis_urls(word));
        }
        AudioSource::Ready(Self::create_from_mp3(word, voice, dict, archive))
    }
}

} // verus!
