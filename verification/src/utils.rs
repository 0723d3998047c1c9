//! Character and string helpers: the fixed diacritic table mapping a marked
//! vowel to its tone class and to its plain-alphabet equivalent, whitespace
//! splitting, trimming and joining, and the random draw of a vocabulary
//! entry.

use vstd::prelude::*;
use vstd::string::{StrSliceExecFns, StringExecFns};

use crate::file_io::Dictionary;
use crate::models::{spec_entry_key, BaseModel};

verus! {

/// Tone class of a single character: 1 to 4 for a vowel carrying a tone
/// diacritic, 5 for every other character (no tone information).
pub open spec fn spec_match_tone(c: char) -> u8 {
    if c == 'ā' || c == 'ē' || c == 'ī' || c == 'ō' || c == 'ū' {
        1
    } else if c == 'á' || c == 'é' || c == 'í' || c == 'ó' || c == 'ú' {
        2
    } else if c == 'ǎ' || c == 'ě' || c == 'ǐ' || c == 'ǒ' || c == 'ǔ' {
        3
    } else if c == 'à' || c == 'è' || c == 'ì' || c == 'ò' || c == 'ù' {
        4
    } else {
        5
    }
}

/// Plain-alphabet equivalent of a character: a tone-marked vowel loses its
/// diacritic, every other character is kept as it is.
pub open spec fn spec_normalize_char(c: char) -> char {
    if c == 'ā' || c == 'á' || c == 'ǎ' || c == 'à' {
        'a'
    } else if c == 'ē' || c == 'é' || c == 'ě' || c == 'è' {
        'e'
    } else if c == 'ī' || c == 'í' || c == 'ǐ' || c == 'ì' {
        'i'
    } else if c == 'ō' || c == 'ó' || c == 'ǒ' || c == 'ò' {
        'o'
    } else if c == 'ū' || c == 'ú' || c == 'ǔ' || c == 'ù' || c == 'ǖ' || c == 'ǘ' || c == 'ǚ'
        || c == 'ǜ' || c == 'ü' {
        'u'
    } else {
        c
    }
}

/// Tone class of one character, per the fixed diacritic table.
pub fn match_tone(c: char) -> (t: u8)
    ensures
        t == spec_match_tone(c),
{
    match c {
        'ā' | 'ē' | 'ī' | 'ō' | 'ū' => 1,
        'á' | 'é' | 'í' | 'ó' | 'ú' => 2,
        'ǎ' | 'ě' | 'ǐ' | 'ǒ' | 'ǔ' => 3,
        'à' | 'è' | 'ì' | 'ò' | 'ù' => 4,
        _ => 5,
    }
}

/// Strip the tone diacritic from one character, if it carries one.
pub fn normalize_char(c: char) -> (r: char)
    ensures
        r == spec_normalize_char(c),
{
    match c {
        'ā' | 'á' | 'ǎ' | 'à' => 'a',
        'ē' | 'é' | 'ě' | 'è' => 'e',
        'ī' | 'í' | 'ǐ' | 'ì' => 'i',
        'ō' | 'ó' | 'ǒ' | 'ò' => 'o',
        'ū' | 'ú' | 'ǔ' | 'ù' | 'ǖ' | 'ǘ' | 'ǚ' | 'ǜ' | 'ü' => 'u',
        _ => c,
    }
}

/// Whitespace for the purposes of this library: the ASCII blank characters
/// that separate syllables in a transcription line.
pub open spec fn spec_is_space(c: char) -> bool {
    c == ' ' || c == '\t' || c == '\n' || c == '\r'
}

/// An ASCII decimal digit.
pub open spec fn spec_is_digit(c: char) -> bool {
    48 <= c as u32 <= 57
}

/// Relies on String::push: appends exactly the given character.
#[verifier::external_body]
pub(crate) fn push_char(s: &mut String, c: char)
    ensures
        final(s)@ == old(s)@.push(c),
{
    s.push(c);
}

/// A word with every character replaced by its plain-alphabet equivalent.
pub open spec fn spec_normalize_word(s: Seq<char>) -> Seq<char> {
    s.map_values(|c: char| spec_normalize_char(c))
}

/// Strip the tone diacritics from every character of a word.
pub fn normalize_word(pinyin: &str) -> (r: String)
    ensures
        r@ == spec_normalize_word(pinyin@),
{
    let n = pinyin.unicode_len();
    let mut r = String::new();
    let mut i: usize = 0;
    while i < n
        invariant
            n == pinyin@.len(),
            i <= n,
            r@ == spec_normalize_word(pinyin@.subrange(0, i as int)),
        decreases n - i,
    {
        let c = pinyin.get_char(i);
        push_char(&mut r, normalize_char(c));
        proof {
            assert(pinyin@.subrange(0, i + 1) =~= pinyin@.subrange(0, i as int).push(
                pinyin@[i as int],
            ));
            assert(spec_normalize_word(pinyin@.subrange(0, i + 1)) =~= spec_normalize_word(
                pinyin@.subrange(0, i as int),
            ).push(spec_normalize_char(pinyin@[i as int])));
        }
        i = i + 1;
    }
    proof {
        assert(pinyin@.subrange(0, n as int) =~= pinyin@);
    }
    r
}

/// Splitting state after reading a prefix of a line: the complete tokens seen
/// so far, and the (possibly empty) token still being read.
pub open spec fn spec_split_state(s: Seq<char>) -> (Seq<Seq<char>>, Seq<char>)
    decreases s.len(),
{
    if s.len() == 0 {
        (seq![], seq![])
    } else {
        let prev = spec_split_state(s.drop_last());
        let c = s.last();
        if spec_is_space(c) {
            if prev.1.len() == 0 {
                (prev.0, seq![])
            } else {
                (prev.0.push(prev.1), seq![])
            }
        } else {
            (prev.0, prev.1.push(c))
        }
    }
}

/// The tokens of a line: its maximal runs of non-whitespace characters, in
/// order.
pub open spec fn spec_tokens(s: Seq<char>) -> Seq<Seq<char>> {
    let st = spec_split_state(s);
    if st.1.len() == 0 {
        st.0
    } else {
        st.0.push(st.1)
    }
}

/// Split a line into its whitespace-separated tokens.
pub fn split_spaces(s: &str) -> (r: Vec<String>)
    ensures
        r.deep_view() == spec_tokens(s@),
{
    let n = s.unicode_len();
    let mut toks: Vec<String> = Vec::new();
    let mut cur = String::new();
    let mut i: usize = 0;
    while i < n
        invariant
            n == s@.len(),
            i <= n,
            (toks.deep_view(), cur@) == spec_split_state(s@.subrange(0, i as int)),
        decreases n - i,
    {
        let c = s.get_char(i);
        proof {
            assert(s@.subrange(0, i + 1).drop_last() =~= s@.subrange(0, i as int));
        }
        if is_space(c) {
            if unicode_len_of_string(&cur) > 0 {
                toks.push(cur);
                cur = String::new();
                proof {
                    assert(toks.deep_view() =~= spec_split_state(s@.subrange(0, i + 1)).0);
                }
            }
        } else {
            push_char(&mut cur, c);
        }
        i = i + 1;
    }
    proof {
        assert(s@.subrange(0, n as int) =~= s@);
    }
    if unicode_len_of_string(&cur) > 0 {
        toks.push(cur);
        proof {
            assert(toks.deep_view() =~= spec_tokens(s@));
        }
    }
    toks
}

/// Whether a character is one of this library's whitespace characters.
pub fn is_space(c: char) -> (r: bool)
    ensures
        r == spec_is_space(c),
{
    c == ' ' || c == '\t' || c == '\n' || c == '\r'
}

/// The number of characters in an owned string.
pub fn unicode_len_of_string(s: &String) -> (n: usize)
    ensures
        n == s@.len(),
{
    s.as_str().unicode_len()
}

/// The parts joined with the separator between consecutive parts.
pub open spec fn spec_join(parts: Seq<Seq<char>>, sep: Seq<char>) -> Seq<char>
    decreases parts.len(),
{
    if parts.len() == 0 {
        seq![]
    } else if parts.len() == 1 {
        parts.last()
    } else {
        spec_join(parts.drop_last(), sep) + sep + parts.last()
    }
}

/// Join strings with a separator between consecutive entries.
pub fn join_with(parts: &Vec<String>, sep: &str) -> (r: String)
    ensures
        r@ == spec_join(parts.deep_view(), sep@),
{
    let mut r = String::new();
    let mut i: usize = 0;
    while i < parts.len()
        invariant
            i <= parts.len(),
            r@ == spec_join(parts.deep_view().subrange(0, i as int), sep@),
        decreases parts.len() - i,
    {
        if i > 0 {
            r.append(sep);
        }
        r.append(parts[i].as_str());
        proof {
            assert(parts.deep_view().subrange(0, i + 1).drop_last() =~= parts.deep_view().subrange(
                0,
                i as int,
            ));
            assert(parts.deep_view().subrange(0, i + 1).last() == parts.deep_view()[i as int]);
        }
        i = i + 1;
    }
    proof {
        assert(parts.deep_view().subrange(0, parts.deep_view().len() as int) =~= parts.deep_view());
    }
    r
}

/// The line without its leading whitespace.
pub open spec fn spec_trim_front(s: Seq<char>) -> Seq<char>
    decreases s.len(),
{
    if s.len() > 0 && spec_is_space(s.first()) {
        spec_trim_front(s.drop_first())
    } else {
        s
    }
}

/// The line without its trailing whitespace.
pub open spec fn spec_trim_back(s: Seq<char>) -> Seq<char>
    decreases s.len(),
{
    if s.len() > 0 && spec_is_space(s.last()) {
        spec_trim_back(s.drop_last())
    } else {
        s
    }
}

/// The line without leading and trailing whitespace.
pub open spec fn spec_trim(s: Seq<char>) -> Seq<char> {
    spec_trim_back(spec_trim_front(s))
}

/// Copy of the input without leading and trailing whitespace.
pub fn trim_str(s: &str) -> (r: String)
    ensures
        r@ == spec_trim(s@),
{
    let n = s.unicode_len();
    proof {
        assert(s@.subrange(0, n as int) =~= s@);
    }
    let mut a: usize = 0;
    loop
        invariant
            n == s@.len(),
            a <= n,
            spec_trim_front(s@) == spec_trim_front(s@.subrange(a as int, n as int)),
        ensures
            a <= n,
            spec_trim_front(s@) == s@.subrange(a as int, n as int),
        decreases n - a,
    {
        if a == n {
            break ;
        }
        let c = s.get_char(a);
        if !is_space(c) {
            break ;
        }
        proof {
            assert(s@.subrange(a as int, n as int).drop_first() =~= s@.subrange(
                a + 1,
                n as int,
            ));
        }
        a = a + 1;
    }
    let mut b: usize = n;
    loop
        invariant
            n == s@.len(),
            a <= b <= n,
            spec_trim_front(s@) == s@.subrange(a as int, n as int),
            spec_trim_back(s@.subrange(a as int, n as int)) == spec_trim_back(
                s@.subrange(a as int, b as int),
            ),
        ensures
            a <= b <= n,
            spec_trim(s@) == s@.subrange(a as int, b as int),
        decreases b,
    {
        if b == a {
            break ;
        }
        let c = s.get_char(b - 1);
        if !is_space(c) {
            break ;
        }
        proof {
            assert(s@.subrange(a as int, b as int).drop_last() =~= s@.subrange(
                a as int,
                b - 1,
            ));
        }
        b = b - 1;
    }
    String::from_str(s.substring_char(a, b))
}

/// The line with every plain space character removed.
pub open spec fn spec_remove_spaces(s: Seq<char>) -> Seq<char>
    decreases s.len(),
{
    if s.len() == 0 {
        seq![]
    } else {
        let r = spec_remove_spaces(s.drop_last());
        if s.last() == ' ' {
            r
        } else {
            r.push(s.last())
        }
    }
}

/// Copy of the input with every plain space character removed.
pub fn remove_spaces(s: &str) -> (r: String)
    ensures
        r@ == spec_remove_spaces(s@),
{
    let n = s.unicode_len();
    let mut r = String::new();
    let mut i: usize = 0;
    while i < n
        invariant
            n == s@.len(),
            i <= n,
            r@ == spec_remove_spaces(s@.subrange(0, i as int)),
        decreases n - i,
    {
        let c = s.get_char(i);
        proof {
            assert(s@.subrange(0, i + 1).drop_last() =~= s@.subrange(0, i as int));
        }
        if c != ' ' {
            push_char(&mut r, c);
        }
        i = i + 1;
    }
    proof {
        assert(s@.subrange(0, n as int) =~= s@);
    }
    r
}

/// Whether a character is an ASCII decimal digit.
pub fn is_digit(c: char) -> (r: bool)
    ensures
        r == spec_is_digit(c),
{
    let u = c as u32;
    48 <= u && u <= 57
}

/// Whether some entry of the list holds exactly these characters.
pub fn contains_string(v: &Vec<String>, x: &String) -> (r: bool)
    ensures
        r == v.deep_view().contains(x@),
{
    let mut i: usize = 0;
    while i < v.len()
        invariant
            i <= v@.len(),
            forall|k: int| 0 <= k < i ==> #[trigger] v.deep_view()[k] != x@,
        decreases v@.len() - i,
    {
        proof {
            assert(v.deep_view()[i as int] == v@[i as int]@);
        }
        if v[i] == *x {
            proof {
                assert(v.deep_view().contains(x@));
            }
            return true;
        }
        i = i + 1;
    }
    proof {
        assert(!v.deep_view().contains(x@));
    }
    false
}

/// The lowercase form of a line of characters. The mapping is fixed by the
/// characters alone; nothing else about it is assumed.
pub uninterp spec fn lower_of(s: Seq<char>) -> Seq<char>;

/// Relies on str::to_lowercase: the result depends on the characters of the
/// input alone.
#[verifier::external_body]
pub fn lowercase(s: &str) -> (r: String)
    ensures
        r@ == lower_of(s@),
{
    s.to_lowercase()
}

/// Relies on rand::Rng::gen_range: the result lies below `n`; nothing else
/// is assumed of the draw.
#[verifier::external_body]
pub(crate) fn random_below(n: usize) -> (r: usize)
    requires
        n > 0,
    ensures
        r < n,
{
    rand::Rng::gen_range(&mut rand::thread_rng(), 0..n)
}

/// One entry picked uniformly at random from the store; with
/// `load_attributes` true its phonetic cache is filled before it is handed
/// out, so the interactive side never waits on the decoder for it.
pub fn get_random_word(
    store: &Vec<BaseModel>,
    dict: &Dictionary,
    load_attributes: bool,
) -> (r: BaseModel)
    requires
        store@.len() > 0,
    ensures
        exists|i: int|
            0 <= i < store@.len() && spec_entry_key(r) == spec_entry_key(#[trigger] store@[i]),
        load_attributes ==> r.pinyin_fetched,
{
    let i = random_below(store.len());
    let mut m = store[i].clone();
    if load_attributes {
        let _ = m.pinyin(dict);
    }
    proof {
        assert(spec_entry_key(m) == spec_entry_key(store@[i as int]));
    }
    m
}

} // verus!
