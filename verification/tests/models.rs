use lingua::file_io::{read_phrases, Dictionary};
use lingua::models::{BaseModel, BaseModelDto, ToBaseModel};

fn dict_record(traditional: &str, english: &str, pinyin: &str) -> String {
    let mut s = String::new();
    s.push_str("{\"traditional\":\"");
    s.push_str(traditional);
    s.push_str("\",\"simplified\":\"");
    s.push_str(traditional);
    s.push_str("\",\"english\":\"");
    s.push_str(english);
    s.push_str("\",\"pinyin\":\"");
    s.push_str(pinyin);
    s.push_str("\"}");
    s
}

fn dict_from_records(records: &[String]) -> Dictionary {
    let mut s = String::from("[");
    s.push_str(&records.join(","));
    s.push(']');
    Dictionary::new(s.into_bytes())
}

fn char_dictionary() -> Dictionary {
    dict_from_records(&[
        dict_record("你", "you", "nǐ"),
        dict_record("好", "good", "hǎo"),
        dict_record("我", "I", "wǒ"),
        dict_record("愛", "love", "ài"),
        dict_record("了", "particle", "le"),
    ])
}

fn get_base_model() -> BaseModel {
    BaseModel::new(
        vec!["你好".to_string(), "我愛你".to_string(), "你好了".to_string()],
        vec!["你好".to_string(), "我爱你".to_string(), "你好了".to_string()],
        vec!["hello".to_string(), "I love you".to_string(), "hello".to_string()],
        Some(vec!["This is a very common greeting.".to_string()]),
    )
}

#[test]
fn test_base_model_tones() {
    let dict = char_dictionary();
    let mut model = get_base_model();
    assert_eq!(
        model.tones(&dict),
        vec!["ni3 hao3".to_string(), "wo3 ai4 ni3".to_string(), "ni3 hao3 le".to_string()]
    );
}

#[test]
fn test_get_pinying() {
    let dict = dict_from_records(&[dict_record("請", "please", "qǐng")]);
    let mut model = BaseModel::new(
        vec!["請".to_string()],
        vec!["請".to_string()],
        vec!["please".to_string()],
        None,
    );
    assert_eq!(
        model.pinyin(&dict),
        std::iter::once(&"qǐng").map(std::string::ToString::to_string).collect::<Vec<_>>()
    );
}

#[test]
fn test_pinyin_memoized_without_decoder() {
    let dict = char_dictionary();
    let mut model = get_base_model();
    let first = model.pinyin(&dict);
    // A dictionary that cannot answer anything: if the second call did any
    // decoder work at all, the result could not match the first one.
    let dead = Dictionary::new(b"x".to_vec());
    let second = model.pinyin(&dead);
    assert_eq!(first, second);
    let third = model.pinyin(&dead);
    assert_eq!(first, third);
}

#[test]
fn test_whole_word_entry_used_verbatim() {
    // The whole word has a direct entry; the per-character path would have
    // produced "nǐ hǎo" instead.
    let dict = dict_from_records(&[
        dict_record("你好", "hello", "Nǐhǎo"),
        dict_record("你", "you", "nǐ"),
        dict_record("好", "good", "hǎo"),
    ]);
    let mut model = BaseModel::new(
        vec!["你好".to_string()],
        vec!["你好".to_string()],
        vec!["hello".to_string()],
        None,
    );
    assert_eq!(model.pinyin(&dict), vec!["nǐhǎo".to_string()]);
}

#[test]
fn test_any_miss_discards_partial_whole_word_results() {
    // 你好 resolves whole-word, 我愛你 does not: everything falls back to
    // per-character resolution, and the whole-word hit is discarded.
    let dict = dict_from_records(&[
        dict_record("你好", "hello", "Nǐhǎo"),
        dict_record("你", "you", "nǐ"),
        dict_record("好", "good", "hǎo"),
        dict_record("我", "I", "wǒ"),
        dict_record("愛", "love", "ài"),
    ]);
    let mut model = BaseModel::new(
        vec!["你好".to_string(), "我愛你".to_string()],
        vec!["你好".to_string(), "我爱你".to_string()],
        vec!["hello".to_string(), "I love you".to_string()],
        None,
    );
    assert_eq!(model.pinyin(&dict), vec!["nǐ hǎo".to_string(), "wǒ ài nǐ".to_string()]);
}

#[test]
fn test_missing_character_silently_omitted() {
    // 愛 has no entry: its syllable is dropped and the survivors are joined
    // with single spaces.
    let dict = dict_from_records(&[dict_record("我", "I", "wǒ"), dict_record("你", "you", "nǐ")]);
    let mut model = BaseModel::new(
        vec!["我愛你".to_string()],
        vec!["我爱你".to_string()],
        vec!["I love you".to_string()],
        None,
    );
    assert_eq!(model.pinyin(&dict), vec!["wǒ nǐ".to_string()]);
}

#[test]
fn test_tones_single_word() {
    let dict = dict_from_records(&[dict_record("請", "please", "qǐng")]);
    let mut model = BaseModel::new(
        vec!["請".to_string()],
        vec!["請".to_string()],
        vec!["please".to_string()],
        None,
    );
    assert_eq!(model.tones(&dict), vec!["qing3".to_string()]);
    assert!(!model.has_normal_tones(&dict));
}

#[test]
fn test_neutral_tone_detected() {
    let dict = dict_from_records(&[dict_record("了", "particle", "le")]);
    let mut model = BaseModel::new(
        vec!["了".to_string()],
        vec!["了".to_string()],
        vec!["particle".to_string()],
        None,
    );
    assert_eq!(model.tones(&dict), vec!["le".to_string()]);
    assert!(model.has_normal_tones(&dict));
}

#[test]
fn test_last_diacritic_decides_tone_digit() {
    let dict = dict_from_records(&[dict_record("假", "fake", "jiǎà")]);
    let mut model = BaseModel::new(
        vec!["假".to_string()],
        vec!["假".to_string()],
        vec!["fake".to_string()],
        None,
    );
    assert_eq!(model.tones(&dict), vec!["jiaa4".to_string()]);
}

#[test]
fn test_clone_copies_cache() {
    let dict = char_dictionary();
    let mut model = get_base_model();
    let first = model.pinyin(&dict);
    let mut copy = model.clone();
    let dead = Dictionary::new(b"x".to_vec());
    assert_eq!(copy.pinyin(&dead), first);
}

#[test]
fn test_entry_equality_ignores_cache() {
    let dict = char_dictionary();
    let mut loaded = get_base_model();
    loaded.pinyin(&dict);
    let fresh = get_base_model();
    assert!(loaded == fresh);
    let other = BaseModel::new(
        vec!["請".to_string()],
        vec!["請".to_string()],
        vec!["please".to_string()],
        None,
    );
    assert!(!(loaded == other));
}

#[test]
fn test_question_and_responses() {
    let dict = dict_from_records(&[dict_record("請", "please", "qǐng")]);
    let mut model = BaseModel::new(
        vec!["請".to_string()],
        vec!["請".to_string()],
        vec!["please".to_string()],
        None,
    );
    assert_eq!(
        model.question_chinese(&dict),
        "Here is a word in Chinese qǐng, 請. What is it in English?"
    );
    assert_eq!(model.question_english(), "Here is a word in English please. What is it in Chinese?");
    assert_eq!(
        model.handle_chinese_response(" PLEASE "),
        "Correct! Well done!. The English translation is: please\n"
    );
    assert_eq!(
        model.handle_chinese_response("sorry"),
        "Wrong!. The English translation is: please\n"
    );
    assert_eq!(
        model.handle_english_response(&dict, " QING "),
        "Correct! Well done!. The Chinese translation is: qǐng, 請\n"
    );
    assert_eq!(
        model.handle_english_response(&dict, "qing3"),
        "Wrong!. The Chinese translation is: qǐng, 請\n"
    );
}

#[test]
fn test_pinyin_alphabet() {
    let dict = dict_from_records(&[dict_record("請", "please", "qǐng")]);
    let mut model = BaseModel::new(
        vec!["請".to_string()],
        vec!["請".to_string()],
        vec!["please".to_string()],
        None,
    );
    assert_eq!(model.pinyin_alphabet(&dict), vec!["qing".to_string()]);
}

#[test]
fn test_entry_without_words() {
    let dict = char_dictionary();
    let mut model = BaseModel::new(Vec::new(), Vec::new(), Vec::new(), None);
    assert!(model.pinyin(&dict).is_empty());
    assert!(model.tones(&dict).is_empty());
    assert!(!model.has_normal_tones(&dict));
    assert!(model.pinyin_fetched);
}

#[test]
fn test_read_phrases() {
    let dtos = vec![
        BaseModelDto {
            traditional: vec!["你好".to_string()],
            simplified: vec!["你好".to_string()],
            english: vec!["hello".to_string()],
            notes: None,
        },
        BaseModelDto {
            traditional: vec!["請".to_string()],
            simplified: vec!["請".to_string()],
            english: vec!["please".to_string()],
            notes: Some(vec!["polite".to_string()]),
        },
    ];
    let models = read_phrases(dtos);
    assert_eq!(models.len(), 2);
    assert_eq!(models[0].traditional, vec!["你好".to_string()]);
    assert_eq!(models[1].english, vec!["please".to_string()]);
    assert_eq!(models[1].notes, Some(vec!["polite".to_string()]));
    assert!(!models[0].pinyin_fetched);
}

#[test]
fn test_to_base_model() {
    let dto = BaseModelDto {
        traditional: vec!["我".to_string()],
        simplified: vec!["我".to_string()],
        english: vec!["I".to_string()],
        notes: None,
    };
    let model = dto.to_base_model();
    assert_eq!(model.traditional, vec!["我".to_string()]);
    assert!(model.pinyin.is_none());
}
