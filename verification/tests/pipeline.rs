use lingua::game::{GameMode, Mode, PrefetchPipeline, VocabularyStore};
use lingua::models::BaseModel;

fn entry(word: &str) -> BaseModel {
    BaseModel::new(
        vec![word.to_string()],
        vec![word.to_string()],
        vec!["gloss".to_string()],
        None,
    )
}

#[test]
fn test_capacity_is_min_of_ten_and_vocabulary_size() {
    let small = PrefetchPipeline::new(3);
    assert_eq!(small.capacity, 3);
    let large = PrefetchPipeline::new(500);
    assert_eq!(large.capacity, 10);
}

#[test]
fn test_queue_never_exceeds_capacity() {
    let mut p = PrefetchPipeline::new(2);
    assert!(p.try_enqueue(&entry("一")));
    assert!(p.queue.len() <= 2);
    assert!(p.try_enqueue(&entry("二")));
    assert!(p.queue.len() <= 2);
    assert!(p.is_full());
    // a full queue admits nothing, whatever the entry
    assert!(!p.try_enqueue(&entry("三")));
    assert_eq!(p.queue.len(), 2);
}

#[test]
fn test_no_duplicates_within_one_window() {
    let mut p = PrefetchPipeline::new(10);
    let e = entry("你好");
    assert!(p.try_enqueue(&e));
    // the same entry prepared again is discarded, so the queue never holds
    // two structurally equal items at once
    assert!(!p.try_enqueue(&e));
    assert!(p.try_enqueue(&entry("再見")));
    assert!(!p.try_enqueue(&entry("你好")));
    assert_eq!(p.queue.len(), 2);
}

#[test]
fn test_trim_forgets_consumed_entries() {
    let mut p = PrefetchPipeline::new(10);
    assert!(p.try_enqueue(&entry("一")));
    assert!(p.try_enqueue(&entry("二")));
    let got = p.dequeue().expect("entry in flight");
    assert_eq!(got.traditional, vec!["一".to_string()]);
    // before the trim the window still remembers the consumed entry
    assert!(!p.try_enqueue(&entry("一")));
    p.trim_window();
    // after the trim the window follows consumption, so the consumed entry
    // may be prepared again
    assert!(p.try_enqueue(&entry("一")));
    assert_eq!(p.queue.len(), 2);
}

#[test]
fn test_dequeue_is_fifo() {
    let mut p = PrefetchPipeline::new(5);
    assert!(p.try_enqueue(&entry("一")));
    assert!(p.try_enqueue(&entry("二")));
    assert!(p.try_enqueue(&entry("三")));
    assert_eq!(p.dequeue().unwrap().traditional, vec!["一".to_string()]);
    assert_eq!(p.dequeue().unwrap().traditional, vec!["二".to_string()]);
    assert_eq!(p.dequeue().unwrap().traditional, vec!["三".to_string()]);
    assert!(p.dequeue().is_none());
}

#[test]
fn test_many_attempts_stay_bounded_and_distinct() {
    let mut p = PrefetchPipeline::new(4);
    let words = ["一", "二", "三", "四", "五", "六", "一", "二", "三", "四"];
    for w in words.iter() {
        let _ = p.try_enqueue(&entry(w));
        assert!(p.queue.len() <= 4);
    }
    for i in 0..p.queue.len() {
        for j in 0..p.queue.len() {
            if i != j {
                assert!(!(p.queue[i] == p.queue[j]));
            }
        }
    }
}

#[test]
fn test_game_mode_from_str() {
    assert!(matches!(GameMode::from_str("1"), Some(GameMode::Words)));
    assert!(matches!(GameMode::from_str(" WORDS "), Some(GameMode::Words)));
    assert!(matches!(GameMode::from_str("2"), Some(GameMode::Phrases)));
    assert!(matches!(GameMode::from_str("sentences"), Some(GameMode::Sentences)));
    assert!(matches!(GameMode::from_str("Tones"), Some(GameMode::Tones)));
    assert!(matches!(GameMode::from_str("5"), Some(GameMode::Random)));
    assert!(GameMode::from_str("six").is_none());
    assert!(GameMode::from_str("").is_none());
}

#[test]
fn test_mode_picks_its_list() {
    let store = VocabularyStore {
        words: vec![entry("字")],
        phrases: vec![entry("你好"), entry("再見")],
        sentences: vec![entry("我愛你")],
    };
    assert_eq!(Mode::Words.get_json_file(&store).len(), 1);
    assert_eq!(Mode::Phrases.get_json_file(&store).len(), 2);
    assert_eq!(Mode::Sentences.get_json_file(&store).len(), 1);
    assert_eq!(Mode::Tones.get_json_file(&store).len(), 2);
    assert_eq!(Mode::Random.get_json_file(&store).len(), 2);
}
