//! The quiz modes and the prefetch pipeline.
//!
//! The pipeline has a single producer and a bounded queue of capacity
//! min(10, vocabulary size) feeding the interactive consumer. The producer
//! keeps a private dedup window — a FIFO of recently enqueued entries — so
//! that no two structurally equal entries are in flight at once, and trims
//! that window in lockstep with consumption. The laws at the end of this
//! module state the two standing guarantees: the queue never exceeds its
//! capacity, and it never holds duplicates.

use vstd::prelude::*;
use vstd::string::StringExecFns;

use crate::models::{spec_entry_key, BaseModel};
use crate::utils::{lower_of, lowercase, spec_trim, trim_str};

verus! {

/// The selectable quiz modes.
#[derive(Clone, Copy, Debug)]
pub enum Mode {
    Words,
    Phrases,
    Sentences,
    Tones,
    Random,
}

/// The vocabulary lists, loaded once at startup from their plain files and
/// read-only from then on; every part of the quiz borrows them from here.
pub struct VocabularyStore {
    pub words: Vec<BaseModel>,
    pub phrases: Vec<BaseModel>,
    pub sentences: Vec<BaseModel>,
}

impl Mode {
    /// The vocabulary list this mode draws its entries from.
    pub fn get_json_file<'a>(&self, store: &'a VocabularyStore) -> (r: &'a Vec<BaseModel>)
        ensures
            *r == (match *self {
                Mode::Words => store.words,
                Mode::Sentences => store.sentences,
                _ => store.phrases,
            }),
    {
        match self {
            Mode::Words => &store.words,
            Mode::Phrases => &store.phrases,
            Mode::Sentences => &store.sentences,
            Mode::Tones => &store.phrases,
            Mode::Random => &store.phrases,
        }
    }
}

/// The menu selections of the main loop.
#[derive(Clone, Copy, Debug, PartialEq, Eq, Structural)]
pub enum GameMode {
    Words,
    Phrases,
    Sentences,
    Tones,
    Random,
}

/// The selection named by one line of input, lowercased and trimmed: a
/// number or a mode name, or nothing recognizable.
pub open spec fn spec_game_mode(input: Seq<char>) -> Option<GameMode> {
    let t = spec_trim(lower_of(input));
    if t == "1"@ || t == "words"@ {
        Some(GameMode::Words)
    } else if t == "2"@ || t == "phrases"@ {
        Some(GameMode::Phrases)
    } else if t == "3"@ || t == "sentences"@ {
        Some(GameMode::Sentences)
    } else if t == "4"@ || t == "tones"@ {
        Some(GameMode::Tones)
    } else if t == "5"@ || t == "random"@ {
        Some(GameMode::Random)
    } else {
        None
    }
}

impl GameMode {
    /// The mode a line of input selects, if any: its number or its name,
    /// case and surrounding whitespace disregarded.
    pub fn from_str(input: &str) -> (r: Option<GameMode>)
        ensures
            r == spec_game_mode(input@),
    {
        let low = lowercase(input);
        let t = trim_str(low.as_str());
        if t == String::from_str("1") || t == String::from_str("words") {
            Some(GameMode::Words)
        } else if t == String::from_str("2") || t == String::from_str("phrases") {
            Some(GameMode::Phrases)
        } else if t == String::from_str("3") || t == String::from_str("sentences") {
            Some(GameMode::Sentences)
        } else if t == String::from_str("4") || t == String::from_str("tones") {
            Some(GameMode::Tones)
        } else if t == String::from_str("5") || t == String::from_str("random") {
            Some(GameMode::Random)
        } else {
            None
        }
    }
}

/// The queue capacity for a vocabulary of `n` entries: min(10, n).
pub open spec fn spec_capacity(n: usize) -> usize {
    if n < 10 {
        n
    } else {
        10
    }
}

/// The producer-side state of the prefetch pipeline, with a model of the
/// bounded queue between producer and consumer.
///
/// `queue` holds the entries currently in flight, oldest first; `window` is
/// the producer's private dedup FIFO of recently enqueued entries. The
/// entries in flight are always the youngest part of the window, so
/// refusing anything already in the window keeps the queue free of
/// structural duplicates.
pub struct PrefetchPipeline {
    pub capacity: usize,
    pub queue: Vec<BaseModel>,
    pub window: Vec<BaseModel>,
}

impl PrefetchPipeline {
    /// The pipeline's standing invariant: the capacity is at most 10, the
    /// queue respects it, the entries in flight mirror the youngest part of
    /// the dedup window, and the window holds no two structurally equal
    /// entries.
    pub open spec fn wf(&self) -> bool {
        &&& self.capacity <= 10
        &&& self.queue@.len() <= self.capacity
        &&& self.queue@.len() <= self.window@.len()
        &&& forall|i: int|
            0 <= i < self.queue@.len() ==> spec_entry_key(#[trigger] self.queue@[i])
                == spec_entry_key(
                self.window@[self.window@.len() - self.queue@.len() + i],
            )
        &&& forall|i: int, j: int|
            0 <= i < j < self.window@.len() ==> spec_entry_key(#[trigger] self.window@[i])
                != spec_entry_key(#[trigger] self.window@[j])
    }

    /// An empty pipeline for a vocabulary of the given size; the queue
    /// capacity is min(10, vocabulary_size).
    pub fn new(vocabulary_size: usize) -> (r: Self)
        requires
            vocabulary_size >= 1,
        ensures
            r.wf(),
            r.capacity == spec_capacity(vocabulary_size),
            r.queue@.len() == 0,
            r.window@.len() == 0,
    {
        let capacity: usize = if vocabulary_size < 10 {
            vocabulary_size
        } else {
            10
        };
        PrefetchPipeline { capacity, queue: Vec::new(), window: Vec::new() }
    }

    /// Whether the queue is at capacity; a full queue makes the producer
    /// sleep and retry rather than block indefinitely.
    pub fn is_full(&self) -> (r: bool)
        ensures
            r == (self.queue@.len() >= self.capacity),
    {
        self.queue.len() >= self.capacity
    }

    /// Whether any entry of the dedup window is structurally equal to the
    /// candidate.
    fn window_contains(&self, entry: &BaseModel) -> (r: bool)
        ensures
            r == exists|i: int|
                0 <= i < self.window@.len() && spec_entry_key(#[trigger] self.window@[i])
                    == spec_entry_key(*entry),
    {
        let mut i: usize = 0;
        while i < self.window.len()
            invariant
                i <= self.window@.len(),
                forall|k: int|
                    0 <= k < i ==> spec_entry_key(#[trigger] self.window@[k]) != spec_entry_key(
                        *entry,
                    ),
            decreases self.window@.len() - i,
        {
            if self.window[i] == *entry {
                return true;
            }
            i = i + 1;
        }
        false
    }

    /// Evict entries from the front of the dedup window until it holds no
    /// more than the number of entries still in flight. This keeps the
    /// window's effective freshness in lockstep with consumption rather
    /// than with wall-clock time.
    pub fn trim_window(&mut self)
        requires
            old(self).wf(),
        ensures
            final(self).wf(),
            final(self).capacity == old(self).capacity,
            final(self).queue@ == old(self).queue@,
            final(self).window@ == old(self).window@.skip(
                old(self).window@.len() - old(self).queue@.len(),
            ),
            final(self).window@.len() == final(self).queue@.len(),
    {
        let diff = self.window.len() - self.queue.len();
        let tail = self.window.split_off(diff);
        self.window = tail;
        proof {
            assert(self.window@ =~= old(self).window@.skip(
                old(self).window@.len() - old(self).queue@.len(),
            ));
            assert forall|i: int, j: int|
                0 <= i < j < self.window@.len() implies spec_entry_key(self.window@[i])
                != spec_entry_key(self.window@[j]) by {
                let off = old(self).window@.len() - self.window@.len();
                assert(self.window@[i] == old(self).window@[off + i]);
                assert(self.window@[j] == old(self).window@[off + j]);
            }
        }
    }

    /// Admit a prepared entry: when the queue has room and no structurally
    /// equal entry stands in the dedup window, the entry joins the queue
    /// and the window; otherwise nothing changes and the caller discards
    /// the prepared item.
    pub fn try_enqueue(&mut self, entry: &BaseModel) -> (admitted: bool)
        requires
            old(self).wf(),
        ensures
            final(self).wf(),
            final(self).capacity == old(self).capacity,
            admitted <==> (old(self).queue@.len() < old(self).capacity && !(exists|i: int|
                0 <= i < old(self).window@.len() && spec_entry_key(#[trigger] old(self).window@[i])
                    == spec_entry_key(*entry))),
            admitted ==> {
                &&& final(self).queue@.len() == old(self).queue@.len() + 1
                &&& final(self).queue@.drop_last() == old(self).queue@
                &&& spec_entry_key(final(self).queue@.last()) == spec_entry_key(*entry)
                &&& final(self).window@.drop_last() == old(self).window@
                &&& spec_entry_key(final(self).window@.last()) == spec_entry_key(*entry)
            },
            !admitted ==> *final(self) == *old(self),
    {
        if self.queue.len() < self.capacity {
            if !self.window_contains(entry) {
                self.queue.push(entry.clone());
                self.window.push(entry.clone());
                proof {
                    assert(self.queue@.drop_last() =~= old(self).queue@);
                    assert(self.window@.drop_last() =~= old(self).window@);
                }
                return true;
            }
        }
        false
    }

    /// The consumer's receive, on the model: the oldest entry in flight
    /// leaves the queue in strict FIFO order; the dedup window is untouched.
    pub fn dequeue(&mut self) -> (r: Option<BaseModel>)
        requires
            old(self).wf(),
        ensures
            final(self).wf(),
            final(self).capacity == old(self).capacity,
            final(self).window@ == old(self).window@,
            old(self).queue@.len() == 0 ==> (r is None && final(self).queue@ == old(self).queue@),
            old(self).queue@.len() > 0 ==> (r matches Some(e) && e == old(self).queue@.first()
                && final(self).queue@ == old(self).queue@.drop_first()),
    {
        if self.queue.len() == 0 {
            return None;
        }
        let e = self.queue.remove(0);
        proof {
            assert(self.queue@ =~= old(self).queue@.drop_first());
        }
        Some(e)
    }
}

/// Dedup law: in a well-formed pipeline — so after any sequence of
/// admissions, trims and receives, however many pushes the producer
/// attempted within one un-trimmed window — no two entries present in the
/// queue at the same time are structurally equal.
pub proof fn lemma_queue_dedup(p: PrefetchPipeline)
    requires
        p.wf(),
    ensures
        forall|i: int, j: int|
            0 <= i < j < p.queue@.len() ==> spec_entry_key(#[trigger] p.queue@[i])
                != spec_entry_key(#[trigger] p.queue@[j]),
{
    assert forall|i: int, j: int|
        0 <= i < j < p.queue@.len() implies spec_entry_key(p.queue@[i]) != spec_entry_key(
        p.queue@[j],
    ) by {
        let off = p.window@.len() - p.queue@.len();
        assert(spec_entry_key(p.queue@[i]) == spec_entry_key(p.window@[off + i]));
        assert(spec_entry_key(p.queue@[j]) == spec_entry_key(p.window@[off + j]));
    }
}

/// Bound law: in a well-formed pipeline built for a vocabulary of
/// `vocabulary_size` entries, the queue's length never exceeds
/// min(10, vocabulary_size), at any observation point.
pub proof fn lemma_queue_bound(p: PrefetchPipeline, vocabulary_size: usize)
    requires
        p.wf(),
        p.capacity == spec_capacity(vocabulary_size),
    ensures
        p.queue@.len() <= 10,
        p.queue@.len() <= vocabulary_size,
{
}

} // verus!
