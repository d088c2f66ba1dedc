//! Watch progress: for each video, where playback stopped, the video's
//! length and when it was last watched. Playback times are carried as the
//! bit patterns of the player's 64-bit floating-point seconds.
use vstd::prelude::*;
use crate::text::same_text;

verus! {

/// The saved progress of one video.
pub struct WatchProgress {
    pub path: String,
    pub current_time_bits: u64,
    pub duration_bits: u64,
    pub last_watched: u64,
}

/// A progress entry as plain values.
pub struct ProgressRecord {
    pub path: Seq<char>,
    pub current_time_bits: u64,
    pub duration_bits: u64,
    pub last_watched: u64,
}

impl DeepView for WatchProgress {
    type V = ProgressRecord;

    open spec fn deep_view(&self) -> ProgressRecord {
        ProgressRecord {
            path: self.path@,
            current_time_bits: self.current_time_bits,
            duration_bits: self.duration_bits,
            last_watched: self.last_watched,
        }
    }
}

impl WatchProgress {
    /// A copy of this entry.
    pub fn duplicate(&self) -> (r: WatchProgress)
        ensures
            r.deep_view() == self.deep_view(),
    {
        WatchProgress {
            path: self.path.clone(),
            current_time_bits: self.current_time_bits,
            duration_bits: self.duration_bits,
            last_watched: self.last_watched,
        }
    }
}

/// The record saved for `path` with the given times.
pub open spec fn progress_record(
    path: Seq<char>,
    current_time_bits: u64,
    duration_bits: u64,
    last_watched: u64,
) -> ProgressRecord {
    ProgressRecord { path, current_time_bits, duration_bits, last_watched }
}

/// The map that a list of (key, entry) pairs describes; a later pair for the
/// same key replaces an earlier one.
pub open spec fn map_of_pairs(pairs: Seq<(String, WatchProgress)>) -> Map<Seq<char>, ProgressRecord>
    decreases pairs.len(),
{
    if pairs.len() == 0 {
        Map::empty()
    } else {
        map_of_pairs(pairs.drop_last()).insert(pairs.last().0@, pairs.last().1.deep_view())
    }
}

/// No key occurs twice among the pairs.
pub open spec fn keys_distinct(pairs: Seq<(String, WatchProgress)>) -> bool {
    forall|i: int, j: int|
        0 <= i < pairs.len() && 0 <= j < pairs.len() && i != j ==> #[trigger] pairs[i].0@
            != #[trigger] pairs[j].0@
}

/// All saved progress, keyed by video path.
pub struct WatchProgressStore {
    entries: Vec<(String, WatchProgress)>,
}

proof fn lemma_map_of_distinct(pairs: Seq<(String, WatchProgress)>)
    requires
        keys_distinct(pairs),
    ensures
        forall|k: Seq<char>|
            #![trigger map_of_pairs(pairs).dom().contains(k)]
            map_of_pairs(pairs).dom().contains(k) <==> exists|i: int|
                0 <= i < pairs.len() && pairs[i].0@ == k,
        forall|i: int|
            0 <= i < pairs.len() ==> map_of_pairs(pairs).dom().contains(#[trigger] pairs[i].0@)
                && map_of_pairs(pairs)[pairs[i].0@] == pairs[i].1.deep_view(),
    decreases pairs.len(),
{
    if pairs.len() > 0 {
        let init = pairs.drop_last();
        assert(keys_distinct(init)) by {
            assert forall|i: int, j: int|
                0 <= i < init.len() && 0 <= j < init.len() && i != j implies #[trigger] init[i].0@
                != #[trigger] init[j].0@ by {
                assert(init[i] == pairs[i] && init[j] == pairs[j]);
            }
        }
        lemma_map_of_distinct(init);
        let last = pairs.last();
        assert forall|k: Seq<char>|
            #![trigger map_of_pairs(pairs).dom().contains(k)]
            map_of_pairs(pairs).dom().contains(k) <==> exists|i: int|
                0 <= i < pairs.len() && pairs[i].0@ == k by {
            if map_of_pairs(pairs).dom().contains(k) {
                if k == last.0@ {
                    assert(pairs[pairs.len() - 1].0@ == k);
                } else {
                    assert(map_of_pairs(init).dom().contains(k));
                    let i = choose|i: int| 0 <= i < init.len() && init[i].0@ == k;
                    assert(pairs[i] == init[i]);
                }
            }
            if exists|i: int| 0 <= i < pairs.len() && pairs[i].0@ == k {
                let i = choose|i: int| 0 <= i < pairs.len() && pairs[i].0@ == k;
                if i < pairs.len() - 1 {
                    assert(init[i] == pairs[i]);
                    assert(map_of_pairs(init).dom().contains(init[i].0@));
                }
            }
        }
        assert forall|i: int| 0 <= i < pairs.len() implies map_of_pairs(pairs).dom().contains(
            #[trigger] pairs[i].0@,
        ) && map_of_pairs(pairs)[pairs[i].0@] == pairs[i].1.deep_view() by {
            if i < pairs.len() - 1 {
                assert(init[i] == pairs[i]);
                assert(pairs[i].0@ != last.0@);
                assert(map_of_pairs(init).dom().contains(init[i].0@));
            }
        }
    }
}

impl WatchProgressStore {
    /// No video path occurs twice.
    #[verifier::type_invariant]
    closed spec fn well_formed(&self) -> bool {
        keys_distinct(self.entries@)
    }

    /// The saved progress, keyed by video path.
    pub closed spec fn progress_map(&self) -> Map<Seq<char>, ProgressRecord> {
        map_of_pairs(self.entries@)
    }

    /// A store with nothing saved.
    pub fn new() -> (r: WatchProgressStore)
        ensures
            r.progress_map() == Map::<Seq<char>, ProgressRecord>::empty(),
    {
        let r = WatchProgressStore { entries: Vec::new() };
        assert(r.entries@.len() == 0);
        r
    }

    /// The position of `key`'s entry, if it has one.
    fn find(&self, key: &str) -> (r: Option<usize>)
        ensures
            match r {
                Some(i) => i < self.entries@.len() && self.entries@[i as int].0@ == key@,
                None => forall|j: int|
                    0 <= j < self.entries@.len() ==> #[trigger] self.entries@[j].0@ != key@,
            },
    {
        let mut i: usize = 0;
        while i < self.entries.len()
            invariant
                i <= self.entries@.len(),
                forall|j: int| 0 <= j < i ==> #[trigger] self.entries@[j].0@ != key@,
            decreases self.entries@.len() - i,
        {
            if same_text(self.entries[i].0.as_str(), key) {
                return Some(i);
            }
            i = i + 1;
        }
        None
    }

    /// Stores `entry` under `video_path`, replacing what was stored there.
    fn put(&mut self, video_path: String, entry: WatchProgress)
        ensures
            final(self).progress_map() == old(self).progress_map().insert(
                video_path@,
                entry.deep_view(),
            ),
    {
        proof {
            use_type_invariant(&*self);
            lemma_map_of_distinct(self.entries@);
        }
        let ghost old_entries = self.entries@;
        let ghost rec = entry.deep_view();
        let found = self.find(video_path.as_str());
        let ghost new_entries = match found {
            Some(i) => old_entries.update(i as int, (video_path, entry)),
            None => old_entries.push((video_path, entry)),
        };
        assert(keys_distinct(new_entries)) by {
            assert forall|a: int, b: int|
                0 <= a < new_entries.len() && 0 <= b < new_entries.len() && a != b implies #[trigger] new_entries[a].0@
                != #[trigger] new_entries[b].0@ by {
                if found is None {
                    if a < old_entries.len() && b < old_entries.len() {
                        assert(old_entries[a] == new_entries[a] && old_entries[b] == new_entries[b]);
                    }
                } else {
                    let i = found.unwrap() as int;
                    if a != i && b != i {
                        assert(old_entries[a] == new_entries[a] && old_entries[b] == new_entries[b]);
                    } else if a == i {
                        assert(old_entries[b] == new_entries[b]);
                    } else {
                        assert(old_entries[a] == new_entries[a]);
                    }
                }
            }
        }
        proof {
            lemma_map_of_distinct(new_entries);
        }
        let ghost expected = map_of_pairs(old_entries).insert(video_path@, rec);
        assert(map_of_pairs(new_entries) =~= expected) by {
            assert forall|k: Seq<char>| #[trigger] expected.dom().contains(k) implies map_of_pairs(
                new_entries,
            ).dom().contains(k) && map_of_pairs(new_entries)[k] == expected[k] by {
                if k == video_path@ {
                    let i = match found {
                        Some(i) => i as int,
                        None => old_entries.len() as int,
                    };
                    assert(new_entries[i].0@ == k);
                } else {
                    let j = choose|j: int| 0 <= j < old_entries.len() && old_entries[j].0@ == k;
                    assert(new_entries[j] == old_entries[j]);
                }
            }
            assert forall|k: Seq<char>| #[trigger] map_of_pairs(new_entries).dom().contains(
                k,
            ) implies expected.dom().contains(k) by {
                let j = choose|j: int| 0 <= j < new_entries.len() && new_entries[j].0@ == k;
                if k != video_path@ {
                    assert(new_entries[j] == old_entries[j]);
                }
            }
        }
        let mut entries: Vec<(String, WatchProgress)> = Vec::new();
        std::mem::swap(&mut entries, &mut self.entries);
        match found {
            Some(i) => {
                entries.set(i, (video_path, entry));
            },
            None => {
                entries.push((video_path, entry));
            },
        }
        assert(entries@ =~= new_entries);
        self.entries = entries;
    }

    /// Saves the progress of a video: its entry is created or replaced, and
    /// every other entry is left as it was.
    pub fn save_watch_progress(
        &mut self,
        video_path: String,
        current_time_bits: u64,
        duration_bits: u64,
        last_watched: u64,
    )
        ensures
            final(self).progress_map() == old(self).progress_map().insert(
                video_path@,
                progress_record(video_path@, current_time_bits, duration_bits, last_watched),
            ),
    {
        let entry = WatchProgress {
            path: video_path.clone(),
            current_time_bits,
            duration_bits,
            last_watched,
        };
        self.put(video_path, entry);
    }

    /// A store holding the given (video path, entry) pairs, as read from the
    /// progress file; a later pair for a path replaces an earlier one.
    pub fn from_pairs(pairs: &Vec<(String, WatchProgress)>) -> (r: WatchProgressStore)
        ensures
            r.progress_map() == map_of_pairs(pairs@),
    {
        let mut r = WatchProgressStore::new();
        let mut i: usize = 0;
        while i < pairs.len()
            invariant
                i <= pairs@.len(),
                r.progress_map() == map_of_pairs(pairs@.take(i as int)),
            decreases pairs@.len() - i,
        {
            let k = pairs[i].0.clone();
            let v = pairs[i].1.duplicate();
            assert(pairs@.take(i + 1).drop_last() =~= pairs@.take(i as int));
            r.put(k, v);
            i = i + 1;
        }
        assert(pairs@.take(i as int) =~= pairs@);
        r
    }

    /// The number of videos with saved progress.
    pub fn len(&self) -> (r: usize)
        ensures
            r == self.progress_map().len(),
    {
        proof {
            use_type_invariant(self);
            lemma_distinct_len(self.entries@);
        }
        self.entries.len()
    }

    /// The saved progress of a video, if any.
    pub fn get_watch_progress(&self, video_path: &str) -> (r: Option<WatchProgress>)
        ensures
            r.deep_view() == self.progress_map().get(video_path@),
    {
        proof {
            use_type_invariant(self);
            lemma_map_of_distinct(self.entries@);
        }
        match self.find(video_path) {
            Some(i) => Some(self.entries[i].1.duplicate()),
            None => None,
        }
    }

    /// Every saved entry, each video path once.
    pub fn get_all_watch_progress(&self) -> (r: Vec<(String, WatchProgress)>)
        ensures
            keys_distinct(r@),
            map_of_pairs(r@) == self.progress_map(),
            r@.len() == self.progress_map().len(),
    {
        proof {
            use_type_invariant(self);
        }
        let mut r: Vec<(String, WatchProgress)> = Vec::new();
        let mut i: usize = 0;
        while i < self.entries.len()
            invariant
                i <= self.entries@.len(),
                keys_distinct(self.entries@),
                r@.len() == i,
                forall|j: int|
                    0 <= j < i ==> #[trigger] r@[j].0@ == self.entries@[j].0@ && r@[j].1.deep_view()
                        == self.entries@[j].1.deep_view(),
            decreases self.entries@.len() - i,
        {
            let k = self.entries[i].0.clone();
            let v = self.entries[i].1.duplicate();
            r.push((k, v));
            i = i + 1;
        }
        proof {
            assert(keys_distinct(r@)) by {
                assert forall|a: int, b: int|
                    0 <= a < r@.len() && 0 <= b < r@.len() && a != b implies #[trigger] r@[a].0@
                    != #[trigger] r@[b].0@ by {
                    assert(self.entries@[a].0@ != self.entries@[b].0@);
                }
            }
            lemma_map_of_distinct(r@);
            lemma_map_of_distinct(self.entries@);
            assert(map_of_pairs(r@) =~= map_of_pairs(self.entries@)) by {
                assert forall|k: Seq<char>| #[trigger] map_of_pairs(r@).dom().contains(
                    k,
                ) implies map_of_pairs(self.entries@).dom().contains(k) by {
                    let j = choose|j: int| 0 <= j < r@.len() && r@[j].0@ == k;
                    assert(self.entries@[j].0@ == k);
                }
                assert forall|k: Seq<char>| #[trigger] map_of_pairs(
                    self.entries@,
                ).dom().contains(k) implies map_of_pairs(r@).dom().contains(k) && map_of_pairs(
                    r@,
                )[k] == map_of_pairs(self.entries@)[k] by {
                    let j = choose|j: int|
                        0 <= j < self.entries@.len() && self.entries@[j].0@ == k;
                    assert(r@[j].0@ == k);
                }
            }
            lemma_distinct_len(r@);
        }
        r
    }
}

proof fn lemma_distinct_len(pairs: Seq<(String, WatchProgress)>)
    requires
        keys_distinct(pairs),
    ensures
        map_of_pairs(pairs).len() == pairs.len(),
        map_of_pairs(pairs).dom().finite(),
    decreases pairs.len(),
{
    if pairs.len() > 0 {
        let init = pairs.drop_last();
        assert(keys_distinct(init)) by {
            assert forall|i: int, j: int|
                0 <= i < init.len() && 0 <= j < init.len() && i != j implies #[trigger] init[i].0@
                != #[trigger] init[j].0@ by {
                assert(init[i] == pairs[i] && init[j] == pairs[j]);
            }
        }
        lemma_distinct_len(init);
        lemma_map_of_distinct(init);
        let k = pairs.last().0@;
        if map_of_pairs(init).dom().contains(k) {
            let i = choose|i: int| 0 <= i < init.len() && init[i].0@ == k;
            assert(pairs[i] == init[i]);
            assert(false);
        }
    }
}

/// What is saved for a video is what is read back for it.
pub proof fn law_saved_progress_is_read_back(
    m: Map<Seq<char>, ProgressRecord>,
    path: Seq<char>,
    current_time_bits: u64,
    duration_bits: u64,
    last_watched: u64,
)
    ensures
        m.insert(path, progress_record(path, current_time_bits, duration_bits, last_watched)).get(
            path,
        ) == Some(progress_record(path, current_time_bits, duration_bits, last_watched)),
        progress_record(path, current_time_bits, duration_bits, last_watched) == (ProgressRecord {
            path: path,
            current_time_bits: current_time_bits,
            duration_bits: duration_bits,
            last_watched: last_watched,
        }),
        m.insert(path, progress_record(path, current_time_bits, duration_bits, last_watched)).get(
            path,
        ) matches Some(rec) && rec.path == path && rec.current_time_bits == current_time_bits
            && rec.duration_bits == duration_bits && rec.last_watched == last_watched,
{
}

/// Saving the progress of one video leaves what is read back for every other
/// video unchanged.
pub proof fn law_save_keeps_other_videos(
    m: Map<Seq<char>, ProgressRecord>,
    path: Seq<char>,
    other: Seq<char>,
    rec: ProgressRecord,
)
    requires
        other != path,
    ensures
        m.insert(path, rec).get(other) == m.get(other),
{
}

/// Of two saves for the same video, the later one is what stays.
pub proof fn law_last_save_wins(
    m: Map<Seq<char>, ProgressRecord>,
    path: Seq<char>,
    first: ProgressRecord,
    second: ProgressRecord,
)
    ensures
        m.insert(path, first).insert(path, second) == m.insert(path, second),
{
    assert(m.insert(path, first).insert(path, second) =~= m.insert(path, second));
}

} // verus!
