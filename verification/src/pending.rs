//! Files the operating system asked the program to open before the user
//! interface was ready, and the schedule on which they are offered to it.
use vstd::prelude::*;
use std::collections::VecDeque;

verus! {

/// How many times a queued file is offered to the user interface.
pub const MAX_FILE_LOADING_ATTEMPTS: u32 = 30;

/// Wait after the first offer, while the user interface finishes loading.
pub const FRONTEND_READY_WAIT_MS: u64 = 500;

/// Wait after each of the early offers.
pub const INITIAL_ATTEMPT_DELAY_MS: u64 = 2000;

/// Wait after each of the middle offers.
pub const MIDDLE_ATTEMPT_DELAY_MS: u64 = 1000;

/// Wait after each of the late offers.
pub const FINAL_ATTEMPT_DELAY_MS: u64 = 500;

/// Offers up to this number count as early.
pub const INITIAL_ATTEMPT_COUNT: u32 = 5;

/// Offers up to this number count as middle.
pub const MIDDLE_ATTEMPT_COUNT: u32 = 15;

/// The queue of files waiting to be opened, and whether the user interface
/// has opened one of them.
pub struct PendingFiles {
    queue: VecDeque<String>,
    processed: bool,
}

impl PendingFiles {
    /// The queued file paths, oldest first.
    pub closed spec fn files(&self) -> Seq<Seq<char>> {
        self.queue.deep_view()
    }

    /// Whether the user interface reported that it opened a file.
    pub closed spec fn is_processed(&self) -> bool {
        self.processed
    }

    /// An empty queue; no file opened yet.
    pub fn new() -> (r: PendingFiles)
        ensures
            r.files() == Seq::<Seq<char>>::empty(),
            !r.is_processed(),
    {
        let r = PendingFiles { queue: VecDeque::new(), processed: false };
        assert(r.files() =~= Seq::<Seq<char>>::empty());
        r
    }

    /// Queues `video_files` behind the files already waiting. Returns whether
    /// the offers to the user interface are to be started, which is so when
    /// anything was queued.
    pub fn process_video_files(&mut self, video_files: &Vec<String>) -> (start_offers: bool)
        ensures
            final(self).files() == old(self).files() + video_files.deep_view(),
            final(self).is_processed() == old(self).is_processed(),
            start_offers == (video_files.len() > 0),
    {
        let mut i: usize = 0;
        while i < video_files.len()
            invariant
                i <= video_files.len(),
                self.processed == old(self).processed,
                self.files() == old(self).files() + video_files.deep_view().take(i as int),
            decreases video_files.len() - i,
        {
            let ghost before = self.files();
            let c = video_files[i].clone();
            assert(c@ == video_files.deep_view()[i as int]);
            self.queue.push_back(c);
            assert(self.files() =~= before.push(c@));
            assert(video_files.deep_view().take(i + 1) =~= video_files.deep_view().take(
                i as int,
            ).push(video_files[i as int]@));
            assert(self.files() =~= old(self).files() + video_files.deep_view().take(i + 1));
            i = i + 1;
        }
        assert(video_files.deep_view().take(i as int) =~= video_files.deep_view());
        video_files.len() > 0
    }

    /// Hands out the oldest queued file, if any, and removes it from the queue.
    pub fn get_pending_file(&mut self) -> (r: Option<String>)
        ensures
            final(self).is_processed() == old(self).is_processed(),
            old(self).files().len() == 0 ==> r is None && final(self).files() == old(
                self,
            ).files(),
            old(self).files().len() > 0 ==> r is Some && r.unwrap()@ == old(self).files()[0]
                && final(self).files() == old(self).files().drop_first(),
    {
        let r = self.queue.pop_front();
        assert(self.files() =~= old(self).files().drop_first() || old(self).files().len() == 0);
        r
    }

    /// Records that the user interface opened a file; the offers stop.
    pub fn mark_file_processed(&mut self)
        ensures
            final(self).is_processed(),
            final(self).files() == old(self).files(),
    {
        self.processed = true;
    }

    /// Whether the user interface reported that it opened a file.
    pub fn processed(&self) -> (r: bool)
        ensures
            r == self.is_processed(),
    {
        self.processed
    }

    /// The number of queued files.
    pub fn len(&self) -> (r: usize)
        ensures
            r == self.files().len(),
    {
        self.queue.len()
    }

    /// Takes every queued file out of the queue, oldest first.
    pub fn take_all(&mut self) -> (r: Vec<String>)
        ensures
            r.deep_view() == old(self).files(),
            final(self).files() == Seq::<Seq<char>>::empty(),
            final(self).is_processed() == old(self).is_processed(),
    {
        let mut r: Vec<String> = Vec::new();
        let ghost start = self.files();
        while self.queue.len() > 0
            invariant
                start == r.deep_view() + self.files(),
                self.processed == old(self).processed,
                start == old(self).files(),
            decreases self.queue@.len(),
        {
            let ghost before = self.files();
            let f = self.queue.pop_front();
            match f {
                Some(s) => {
                    let ghost rv = r.deep_view();
                    r.push(s);
                    assert(r.deep_view() =~= rv.push(before[0]));
                    assert(self.files() =~= before.drop_first());
                    assert(start =~= r.deep_view() + self.files());
                },
                None => {},
            }
        }
        assert(self.files() =~= Seq::<Seq<char>>::empty());
        assert(r.deep_view() =~= start);
        r
    }

    /// What happens when the user interface reports that it is ready: the
    /// waiting files are taken out and queued again in the same order, and
    /// they are returned so that the offers start over with them.
    pub fn frontend_ready(&mut self) -> (r: Vec<String>)
        ensures
            r.deep_view() == old(self).files(),
            final(self).files() == old(self).files(),
            final(self).is_processed() == old(self).is_processed(),
    {
        let pending = self.take_all();
        if pending.len() > 0 {
            self.process_video_files(&pending);
        }
        assert(self.files() =~= old(self).files());
        pending
    }
}

/// The wait, in milliseconds, after offer number `attempt`; none after the
/// last offer.
pub open spec fn offer_delay(attempt: int) -> Option<int> {
    if attempt >= MAX_FILE_LOADING_ATTEMPTS {
        None
    } else if attempt == 1 {
        Some(FRONTEND_READY_WAIT_MS as int)
    } else if attempt <= INITIAL_ATTEMPT_COUNT {
        Some(INITIAL_ATTEMPT_DELAY_MS as int)
    } else if attempt <= MIDDLE_ATTEMPT_COUNT {
        Some(MIDDLE_ATTEMPT_DELAY_MS as int)
    } else {
        Some(FINAL_ATTEMPT_DELAY_MS as int)
    }
}

/// The wait after offer number `attempt` (counting from 1).
pub fn retry_delay_ms(attempt: u32) -> (r: Option<u64>)
    requires
        attempt >= 1,
    ensures
        match r {
            Some(d) => offer_delay(attempt as int) == Some(d as int),
            None => offer_delay(attempt as int) is None,
        },
{
    if attempt >= MAX_FILE_LOADING_ATTEMPTS {
        None
    } else if attempt == 1 {
        Some(FRONTEND_READY_WAIT_MS)
    } else if attempt <= INITIAL_ATTEMPT_COUNT {
        Some(INITIAL_ATTEMPT_DELAY_MS)
    } else if attempt <= MIDDLE_ATTEMPT_COUNT {
        Some(MIDDLE_ATTEMPT_DELAY_MS)
    } else {
        Some(FINAL_ATTEMPT_DELAY_MS)
    }
}

/// What the offering loop does at one attempt.
pub enum OfferStep {
    /// The user interface already opened a file: stop offering.
    Stop,
    /// Offer the first file of the batch being offered, then wait this long
    /// before the next attempt; no wait means this was the last attempt.
    Offer { wait_ms: Option<u64> },
}

/// The decision at offer number `attempt`, given whether the user interface
/// already opened a file: the offers stop once a file was opened or after
/// the last attempt.
pub fn offer_step(attempt: u32, processed: bool) -> (r: OfferStep)
    requires
        attempt >= 1,
    ensures
        processed || attempt > MAX_FILE_LOADING_ATTEMPTS ==> r is Stop,
        !processed && attempt <= MAX_FILE_LOADING_ATTEMPTS ==> (r matches OfferStep::Offer { wait_ms } && match wait_ms {
            Some(d) => offer_delay(attempt as int) == Some(d as int),
            None => offer_delay(attempt as int) is None,
        }),
{
    if processed || attempt > MAX_FILE_LOADING_ATTEMPTS {
        OfferStep::Stop
    } else {
        OfferStep::Offer { wait_ms: retry_delay_ms(attempt) }
    }
}

/// The total wait over the offers numbered below `attempt`.
pub open spec fn total_wait_before(attempt: nat) -> int
    decreases attempt,
{
    if attempt <= 1 {
        0
    } else {
        total_wait_before((attempt - 1) as nat) + match offer_delay(attempt - 1) {
            Some(d) => d,
            None => 0,
        }
    }
}

/// Every offer but the last is followed by a wait, and the last by none, so
/// the offers end after exactly `MAX_FILE_LOADING_ATTEMPTS` attempts.
pub proof fn law_offers_end_at_the_limit(attempt: int)
    requires
        attempt >= 1,
    ensures
        (offer_delay(attempt) is None) <==> attempt >= MAX_FILE_LOADING_ATTEMPTS,
{
}

/// A file that is never opened is offered for 25.5 seconds in all: the waits
/// between the offers add up to 25500 milliseconds.
pub proof fn law_total_offer_wait()
    ensures
        total_wait_before(MAX_FILE_LOADING_ATTEMPTS as nat) == 25500,
{
    reveal_with_fuel(total_wait_before, 31);
}

} // verus!
