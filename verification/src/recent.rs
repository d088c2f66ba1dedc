//! The recent-videos listing: media files found in the usual folders, most
//! recently modified first, at most twenty of them.
use vstd::prelude::*;

verus! {

/// How many recent videos are listed.
pub const RECENT_VIDEOS_LIMIT: usize = 20;

/// A media file found in one of the searched folders.
pub struct VideoFile {
    pub path: String,
    pub name: String,
    pub size: u64,
    pub modified: u64,
    /// The bit pattern of the duration in seconds, when ffprobe gave one.
    pub duration_bits: Option<u64>,
}

impl VideoFile {
    /// A copy of this entry.
    pub fn duplicate(&self) -> (r: VideoFile)
        ensures
            r == *self,
    {
        VideoFile {
            path: self.path.clone(),
            name: self.name.clone(),
            size: self.size,
            modified: self.modified,
            duration_bits: self.duration_bits,
        }
    }
}

/// In the listing, file `i` comes before file `j`: it was modified later, or
/// at the same time and was found earlier.
pub open spec fn listed_before(modified: Seq<u64>, i: int, j: int) -> bool {
    modified[i] > modified[j] || (modified[i] == modified[j] && i < j)
}

/// `order` lists the first `limit` files (or all, if fewer) in listing order:
/// positions are valid, in listing order, and every file left out comes after
/// every file listed.
pub open spec fn is_listing_prefix(modified: Seq<u64>, order: Seq<usize>, limit: nat) -> bool {
    &&& order.len() == if modified.len() < limit {
        modified.len()
    } else {
        limit
    }
    &&& forall|a: int| 0 <= a < order.len() ==> #[trigger] order[a] < modified.len()
    &&& forall|a: int, b: int|
        0 <= a < b < order.len() ==> listed_before(
            modified,
            #[trigger] order[a] as int,
            #[trigger] order[b] as int,
        )
    &&& forall|j: usize, a: int|
        #![trigger order.contains(j), order[a]]
        j < modified.len() && 0 <= a < order.len() && !order.contains(j) ==> listed_before(
            modified,
            order[a] as int,
            j as int,
        )
}

proof fn lemma_listings_agree_upto(modified: Seq<u64>, o1: Seq<usize>, o2: Seq<usize>, k: int)
    requires
        is_listing_prefix(modified, o1, RECENT_VIDEOS_LIMIT as nat),
        is_listing_prefix(modified, o2, RECENT_VIDEOS_LIMIT as nat),
        0 <= k < o1.len(),
    ensures
        forall|j: int| 0 <= j <= k ==> o1[j] == o2[j],
    decreases k,
{
    if k > 0 {
        lemma_listings_agree_upto(modified, o1, o2, k - 1);
    }
    let x = o1[k];
    let y = o2[k];
    if x != y {
        if o2.contains(x) {
            let c = choose|c: int| 0 <= c < o2.len() && o2[c] == x;
            if c < k {
                assert(o1[c] == x);
                assert(listed_before(modified, o1[c] as int, o1[k] as int));
            } else {
                assert(c > k);
                assert(listed_before(modified, o2[k] as int, o2[c] as int));
            }
        } else {
            assert(listed_before(modified, o2[k] as int, x as int));
        }
        if o1.contains(y) {
            let b = choose|b: int| 0 <= b < o1.len() && o1[b] == y;
            if b < k {
                assert(o2[b] == y);
                assert(listed_before(modified, o2[b] as int, o2[k] as int));
            } else {
                assert(b > k);
                assert(listed_before(modified, o1[k] as int, o1[b] as int));
            }
        } else {
            assert(listed_before(modified, o1[k] as int, y as int));
        }
    }
}

/// The listing is determined by the modification times alone: two orders
/// that both list the first files newest first are the same order.
pub proof fn law_listing_is_unique(modified: Seq<u64>, o1: Seq<usize>, o2: Seq<usize>)
    requires
        is_listing_prefix(modified, o1, RECENT_VIDEOS_LIMIT as nat),
        is_listing_prefix(modified, o2, RECENT_VIDEOS_LIMIT as nat),
    ensures
        o1 == o2,
{
    if o1.len() > 0 {
        lemma_listings_agree_upto(modified, o1, o2, o1.len() - 1);
    }
    assert(o1 =~= o2);
}

/// The positions of the files to list, given when each was modified: the
/// files sorted newest first (keeping the order in which files were found
/// among equal times), cut to the first `RECENT_VIDEOS_LIMIT`.
pub fn recent_order(modified: &Vec<u64>) -> (r: Vec<usize>)
    ensures
        is_listing_prefix(modified@, r@, RECENT_VIDEOS_LIMIT as nat),
{
    let n = modified.len();
    let mut top: Vec<usize> = Vec::new();
    let mut i: usize = 0;
    while i < n
        invariant
            n == modified@.len(),
            i <= n,
            is_listing_prefix(modified@.take(i as int), top@, RECENT_VIDEOS_LIMIT as nat),
            i <= RECENT_VIDEOS_LIMIT ==> forall|j: usize| j < i ==> #[trigger] top@.contains(j),
        decreases n - i,
    {
        let ghost m = modified@.take(i as int);
        let ghost m2 = modified@.take(i + 1);
        assert forall|a: int, b: int| 0 <= a < m.len() && 0 <= b < m.len() implies listed_before(
            m,
            a,
            b,
        ) == listed_before(m2, a, b) by {
            assert(m[a] == m2[a] && m[b] == m2[b]);
        }
        let mi = modified[i];
        let mut p: usize = 0;
        while p < top.len() && modified[top[p]] >= mi
            invariant
                n == modified@.len(),
                i < n,
                mi == modified@[i as int],
                p <= top@.len(),
                forall|a: int| 0 <= a < top@.len() ==> #[trigger] top@[a] < i,
                forall|a: int| 0 <= a < p ==> modified@[#[trigger] top@[a] as int] >= mi,
            decreases top@.len() - p,
        {
            p = p + 1;
        }
        let ghost old_top = top@;
        assert forall|a: int| p <= a < old_top.len() implies modified@[#[trigger] old_top[a] as int]
            < mi by {
            assert(modified@[old_top[p as int] as int] < mi);
            if a > p {
                assert(listed_before(m, old_top[p as int] as int, old_top[a] as int));
            }
        }
        top.insert(p, i);
        let ghost ins = top@;
        assert(ins =~= old_top.insert(p as int, i));
        assert(ins[p as int] == i);
        if top.len() > RECENT_VIDEOS_LIMIT {
            top.truncate(RECENT_VIDEOS_LIMIT);
        }
        proof {
            let t = top@;
            assert(forall|a: int| 0 <= a < t.len() ==> t[a] == ins[a]);
            assert forall|a: int, b: int| 0 <= a < b < ins.len() implies listed_before(
                m2,
                #[trigger] ins[a] as int,
                #[trigger] ins[b] as int,
            ) by {
                if a < p && b < p {
                    assert(ins[a] == old_top[a] && ins[b] == old_top[b]);
                } else if a < p && b == p {
                    assert(ins[a] == old_top[a]);
                } else if a < p {
                    assert(ins[a] == old_top[a] && ins[b] == old_top[b - 1]);
                } else if a == p {
                    assert(ins[b] == old_top[b - 1]);
                } else {
                    assert(ins[a] == old_top[a - 1] && ins[b] == old_top[b - 1]);
                }
            }
            assert forall|j: usize, a: int|
                #![trigger t.contains(j), t[a]]
                j < m2.len() && 0 <= a < t.len() && !t.contains(j) implies listed_before(
                m2,
                t[a] as int,
                j as int,
            ) by {
                if ins.contains(j) {
                    let b = choose|b: int| 0 <= b < ins.len() && ins[b] == j;
                    if b < t.len() {
                        assert(t[b] == j);
                    }
                    assert(a < b);
                } else {
                    assert(j != i);
                    if !old_top.contains(j) {
                        if t[a] == i {
                            // the file dropped by the cut was listed after `i`
                            // and before `j`
                            if i <= RECENT_VIDEOS_LIMIT {
                                assert(old_top.contains(j));
                            }
                            assert(old_top.len() == RECENT_VIDEOS_LIMIT);
                            let last = old_top[old_top.len() - 1];
                            assert(listed_before(m, last as int, j as int));
                            assert(ins[ins.len() - 1] == last);
                            assert(ins[a] == i);
                            assert(listed_before(m2, ins[a] as int, ins[ins.len() - 1] as int));
                        } else {
                            let c = choose|c: int| 0 <= c < old_top.len() && old_top[c] == t[a];
                            assert(listed_before(m, old_top[c] as int, j as int));
                        }
                    } else {
                        let c = choose|c: int| 0 <= c < old_top.len() && old_top[c] == j;
                        if c < p {
                            assert(ins[c] == j);
                        } else {
                            assert(ins[c + 1] == j);
                        }
                    }
                }
            }
        }
        proof {
            if i + 1 <= RECENT_VIDEOS_LIMIT {
                assert forall|j: usize| j < i + 1 implies #[trigger] top@.contains(j) by {
                    if j == i {
                        assert(top@[p as int] == i);
                    } else {
                        assert(old_top.contains(j));
                        let c = choose|c: int| 0 <= c < old_top.len() && old_top[c] == j;
                        if c < p {
                            assert(top@[c] == j);
                        } else {
                            assert(top@[c + 1] == j);
                        }
                    }
                }
            }
        }
        i = i + 1;
    }
    assert(modified@.take(n as int) =~= modified@);
    top
}

/// When each file was last modified.
pub open spec fn modified_times(videos: Seq<VideoFile>) -> Seq<u64> {
    videos.map_values(|v: VideoFile| v.modified)
}

/// The listing of the files found: newest first, at most
/// `RECENT_VIDEOS_LIMIT`, in the order that `recent_order` gives.
pub fn select_recent_videos(videos: &Vec<VideoFile>) -> (r: Vec<VideoFile>)
    ensures
        exists|order: Seq<usize>|
            #[trigger] is_listing_prefix(
                modified_times(videos@),
                order,
                RECENT_VIDEOS_LIMIT as nat,
            ) && r@.len() == order.len() && forall|k: int|
                0 <= k < order.len() ==> #[trigger] r@[k] == videos@[order[k] as int],
{
    let mut modified: Vec<u64> = Vec::new();
    let mut i: usize = 0;
    while i < videos.len()
        invariant
            i <= videos@.len(),
            modified@ == modified_times(videos@).take(i as int),
        decreases videos@.len() - i,
    {
        modified.push(videos[i].modified);
        assert(modified@ =~= modified_times(videos@).take(i + 1));
        i = i + 1;
    }
    assert(modified@ =~= modified_times(videos@));
    let order = recent_order(&modified);
    let mut r: Vec<VideoFile> = Vec::new();
    let mut k: usize = 0;
    while k < order.len()
        invariant
            k <= order@.len(),
            modified@.len() == videos@.len(),
            forall|a: int| 0 <= a < order@.len() ==> #[trigger] order@[a] < modified@.len(),
            r@.len() == k,
            forall|a: int| 0 <= a < k ==> #[trigger] r@[a] == videos@[order@[a] as int],
        decreases order@.len() - k,
    {
        r.push(videos[order[k]].duplicate());
        k = k + 1;
    }
    assert(is_listing_prefix(
        modified_times(videos@),
        order@,
        RECENT_VIDEOS_LIMIT as nat,
    ));
    r
}

/// The folders under the home directory that are searched, in this order.
pub fn recent_search_folders() -> (r: Vec<&'static str>)
    ensures
        r.deep_view() == seq!["Videos"@, "Downloads"@, "Desktop"@, "Documents"@],
{
    let r = vec!["Videos", "Downloads", "Desktop", "Documents"];
    assert(r.deep_view() =~= seq!["Videos"@, "Downloads"@, "Desktop"@, "Documents"@]);
    r
}

/// The arguments of the ffprobe run that checks that ffprobe is installed.
pub fn probe_version_args() -> (r: Vec<&'static str>)
    ensures
        r.deep_view() == seq!["-version"@],
{
    let r = vec!["-version"];
    assert(r.deep_view() =~= seq!["-version"@]);
    r
}

/// The arguments of the ffprobe run that prints a video's duration in
/// seconds and nothing else.
pub fn duration_probe_args(video_path: &str) -> (r: Vec<String>)
    ensures
        r.deep_view() == seq![
            "-v"@,
            "error"@,
            "-show_entries"@,
            "format=duration"@,
            "-of"@,
            "default=noprint_wrappers=1:nokey=1"@,
            video_path@,
        ],
{
    let r = vec![
        String::from_str("-v"),
        String::from_str("error"),
        String::from_str("-show_entries"),
        String::from_str("format=duration"),
        String::from_str("-of"),
        String::from_str("default=noprint_wrappers=1:nokey=1"),
        String::from_str(video_path),
    ];
    assert(r.deep_view() =~= seq![
        "-v"@,
        "error"@,
        "-show_entries"@,
        "format=duration"@,
        "-of"@,
        "default=noprint_wrappers=1:nokey=1"@,
        video_path@,
    ]);
    r
}

} // verus!
