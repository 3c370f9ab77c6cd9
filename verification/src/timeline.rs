//! Where audio regions sit in a timeline.
//!
//! A timeline keeps its regions sorted by track so that rendering one track
//! reads one contiguous run of them. A new region goes after every region
//! already on its track, so regions on one track keep the order they were
//! added in. Here a region is known by its track alone.
use vstd::prelude::*;

verus! {

/// Most decoded media objects one timeline holds.
pub const MAX_MEDIA: usize = 1_024;
/// Most regions one timeline holds.
pub const MAX_REGIONS: usize = 4_096;

/// Whether `tracks` never goes down.
pub open spec fn sorted_tracks(tracks: Seq<usize>) -> bool {
    forall|i: int, j: int| 0 <= i <= j < tracks.len() ==> tracks[i] <= tracks[j]
}

/// Whether `index` splits `tracks` into the entries at or below `bound`
/// (below it, when `inclusive` is false) and, after them, the rest.
pub open spec fn splits(tracks: Seq<usize>, index: int, bound: usize, inclusive: bool) -> bool {
    &&& 0 <= index <= tracks.len()
    &&& forall|k: int|
        0 <= k < index ==> (if inclusive {
            tracks[k] <= bound
        } else {
            tracks[k] < bound
        })
    &&& forall|k: int|
        index <= k < tracks.len() ==> (if inclusive {
            tracks[k] > bound
        } else {
            tracks[k] >= bound
        })
}

/// The first entry of sorted `tracks` past `bound` (or, when `inclusive`
/// is false, at or past it), found by halving.
fn partition(tracks: &[usize], bound: usize, inclusive: bool) -> (index: usize)
    requires
        sorted_tracks(tracks@),
    ensures
        splits(tracks@, index as int, bound, inclusive),
{
    let mut low: usize = 0;
    let mut high: usize = tracks.len();
    while low < high
        invariant
            low <= high <= tracks@.len(),
            sorted_tracks(tracks@),
            forall|k: int|
                0 <= k < low ==> (if inclusive {
                    tracks@[k] <= bound
                } else {
                    tracks@[k] < bound
                }),
            forall|k: int|
                high <= k < tracks@.len() ==> (if inclusive {
                    tracks@[k] > bound
                } else {
                    tracks@[k] >= bound
                }),
        decreases high - low,
    {
        let middle = low + (high - low) / 2;
        let before = if inclusive {
            tracks[middle] <= bound
        } else {
            tracks[middle] < bound
        };
        if before {
            low = middle + 1;
        } else {
            high = middle;
        }
    }
    low
}

/// Where a region on `track` goes among regions sorted by track: after
/// every region on its track or an earlier one, before every later one.
pub fn placement_index(tracks: &[usize], track: usize) -> (index: usize)
    requires
        sorted_tracks(tracks@),
    ensures
        splits(tracks@, index as int, track, true),
{
    partition(tracks, track, true)
}

/// The run of regions on `track` among regions sorted by track: from the
/// first at or past it to the first past it.
pub fn track_range(tracks: &[usize], track: usize) -> (range: (usize, usize))
    requires
        sorted_tracks(tracks@),
    ensures
        range.0 <= range.1 <= tracks@.len(),
        splits(tracks@, range.0 as int, track, false),
        splits(tracks@, range.1 as int, track, true),
        forall|k: int| range.0 <= k < range.1 ==> tracks@[k] == track,
{
    let start = partition(tracks, track, false);
    let end = partition(tracks, track, true);
    proof {
        if end < start {
            assert(tracks@[end as int] > track);
        }
    }
    (start, end)
}

/// Placing a region where [`placement_index`] says keeps the regions sorted
/// by track, puts it last among the regions on its track, and leaves the
/// order of every other region as it was.
pub proof fn lemma_placement_keeps_order(tracks: Seq<usize>, track: usize, index: int)
    requires
        sorted_tracks(tracks),
        splits(tracks, index, track, true),
    ensures
        sorted_tracks(tracks.insert(index, track)),
        tracks.insert(index, track)[index] == track,
        forall|k: int|
            index < k < tracks.len() + 1 ==> tracks.insert(index, track)[k] != track,
        tracks.insert(index, track).remove(index) == tracks,
{
    let placed = tracks.insert(index, track);
    assert forall|i: int, j: int| 0 <= i <= j < placed.len() implies placed[i] <= placed[j] by {
        if i < index && j > index {
            assert(placed[i] == tracks[i]);
            assert(placed[j] == tracks[j - 1]);
        } else if i < index && j < index {
            assert(placed[i] == tracks[i] && placed[j] == tracks[j]);
        } else if i > index && j > index {
            assert(placed[i] == tracks[i - 1] && placed[j] == tracks[j - 1]);
        }
    }
    assert(placed.remove(index) =~= tracks);
}

} // verus!
