use vstd::prelude::*;

use crate::track::Track;
use crate::track::TrackSpec;

verus! {

/// What the core reads of a playlist shown in the browsing tree.
pub struct PlaylistInfo {
    pub id: String,
    pub name: String,
    pub owner_id: String,
}

/// Mathematical model of a [`PlaylistInfo`].
#[verifier::ext_equal]
pub struct PlaylistInfoSpec {
    pub id: Seq<char>,
    pub name: Seq<char>,
    pub owner_id: Seq<char>,
}

impl View for PlaylistInfo {
    type V = PlaylistInfoSpec;

    open spec fn view(&self) -> PlaylistInfoSpec {
        PlaylistInfoSpec { id: self.id@, name: self.name@, owner_id: self.owner_id@ }
    }
}

/// One row of the playlist tree: either a playlist heading or a track
/// under it. A closed sum type, matched exhaustively.
pub enum TreeEntry {
    Playlist(PlaylistInfo),
    Track(Track),
}

/// Mathematical model of a [`TreeEntry`].
#[verifier::ext_equal]
pub enum TreeEntrySpec {
    Playlist(PlaylistInfoSpec),
    Track(TrackSpec),
}

impl View for TreeEntry {
    type V = TreeEntrySpec;

    open spec fn view(&self) -> TreeEntrySpec {
        match self {
            TreeEntry::Playlist(p) => TreeEntrySpec::Playlist(p@),
            TreeEntry::Track(t) => TreeEntrySpec::Track(t@),
        }
    }
}

/// The models of a sequence of tree entries, in the same order.
pub open spec fn entries_view(s: Seq<TreeEntry>) -> Seq<TreeEntrySpec> {
    s.map_values(|e: TreeEntry| e@)
}

/// The maximal run of consecutive track rows starting at `i`.
pub open spec fn track_run(entries: Seq<TreeEntrySpec>, i: int) -> Seq<TrackSpec>
    decreases entries.len() - i,
{
    if i < 0 || i >= entries.len() {
        Seq::empty()
    } else {
        match entries[i] {
            TreeEntrySpec::Track(t) => seq![t] + track_run(entries, i + 1),
            TreeEntrySpec::Playlist(_) => Seq::empty(),
        }
    }
}

/// What queuing the focused row means: a focused track queues itself; a
/// focused playlist queues the contiguous run of its track rows below it;
/// a row out of range queues nothing.
pub open spec fn tracks_to_queue(entries: Seq<TreeEntrySpec>, row: int) -> Seq<TrackSpec> {
    if 0 <= row < entries.len() {
        match entries[row] {
            TreeEntrySpec::Track(t) => seq![t],
            TreeEntrySpec::Playlist(_) => track_run(entries, row + 1),
        }
    } else {
        Seq::empty()
    }
}

/// Whether this row is a track row.
fn entry_is_track(e: &TreeEntry) -> (r: bool)
    ensures
        r == (e@ is Track),
{
    match e {
        TreeEntry::Track(_) => true,
        TreeEntry::Playlist(_) => false,
    }
}

/// The tracks that queuing the focused row adds, in tree order, as
/// [`tracks_to_queue`] describes.
pub fn tracks_to_enqueue(entries: &Vec<TreeEntry>, row: usize) -> (r: Vec<Track>)
    ensures
        r@.map_values(|t: Track| t@) == tracks_to_queue(entries_view(entries@), row as int),
{
    let ghost ev = entries_view(entries@);
    let mut out: Vec<Track> = Vec::new();
    if row >= entries.len() {
        proof {
            assert(out@.map_values(|t: Track| t@) =~= tracks_to_queue(ev, row as int));
        }
        return out;
    }
    match &entries[row] {
        TreeEntry::Track(t) => {
            out.push(t.duplicate());
            proof {
                assert(out@.map_values(|t: Track| t@) =~= seq![entries@[row as int]@->Track_0]);
                assert(out@.map_values(|t: Track| t@) =~= tracks_to_queue(ev, row as int));
            }
        },
        TreeEntry::Playlist(_) => {
            let mut i: usize = row + 1;
            while i < entries.len() && entry_is_track(&entries[i])
                invariant
                    row + 1 <= i <= entries.len(),
                    ev == entries_view(entries@),
                    track_run(ev, row + 1) =~= out@.map_values(|t: Track| t@) + track_run(
                        ev,
                        i as int,
                    ),
                decreases entries.len() - i,
            {
                match &entries[i] {
                    TreeEntry::Track(t) => {
                        proof {
                            assert(track_run(ev, i as int) =~= seq![t@] + track_run(
                                ev,
                                i + 1,
                            ));
                        }
                        out.push(t.duplicate());
                        proof {
                            assert(track_run(ev, row + 1) =~= out@.map_values(|t: Track| t@)
                                + track_run(ev, i + 1));
                        }
                    },
                    TreeEntry::Playlist(_) => {
                        proof {
                            assert(false);
                        }
                    },
                }
                i += 1;
            }
            proof {
                assert(track_run(ev, i as int) =~= Seq::<TrackSpec>::empty());
                assert(out@.map_values(|t: Track| t@) =~= tracks_to_queue(ev, row as int));
            }
        },
    }
    out
}

} // verus!
