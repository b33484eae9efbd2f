use vstd::prelude::*;
use vstd::string::StringExecFns;

verus! {

/// Authoritative playback mode of the orchestrator.
#[derive(Clone, Copy, Debug, PartialEq, Eq, Structural)]
pub enum PlayerState {
    Playing,
    Paused,
    Stopped,
}

/// Immutable metadata record for one playable item.
///
/// The `id` is an opaque external identifier; `artists` holds the ordered
/// display names of the performers.
#[derive(Clone, Debug, PartialEq, Eq)]
pub struct Track {
    pub id: String,
    pub name: String,
    pub artists: Vec<String>,
    pub duration_ms: u32,
}

/// Mathematical model of a [`Track`]: every text field as a sequence of
/// characters.
#[verifier::ext_equal]
pub struct TrackSpec {
    pub id: Seq<char>,
    pub name: Seq<char>,
    pub artists: Seq<Seq<char>>,
    pub duration_ms: u32,
}

impl View for Track {
    type V = TrackSpec;

    open spec fn view(&self) -> TrackSpec {
        TrackSpec {
            id: self.id@,
            name: self.name@,
            artists: self.artists@.map_values(|a: String| a@),
            duration_ms: self.duration_ms,
        }
    }
}

impl Track {
    /// A copy of the track whose model is provably the same as this
    /// track's.
    pub fn duplicate(&self) -> (t: Track)
        ensures
            t@ == self@,
    {
        let mut artists: Vec<String> = Vec::new();
        let n: usize = self.artists.len();
        let mut i: usize = 0;
        while i < n
            invariant
                n == self.artists.len(),
                i <= n,
                artists@.len() == i,
                forall|j: int| 0 <= j < i ==> artists@[j]@ == self.artists@[j]@,
            decreases n - i,
        {
            artists.push(self.artists[i].clone());
            i += 1;
        }
        proof {
            assert(artists@.map_values(|a: String| a@) =~= self.artists@.map_values(
                |a: String| a@,
            ));
        }
        let t = Track {
            id: self.id.clone(),
            name: self.name.clone(),
            artists,
            duration_ms: self.duration_ms,
        };
        proof {
            assert(t@ =~= self@);
        }
        t
    }
}

/// The artist names joined with a comma and a space, in order.
pub open spec fn joined_names(names: Seq<Seq<char>>) -> Seq<char>
    decreases names.len(),
{
    if names.len() == 0 {
        Seq::empty()
    } else if names.len() == 1 {
        names[0]
    } else {
        names[0] + ", "@ + joined_names(names.drop_first())
    }
}

/// The "artist - title" line shown for a track in the status bar and in the
/// queue list.
pub open spec fn label_spec(t: TrackSpec) -> Seq<char> {
    joined_names(t.artists) + " - "@ + t.name
}

proof fn lemma_joined_push(names: Seq<Seq<char>>, x: Seq<char>)
    ensures
        names.len() == 0 ==> joined_names(names.push(x)) == x,
        names.len() > 0 ==> joined_names(names.push(x)) =~= joined_names(names) + ", "@ + x,
    decreases names.len(),
{
    if names.len() == 0 {
        assert(names.push(x)[0] == x);
    } else if names.len() == 1 {
        let p = names.push(x);
        assert(p.drop_first() =~= seq![x]);
        assert(seq![x][0] == x);
        assert(joined_names(seq![x]) == x);
        assert(joined_names(p) == p[0] + ", "@ + joined_names(p.drop_first()));
        assert(p[0] == names[0]);
    } else {
        let tail = names.drop_first();
        lemma_joined_push(tail, x);
        assert(names.push(x).drop_first() =~= tail.push(x));
        assert(joined_names(names.push(x)) == names[0] + ", "@ + joined_names(tail.push(x)));
        assert(joined_names(names.push(x)) =~= names[0] + ", "@ + (joined_names(tail) + ", "@
            + x));
        assert(names[0] + ", "@ + (joined_names(tail) + ", "@ + x) =~= (names[0] + ", "@
            + joined_names(tail)) + ", "@ + x);
    }
}

/// Builds the display line for a track: the artist names joined with ", ",
/// then " - ", then the title.
pub fn display_label(t: &Track) -> (r: String)
    ensures
        r@ == label_spec(t@),
{
    let mut s = String::new();
    let n: usize = t.artists.len();
    let mut i: usize = 0;
    while i < n
        invariant
            n == t.artists.len(),
            i <= n,
            s@ =~= joined_names(t@.artists.take(i as int)),
        decreases n - i,
    {
        if i > 0 {
            s.append(", ");
        }
        s.append(t.artists[i].as_str());
        proof {
            let prefix = t@.artists.take(i as int);
            lemma_joined_push(prefix, t@.artists[i as int]);
            assert(t@.artists.take(i + 1) =~= prefix.push(t@.artists[i as int]));
        }
        i += 1;
    }
    proof {
        assert(t@.artists.take(n as int) =~= t@.artists);
    }
    s.append(" - ");
    s.append(t.name.as_str());
    proof {
        assert(s@ =~= label_spec(t@));
    }
    s
}

} // verus!
