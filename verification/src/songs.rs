//! The song registry: songs are created once and then only referenced.

use vstd::prelude::*;

verus! {

/// A song rows are keyed by. Metadata enrichment beyond title and artist
/// is an external collaborator's concern and never enters the core.
pub struct Song {
    pub id: i32,
    pub title: String,
    pub artist: String,
}

impl Song {
    pub fn clone_song(&self) -> (r: Song)
        ensures
            r.id == self.id,
            r.title@ == self.title@,
            r.artist@ == self.artist@,
    {
        Song { id: self.id, title: self.title.clone(), artist: self.artist.clone() }
    }
}

/// All known songs, with unique ids and unique (title, artist) pairs.
pub struct SongRegistry {
    songs: Vec<Song>,
    next_id: i32,
}

impl SongRegistry {
    pub closed spec fn rows(self) -> Seq<Song> {
        self.songs@
    }

    pub closed spec fn spec_next_id(self) -> i32 {
        self.next_id
    }

    pub open spec fn wf(self) -> bool {
        &&& forall|i: int, j: int|
            0 <= i < j < self.rows().len() ==> (#[trigger] self.rows()[i]).id
                != (#[trigger] self.rows()[j]).id && !((self.rows()[i]).title@
                == (self.rows()[j]).title@ && (self.rows()[i]).artist@ == (self.rows()[j]).artist@)
        &&& forall|i: int|
            0 <= i < self.rows().len() ==> (#[trigger] self.rows()[i]).id < self.spec_next_id()
    }

    /// Whether a song with this title and artist is registered.
    pub open spec fn spec_has_song(self, title: Seq<char>, artist: Seq<char>) -> bool {
        exists|i: int|
            0 <= i < self.rows().len() && (#[trigger] self.rows()[i]).title@ == title
                && self.rows()[i].artist@ == artist
    }

    /// Whether a song with this id is registered.
    pub open spec fn spec_has_song_id(self, id: i32) -> bool {
        exists|i: int| 0 <= i < self.rows().len() && (#[trigger] self.rows()[i]).id == id
    }

    pub fn new() -> (r: SongRegistry)
        ensures
            r.wf(),
            r.rows() == Seq::<Song>::empty(),
    {
        SongRegistry { songs: Vec::new(), next_id: 1 }
    }

    /// Whether the song id references a registered song.
    pub fn has_song_id(&self, id: i32) -> (r: bool)
        ensures
            r == self.spec_has_song_id(id),
    {
        let n = self.songs.len();
        let mut i: usize = 0;
        while i < n
            invariant
                n == self.songs@.len(),
                0 <= i <= n,
                forall|k: int| 0 <= k < i ==> (#[trigger] self.songs@[k]).id != id,
            decreases n - i,
        {
            if self.songs[i].id == id {
                proof {
                    assert((self.rows()[i as int]).id == id);
                }
                return true;
            }
            i += 1;
        }
        false
    }

    /// Return the registered song with this title and artist, creating it
    /// first when it does not exist yet. Creation fails only when the id
    /// space is exhausted.
    pub fn find_or_create(&mut self, title: &String, artist: &String) -> (r: Option<Song>)
        requires
            old(self).wf(),
        ensures
            final(self).wf(),
            old(self).spec_has_song(title@, artist@) ==> {
                &&& final(self).rows() == old(self).rows()
                &&& r is Some
                &&& r->0.title@ == title@
                &&& r->0.artist@ == artist@
                &&& exists|i: int|
                    0 <= i < old(self).rows().len() && (#[trigger] old(self).rows()[i]).title@
                        == title@ && old(self).rows()[i].artist@ == artist@
                        && old(self).rows()[i].id == r->0.id
            },
            !old(self).spec_has_song(title@, artist@) && old(self).spec_next_id() < i32::MAX ==> {
                &&& r is Some
                &&& r->0.id == old(self).spec_next_id()
                &&& r->0.title@ == title@
                &&& r->0.artist@ == artist@
                &&& final(self).rows().len() == old(self).rows().len() + 1
                &&& final(self).rows().last().id == old(self).spec_next_id()
                &&& final(self).rows().last().title@ == title@
                &&& final(self).rows().last().artist@ == artist@
                &&& forall|i: int|
                    0 <= i < old(self).rows().len() ==> final(self).rows()[i] == old(self).rows()[i]
            },
            !old(self).spec_has_song(title@, artist@) && old(self).spec_next_id() == i32::MAX ==> r
                is None && final(self).rows() == old(self).rows(),
    {
        let n = self.songs.len();
        let mut i: usize = 0;
        while i < n
            invariant
                self.songs@ == old(self).songs@,
                self.next_id == old(self).next_id,
                self.wf(),
                n == self.songs@.len(),
                0 <= i <= n,
                forall|k: int|
                    0 <= k < i ==> !((#[trigger] self.songs@[k]).title@ == title@
                        && self.songs@[k].artist@ == artist@),
            decreases n - i,
        {
            if self.songs[i].title.eq(title) && self.songs[i].artist.eq(artist) {
                proof {
                    assert((old(self).rows()[i as int]).title@ == title@);
                }
                return Some(self.songs[i].clone_song());
            }
            i += 1;
        }
        if self.next_id == i32::MAX {
            return None;
        }
        let id = self.next_id;
        self.next_id = self.next_id + 1;
        let song = Song { id, title: title.clone(), artist: artist.clone() };
        let out = song.clone_song();
        self.songs.push(song);
        Some(out)
    }
}

} // verus!
