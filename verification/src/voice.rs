//! The voice room manager: per-room member sets with quality and bitrate,
//! under the invariant that a user occupies at most one room at a time.

use vstd::prelude::*;

use crate::collections::{set_of_strings, StrSet};
use crate::strutil::str_eq;

verus! {

/// Snapshot of connected users within a voice channel.
pub struct VoiceChannelState {
    pub users: StrSet,
    pub quality: String,
    pub bitrate: Option<i32>,
}

/// One named voice room.
pub struct VoiceRoom {
    pub name: String,
    pub state: VoiceChannelState,
}

/// All voice rooms of the hub.
pub struct VoiceRooms {
    rooms: Vec<VoiceRoom>,
}

impl VoiceRooms {
    /// The rooms, as a sequence.
    pub closed spec fn rooms_seq(&self) -> Seq<VoiceRoom> {
        self.rooms@
    }

    /// Room names are unique, member sets are duplicate-free, and no user
    /// occupies two rooms.
    pub open spec fn wf(&self) -> bool {
        &&& forall|i: int, j: int|
            0 <= i < j < self.rooms_seq().len() ==> self.rooms_seq()[i].name@
                != self.rooms_seq()[j].name@
        &&& forall|i: int| 0 <= i < self.rooms_seq().len() ==> self.rooms_seq()[i].state.users.wf()
        &&& forall|i: int, j: int, u: Seq<char>|
            0 <= i < self.rooms_seq().len() && 0 <= j < self.rooms_seq().len()
                && self.rooms_seq()[i].state.users@.contains(u)
                && self.rooms_seq()[j].state.users@.contains(u) ==> i == j
    }

    /// Whether a room with this name exists.
    pub open spec fn has_room(&self, c: Seq<char>) -> bool {
        exists|i: int| 0 <= i < self.rooms_seq().len() && self.rooms_seq()[i].name@ == c
    }

    /// The index of the room with this name.
    pub open spec fn room_index(&self, c: Seq<char>) -> int {
        choose|i: int| 0 <= i < self.rooms_seq().len() && self.rooms_seq()[i].name@ == c
    }

    /// The member set of a room; empty when the room does not exist.
    pub open spec fn members(&self, c: Seq<char>) -> Set<Seq<char>> {
        if self.has_room(c) {
            self.rooms_seq()[self.room_index(c)].state.users@
        } else {
            Set::empty()
        }
    }

    /// Whether a user is in a room.
    pub open spec fn in_room(&self, c: Seq<char>, u: Seq<char>) -> bool {
        self.has_room(c) && self.members(c).contains(u)
    }

    /// The quality label of a room, as a view; meaningful when the room exists.
    pub open spec fn quality_of(&self, c: Seq<char>) -> Seq<char> {
        self.rooms_seq()[self.room_index(c)].state.quality@
    }

    /// The bitrate of a room; meaningful when the room exists.
    pub open spec fn bitrate_of(&self, c: Seq<char>) -> Option<i32> {
        self.rooms_seq()[self.room_index(c)].state.bitrate
    }

    pub fn new() -> (r: VoiceRooms)
        ensures
            r.wf(),
            r.rooms_seq().len() == 0,
            forall|c: Seq<char>| !r.has_room(c),
    {
        VoiceRooms { rooms: Vec::new() }
    }

    /// Find the index of a room by name.
    fn find(&self, c: &str) -> (r: Option<usize>)
        requires
            self.wf(),
        ensures
            match r {
                Some(i) => self.has_room(c@) && i == self.room_index(c@) && i
                    < self.rooms_seq().len(),
                None => !self.has_room(c@),
            },
    {
        let n = self.rooms.len();
        for i in 0..n
            invariant
                self.wf(),
                n == self.rooms_seq().len(),
                forall|j: int| 0 <= j < i ==> self.rooms_seq()[j].name@ != c@,
        {
            if str_eq(self.rooms[i].name.as_str(), c) {
                proof {
                    let w = self.room_index(c@);
                    assert(self.rooms_seq()[i as int].name@ == c@);
                    assert(0 <= w < self.rooms_seq().len() && self.rooms_seq()[w].name@ == c@);
                }
                return Some(i);
            }
        }
        None
    }

    /// Whether a room with this name exists.
    pub fn contains_room(&self, c: &str) -> (r: bool)
        requires
            self.wf(),
        ensures
            r == self.has_room(c@),
    {
        self.find(c).is_some()
    }

    /// The users of a room, as a list; empty when the room does not exist.
    pub fn members_of(&self, c: &str) -> (r: Vec<String>)
        requires
            self.wf(),
        ensures
            set_of_strings(r@) == self.members(c@),
    {
        match self.find(c) {
            Some(i) => self.rooms[i].state.users.to_vec(),
            None => {
                let r: Vec<String> = Vec::new();
                proof {
                    assert(set_of_strings(r@) =~= Set::<Seq<char>>::empty());
                }
                r
            },
        }
    }

    /// The quality and bitrate of a room.
    pub fn descriptor_of(&self, c: &str) -> (r: Option<(String, Option<i32>)>)
        requires
            self.wf(),
        ensures
            match r {
                Some(d) => self.has_room(c@) && d.0@ == self.quality_of(c@) && d.1
                    == self.bitrate_of(c@),
                None => !self.has_room(c@),
            },
    {
        match self.find(c) {
            Some(i) => Some((self.rooms[i].state.quality.clone(), self.rooms[i].state.bitrate)),
            None => None,
        }
    }

    /// The number of rooms.
    pub fn len(&self) -> (r: usize)
        ensures
            r == self.rooms_seq().len(),
    {
        self.rooms.len()
    }

    /// The name of the room at a position.
    pub fn name_at(&self, i: usize) -> (r: &String)
        requires
            i < self.rooms_seq().len(),
        ensures
            r@ == self.rooms_seq()[i as int].name@,
    {
        &self.rooms[i].name
    }

    /// A snapshot (quality, bitrate, members) of the room at a position.
    pub fn snapshot_at(&self, i: usize) -> (r: (String, Option<i32>, Vec<String>))
        requires
            self.wf(),
            i < self.rooms_seq().len(),
        ensures
            r.0@ == self.rooms_seq()[i as int].state.quality@,
            r.1 == self.rooms_seq()[i as int].state.bitrate,
            set_of_strings(r.2@) == self.rooms_seq()[i as int].state.users@,
    {
        let room = &self.rooms[i];
        (room.state.quality.clone(), room.state.bitrate, room.state.users.to_vec())
    }

    /// Remove a user from every room.
    fn strip_user(&mut self, user: &str)
        requires
            old(self).wf(),
        ensures
            final(self).wf(),
            final(self).rooms_seq().len() == old(self).rooms_seq().len(),
            forall|j: int|
                0 <= j < old(self).rooms_seq().len() ==> final(self).rooms_seq()[j].name@
                    == old(self).rooms_seq()[j].name@
                    && final(self).rooms_seq()[j].state.quality@
                    == old(self).rooms_seq()[j].state.quality@
                    && final(self).rooms_seq()[j].state.bitrate
                    == old(self).rooms_seq()[j].state.bitrate
                    && final(self).rooms_seq()[j].state.users@
                    == old(self).rooms_seq()[j].state.users@.remove(user@),
    {
        let ghost orig = self.rooms@;
        let n = self.rooms.len();
        let mut i: usize = 0;
        while i < n
            invariant
                n == orig.len(),
                self.rooms@.len() == orig.len(),
                0 <= i <= n,
                forall|j: int|
                    0 <= j < orig.len() ==> self.rooms@[j].name@ == orig[j].name@
                        && self.rooms@[j].state.quality@ == orig[j].state.quality@
                        && self.rooms@[j].state.bitrate == orig[j].state.bitrate,
                forall|j: int|
                    0 <= j < i ==> self.rooms@[j].state.users@ == orig[j].state.users@.remove(user@)
                        && self.rooms@[j].state.users.wf(),
                forall|j: int| i <= j < orig.len() ==> self.rooms@[j] == orig[j],
                forall|j: int| 0 <= j < orig.len() ==> orig[j].state.users.wf(),
            decreases n - i,
        {
            let ghost pre = self.rooms@;
            let mut room = self.rooms.remove(i);
            room.state.users.remove(user);
            self.rooms.insert(i, room);
            proof {
                assert forall|j: int| 0 <= j < orig.len() && j != i implies self.rooms@[j]
                    == pre[j] by {
                    if j < i {
                        assert(pre.remove(i as int)[j] == pre[j]);
                    } else {
                        assert(pre.remove(i as int)[j - 1] == pre[j]);
                    }
                }
            }
            i = i + 1;
        }
        proof {
            assert forall|a: int, b: int, u: Seq<char>|
                0 <= a < self.rooms@.len() && 0 <= b < self.rooms@.len()
                    && self.rooms@[a].state.users@.contains(u)
                    && self.rooms@[b].state.users@.contains(u) implies a == b by {
                assert(orig[a].state.users@.contains(u));
                assert(orig[b].state.users@.contains(u));
            }
        }
    }

    /// Two room stores agree on a room name: same existence, members,
    /// quality and bitrate.
    pub open spec fn same_room(a: &VoiceRooms, b: &VoiceRooms, c: Seq<char>) -> bool {
        &&& a.has_room(c) == b.has_room(c)
        &&& a.members(c) == b.members(c)
        &&& a.has_room(c) ==> a.quality_of(c) == b.quality_of(c) && a.bitrate_of(c)
            == b.bitrate_of(c)
    }

    /// Move a user into a room, out of any other room; the room is created
    /// with defaults when absent. Returns whether it was created.
    pub fn join(&mut self, user: &str, channel: &str) -> (created: bool)
        requires
            old(self).wf(),
        ensures
            final(self).wf(),
            created == !old(self).has_room(channel@),
            final(self).has_room(channel@),
            final(self).in_room(channel@, user@),
            final(self).members(channel@) == old(self).members(channel@).insert(user@),
            forall|c: Seq<char>|
                c != channel@ ==> final(self).has_room(c) == old(self).has_room(c)
                    && final(self).members(c) == old(self).members(c).remove(user@)
                    && (old(self).has_room(c) ==> final(self).quality_of(c) == old(self).quality_of(c)
                    && final(self).bitrate_of(c) == old(self).bitrate_of(c)),
            created ==> final(self).quality_of(channel@) == crate::default_voice_quality()
                && final(self).bitrate_of(channel@) == Some(crate::DEFAULT_VOICE_BITRATE),
            !created ==> final(self).quality_of(channel@) == old(self).quality_of(channel@)
                && final(self).bitrate_of(channel@) == old(self).bitrate_of(channel@),
    {
        let ghost orig = *old(self);
        self.strip_user(user);
        let ghost stripped = *self;
        proof {
            lemma_rooms_agree(&orig, self, user@);
        }
        match self.find(channel) {
            Some(i) => {
                let ghost pre = self.rooms@;
                let mut room = self.rooms.remove(i);
                room.state.users.insert(user);
                self.rooms.insert(i, room);
                proof {
                    assert forall|j: int| 0 <= j < pre.len() && j != i implies self.rooms@[j]
                        == pre[j] by {
                        if j < i {
                            assert(pre.remove(i as int)[j] == pre[j]);
                        } else {
                            assert(pre.remove(i as int)[j - 1] == pre[j]);
                        }
                    }
                    lemma_join_existing(&orig, &stripped, self, user@, channel@, i as int);
                }
                false
            },
            None => {
                let mut users = StrSet::new();
                users.insert(user);
                let room = VoiceRoom {
                    name: channel.to_owned(),
                    state: VoiceChannelState {
                        users,
                        quality: "standard".to_owned(),
                        bitrate: Some(crate::DEFAULT_VOICE_BITRATE),
                    },
                };
                let ghost pre = self.rooms@;
                self.rooms.push(room);
                proof {
                    assert forall|j: int| 0 <= j < pre.len() implies self.rooms@[j] == pre[j] by {}
                    reveal_strlit("standard");
                    lemma_join_fresh(&orig, &stripped, self, user@, channel@);
                }
                true
            },
        }
    }
}

impl VoiceRooms {
    /// Remove a user from one room.
    pub fn leave(&mut self, user: &str, channel: &str)
        requires
            old(self).wf(),
        ensures
            final(self).wf(),
            forall|c: Seq<char>| final(self).has_room(c) == old(self).has_room(c),
            final(self).members(channel@) == old(self).members(channel@).remove(user@),
            forall|c: Seq<char>| c != channel@ ==> final(self).members(c) == old(self).members(c),
            forall|c: Seq<char>|
                old(self).has_room(c) ==> final(self).quality_of(c) == old(self).quality_of(c)
                    && final(self).bitrate_of(c) == old(self).bitrate_of(c),
    {
        let ghost orig = *old(self);
        match self.find(channel) {
            Some(i) => {
                let ghost pre = self.rooms@;
                let mut room = self.rooms.remove(i);
                room.state.users.remove(user);
                self.rooms.insert(i, room);
                proof {
                    assert forall|j: int| 0 <= j < pre.len() && j != i implies self.rooms@[j]
                        == pre[j] by {
                        if j < i {
                            assert(pre.remove(i as int)[j] == pre[j]);
                        } else {
                            assert(pre.remove(i as int)[j - 1] == pre[j]);
                        }
                    }
                    lemma_update_room_at(&orig, self, i as int, channel@);
                    lemma_room_index_unique(&orig, orig.room_index(channel@), i as int);
                }
            },
            None => {
                proof {
                    assert(final(self).members(channel@) =~= old(self).members(channel@).remove(
                        user@,
                    ));
                }
            },
        }
    }

    /// Remove a user from whatever room holds it, returning that room's name.
    pub fn remove_user_everywhere(&mut self, user: &str) -> (r: Option<String>)
        requires
            old(self).wf(),
        ensures
            final(self).wf(),
            forall|c: Seq<char>| final(self).has_room(c) == old(self).has_room(c),
            forall|c: Seq<char>|
                old(self).has_room(c) ==> final(self).quality_of(c) == old(self).quality_of(c)
                    && final(self).bitrate_of(c) == old(self).bitrate_of(c),
            match r {
                Some(name) => old(self).in_room(name@, user@) && final(self).members(name@) == old(self).members(name@).remove(user@) && forall|c: Seq<char>|
                    c != name@ ==> final(self).members(c) == old(self).members(c),
                None => final(self).rooms_seq() == old(self).rooms_seq() && forall|c: Seq<char>|
                    !old(self).in_room(c, user@),
            },
    {
        let ghost orig = *old(self);
        let n = self.rooms.len();
        for i in 0..n
            invariant
                orig == *old(self),
                self.rooms@ == orig.rooms_seq(),
                orig.wf(),
                n == orig.rooms_seq().len(),
                forall|j: int| 0 <= j < i ==> !orig.rooms_seq()[j].state.users@.contains(user@),
        {
            if self.rooms[i].state.users.contains(user) {
                let name = self.rooms[i].name.clone();
                let ghost pre = self.rooms@;
                let mut room = self.rooms.remove(i);
                room.state.users.remove(user);
                self.rooms.insert(i, room);
                proof {
                    assert forall|j: int| 0 <= j < pre.len() && j != i implies self.rooms@[j]
                        == pre[j] by {
                        if j < i {
                            assert(pre.remove(i as int)[j] == pre[j]);
                        } else {
                            assert(pre.remove(i as int)[j - 1] == pre[j]);
                        }
                    }
                    lemma_update_room_at(&orig, self, i as int, name@);
                    lemma_room_index_unique(&orig, orig.room_index(name@), i as int);
                    assert(orig.has_room(name@));
                    assert forall|c: Seq<char>| self.has_room(c) == orig.has_room(c) by {
                        if c != name@ {
                            assert(self.has_room(c) == orig.has_room(c));
                        }
                    }
                    assert forall|c: Seq<char>| orig.has_room(c) implies self.quality_of(c)
                        == orig.quality_of(c) && self.bitrate_of(c) == orig.bitrate_of(c) by {
                        if c == name@ {
                            assert(self.quality_of(c) == self.rooms_seq()[i as int].state.quality@);
                            assert(orig.quality_of(c) == orig.rooms_seq()[i as int].state.quality@);
                        }
                    }
                }
                return Some(name);
            }
        }
        proof {
            assert forall|c: Seq<char>| !orig.in_room(c, user@) by {
                if orig.in_room(c, user@) {
                    let j = orig.room_index(c);
                    assert(orig.rooms_seq()[j].state.users@.contains(user@));
                }
            }
        }
        None
    }

    /// Create a room with the given configuration if it is absent.
    pub fn create_room(&mut self, channel: &str, quality: String, bitrate: Option<i32>) -> (created:
        bool)
        requires
            old(self).wf(),
        ensures
            final(self).wf(),
            created == !old(self).has_room(channel@),
            !created ==> final(self).rooms_seq() == old(self).rooms_seq(),
            final(self).has_room(channel@),
            created ==> final(self).members(channel@) == Set::<Seq<char>>::empty() && final(self).quality_of(channel@) == quality@ && final(self).bitrate_of(channel@) == bitrate,
            forall|c: Seq<char>|
                c != channel@ ==> final(self).has_room(c) == old(self).has_room(c) && final(self).members(c) == old(self).members(c) && (old(self).has_room(c) ==> final(self).quality_of(c) == old(self).quality_of(c) && final(self).bitrate_of(c) == old(self).bitrate_of(c)),
    {
        let ghost orig = *old(self);
        match self.find(channel) {
            Some(_) => false,
            None => {
                let room = VoiceRoom {
                    name: channel.to_owned(),
                    state: VoiceChannelState { users: StrSet::new(), quality, bitrate },
                };
                let ghost pre = self.rooms@;
                self.rooms.push(room);
                proof {
                    assert forall|j: int| 0 <= j < pre.len() implies self.rooms@[j] == pre[j] by {}
                    lemma_append_room(&orig, self, channel@);
                }
                true
            },
        }
    }

    /// Update the configuration of a room; members are untouched.
    pub fn update_room(&mut self, channel: &str, quality: String, bitrate: Option<i32>) -> (updated:
        bool)
        requires
            old(self).wf(),
        ensures
            final(self).wf(),
            updated == old(self).has_room(channel@),
            !updated ==> final(self).rooms_seq() == old(self).rooms_seq(),
            forall|c: Seq<char>| final(self).has_room(c) == old(self).has_room(c),
            forall|c: Seq<char>| final(self).members(c) == old(self).members(c),
            updated ==> final(self).quality_of(channel@) == quality@ && final(self).bitrate_of(
                channel@,
            ) == bitrate,
            forall|c: Seq<char>|
                c != channel@ && old(self).has_room(c) ==> final(self).quality_of(c) == old(self).quality_of(c) && final(self).bitrate_of(c) == old(self).bitrate_of(c),
    {
        let ghost orig = *old(self);
        match self.find(channel) {
            Some(i) => {
                let ghost pre = self.rooms@;
                let mut room = self.rooms.remove(i);
                room.state.quality = quality;
                room.state.bitrate = bitrate;
                self.rooms.insert(i, room);
                proof {
                    assert forall|j: int| 0 <= j < pre.len() && j != i implies self.rooms@[j]
                        == pre[j] by {
                        if j < i {
                            assert(pre.remove(i as int)[j] == pre[j]);
                        } else {
                            assert(pre.remove(i as int)[j - 1] == pre[j]);
                        }
                    }
                    lemma_update_room_at(&orig, self, i as int, channel@);
                    lemma_room_index_unique(&orig, orig.room_index(channel@), i as int);
                }
                true
            },
            None => false,
        }
    }

    /// Remove a room entirely.
    pub fn remove_room(&mut self, channel: &str)
        requires
            old(self).wf(),
        ensures
            final(self).wf(),
            !final(self).has_room(channel@),
            forall|c: Seq<char>|
                c != channel@ ==> final(self).has_room(c) == old(self).has_room(c) && final(self).members(c) == old(self).members(c) && (old(self).has_room(c) ==> final(self).quality_of(c) == old(self).quality_of(c) && final(self).bitrate_of(c) == old(self).bitrate_of(c)),
    {
        let ghost orig = *old(self);
        match self.find(channel) {
            Some(i) => {
                self.rooms.remove(i);
                proof {
                    lemma_remove_room_at(&orig, self, i as int, channel@);
                }
            },
            None => {},
        }
    }
}

/// Updating room `i` in place — same name, members only shrinking — keeps
/// the store well formed and leaves every other room untouched.
proof fn lemma_update_room_at(pre: &VoiceRooms, post: &VoiceRooms, i: int, c: Seq<char>)
    requires
        pre.wf(),
        0 <= i < pre.rooms_seq().len(),
        pre.rooms_seq()[i].name@ == c,
        post.rooms_seq().len() == pre.rooms_seq().len(),
        forall|j: int|
            0 <= j < pre.rooms_seq().len() && j != i ==> post.rooms_seq()[j] == pre.rooms_seq()[j],
        post.rooms_seq()[i].name@ == c,
        forall|u: Seq<char>|
            post.rooms_seq()[i].state.users@.contains(u) ==> pre.rooms_seq()[i].state.users@.contains(
                u,
            ),
        post.rooms_seq()[i].state.users.wf(),
    ensures
        post.wf(),
        post.has_room(c),
        post.room_index(c) == i,
        pre.room_index(c) == i,
        post.members(c) == post.rooms_seq()[i].state.users@,
        pre.members(c) == pre.rooms_seq()[i].state.users@,
        post.quality_of(c) == post.rooms_seq()[i].state.quality@,
        post.bitrate_of(c) == post.rooms_seq()[i].state.bitrate,
        forall|c2: Seq<char>|
            c2 != c ==> post.has_room(c2) == pre.has_room(c2) && post.members(c2) == pre.members(c2)
                && (pre.has_room(c2) ==> post.quality_of(c2) == pre.quality_of(c2)
                && post.bitrate_of(c2) == pre.bitrate_of(c2)),
{
    assert forall|a: int, b: int|
        0 <= a < b < post.rooms_seq().len() implies post.rooms_seq()[a].name@
        != post.rooms_seq()[b].name@ by {
        assert(post.rooms_seq()[a].name@ == pre.rooms_seq()[a].name@);
        assert(post.rooms_seq()[b].name@ == pre.rooms_seq()[b].name@);
    }
    assert forall|a: int, b: int, u: Seq<char>|
        0 <= a < post.rooms_seq().len() && 0 <= b < post.rooms_seq().len()
            && post.rooms_seq()[a].state.users@.contains(u)
            && post.rooms_seq()[b].state.users@.contains(u) implies a == b by {
        assert(pre.rooms_seq()[a].state.users@.contains(u));
        assert(pre.rooms_seq()[b].state.users@.contains(u));
    }
    assert(post.rooms_seq()[i].name@ == c);
    assert(post.has_room(c));
    lemma_room_index_unique(post, post.room_index(c), i);
    lemma_room_index_unique(pre, pre.room_index(c), i);
    assert forall|c2: Seq<char>| c2 != c implies post.has_room(c2) == pre.has_room(c2)
        && post.members(c2) == pre.members(c2) && (pre.has_room(c2) ==> post.quality_of(c2)
        == pre.quality_of(c2) && post.bitrate_of(c2) == pre.bitrate_of(c2)) by {
        if pre.has_room(c2) {
            let j = pre.room_index(c2);
            assert(j != i);
            assert(post.rooms_seq()[j].name@ == c2);
            assert(post.has_room(c2));
            lemma_room_index_unique(post, post.room_index(c2), j);
        } else {
            if post.has_room(c2) {
                let j = post.room_index(c2);
                assert(pre.rooms_seq()[j].name@ == c2);
                assert(false);
            }
            assert(post.members(c2) =~= pre.members(c2));
        }
    }
}

/// Appending a room with a fresh name keeps the store well formed and
/// leaves every other room untouched.
proof fn lemma_append_room(pre: &VoiceRooms, post: &VoiceRooms, c: Seq<char>)
    requires
        pre.wf(),
        !pre.has_room(c),
        post.rooms_seq().len() == pre.rooms_seq().len() + 1,
        forall|j: int|
            0 <= j < pre.rooms_seq().len() ==> post.rooms_seq()[j] == pre.rooms_seq()[j],
        post.rooms_seq().last().name@ == c,
        post.rooms_seq().last().state.users@ == Set::<Seq<char>>::empty(),
        post.rooms_seq().last().state.users.wf(),
    ensures
        post.wf(),
        post.has_room(c),
        post.room_index(c) == post.rooms_seq().len() - 1,
        post.members(c) == Set::<Seq<char>>::empty(),
        post.quality_of(c) == post.rooms_seq().last().state.quality@,
        post.bitrate_of(c) == post.rooms_seq().last().state.bitrate,
        forall|c2: Seq<char>|
            c2 != c ==> post.has_room(c2) == pre.has_room(c2) && post.members(c2) == pre.members(c2)
                && (pre.has_room(c2) ==> post.quality_of(c2) == pre.quality_of(c2)
                && post.bitrate_of(c2) == pre.bitrate_of(c2)),
{
    let last = post.rooms_seq().len() - 1;
    assert forall|a: int, b: int|
        0 <= a < b < post.rooms_seq().len() implies post.rooms_seq()[a].name@
        != post.rooms_seq()[b].name@ by {
        if b == last {
            if post.rooms_seq()[a].name@ == c {
                assert(pre.rooms_seq()[a].name@ == c);
                assert(pre.has_room(c));
                assert(false);
            }
        }
    }
    assert forall|a: int, b: int, u: Seq<char>|
        0 <= a < post.rooms_seq().len() && 0 <= b < post.rooms_seq().len()
            && post.rooms_seq()[a].state.users@.contains(u)
            && post.rooms_seq()[b].state.users@.contains(u) implies a == b by {
        if a != last && b != last {
            assert(pre.rooms_seq()[a].state.users@.contains(u));
            assert(pre.rooms_seq()[b].state.users@.contains(u));
        }
    }
    assert(post.rooms_seq()[last].name@ == c);
    assert(post.has_room(c));
    lemma_room_index_unique(post, post.room_index(c), last);
    assert forall|c2: Seq<char>| c2 != c implies post.has_room(c2) == pre.has_room(c2)
        && post.members(c2) == pre.members(c2) && (pre.has_room(c2) ==> post.quality_of(c2)
        == pre.quality_of(c2) && post.bitrate_of(c2) == pre.bitrate_of(c2)) by {
        if pre.has_room(c2) {
            let j = pre.room_index(c2);
            assert(post.rooms_seq()[j].name@ == c2);
            assert(post.has_room(c2));
            lemma_room_index_unique(post, post.room_index(c2), j);
        } else {
            if post.has_room(c2) {
                let j = post.room_index(c2);
                assert(j != last);
                assert(pre.rooms_seq()[j].name@ == c2);
                assert(false);
            }
            assert(post.members(c2) =~= pre.members(c2));
        }
    }
}

/// Removing room `i` keeps the store well formed and leaves every other
/// room untouched.
proof fn lemma_remove_room_at(pre: &VoiceRooms, post: &VoiceRooms, i: int, c: Seq<char>)
    requires
        pre.wf(),
        0 <= i < pre.rooms_seq().len(),
        pre.rooms_seq()[i].name@ == c,
        post.rooms_seq() == pre.rooms_seq().remove(i),
    ensures
        post.wf(),
        !post.has_room(c),
        forall|c2: Seq<char>|
            c2 != c ==> post.has_room(c2) == pre.has_room(c2) && post.members(c2) == pre.members(c2)
                && (pre.has_room(c2) ==> post.quality_of(c2) == pre.quality_of(c2)
                && post.bitrate_of(c2) == pre.bitrate_of(c2)),
{
    let t = post.rooms_seq();
    let s = pre.rooms_seq();
    assert forall|a: int, b: int|
        0 <= a < b < t.len() implies t[a].name@ != t[b].name@ by {
        if a < i && b < i {
            assert(t[a] == s[a] && t[b] == s[b]);
        } else if a < i {
            assert(t[a] == s[a] && t[b] == s[b + 1]);
        } else {
            assert(t[a] == s[a + 1] && t[b] == s[b + 1]);
        }
    }
    assert forall|a: int, b: int, u: Seq<char>|
        0 <= a < t.len() && 0 <= b < t.len() && t[a].state.users@.contains(u)
            && t[b].state.users@.contains(u) implies a == b by {
        let a0 = if a < i {
            a
        } else {
            a + 1
        };
        let b0 = if b < i {
            b
        } else {
            b + 1
        };
        assert(s[a0].state.users@.contains(u));
        assert(s[b0].state.users@.contains(u));
    }
    assert forall|j: int| 0 <= j < t.len() implies t[j].state.users.wf() by {
        let j0 = if j < i {
            j
        } else {
            j + 1
        };
        assert(t[j] == s[j0]);
    }
    if post.has_room(c) {
        let j = post.room_index(c);
        let j0: int = if j < i {
            j
        } else {
            j + 1
        };
        assert(s[j0].name@ == c);
        lemma_room_index_unique(pre, j0, i);
        assert(false);
    }
    assert forall|c2: Seq<char>| c2 != c implies post.has_room(c2) == pre.has_room(c2)
        && post.members(c2) == pre.members(c2) && (pre.has_room(c2) ==> post.quality_of(c2)
        == pre.quality_of(c2) && post.bitrate_of(c2) == pre.bitrate_of(c2)) by {
        if pre.has_room(c2) {
            let j = pre.room_index(c2);
            assert(j != i);
            let jt: int = if j < i {
                j
            } else {
                j - 1
            };
            assert(t[jt] == s[j]);
            assert(t[jt].name@ == c2);
            assert(post.has_room(c2));
            lemma_room_index_unique(post, post.room_index(c2), jt);
        } else {
            if post.has_room(c2) {
                let j = post.room_index(c2);
                let j0: int = if j < i {
                    j
                } else {
                    j + 1
                };
                assert(s[j0].name@ == c2);
                assert(false);
            }
            assert(post.members(c2) =~= pre.members(c2));
        }
    }
}

/// After `strip_user`, every room keeps its name, quality and bitrate, and
/// only loses the stripped user.
proof fn lemma_rooms_agree(orig: &VoiceRooms, now: &VoiceRooms, user: Seq<char>)
    requires
        orig.wf(),
        now.wf(),
        now.rooms_seq().len() == orig.rooms_seq().len(),
        forall|j: int|
            0 <= j < orig.rooms_seq().len() ==> now.rooms_seq()[j].name@
                == orig.rooms_seq()[j].name@ && now.rooms_seq()[j].state.quality@
                == orig.rooms_seq()[j].state.quality@ && now.rooms_seq()[j].state.bitrate
                == orig.rooms_seq()[j].state.bitrate && now.rooms_seq()[j].state.users@
                == orig.rooms_seq()[j].state.users@.remove(user),
    ensures
        forall|c: Seq<char>|
            #![trigger now.has_room(c)]
            now.has_room(c) == orig.has_room(c) && (now.has_room(c) ==> now.room_index(c)
                == orig.room_index(c) && now.members(c) == orig.members(c).remove(user)
                && now.quality_of(c) == orig.quality_of(c) && now.bitrate_of(c) == orig.bitrate_of(
                c,
            )) && (!now.has_room(c) ==> now.members(c) == orig.members(c).remove(user)),
{
    assert forall|c: Seq<char>|
        #![trigger now.has_room(c)]
        now.has_room(c) == orig.has_room(c) && (now.has_room(c) ==> now.room_index(c)
            == orig.room_index(c) && now.members(c) == orig.members(c).remove(user)
            && now.quality_of(c) == orig.quality_of(c) && now.bitrate_of(c) == orig.bitrate_of(c))
            && (!now.has_room(c) ==> now.members(c) == orig.members(c).remove(user)) by {
        if now.has_room(c) {
            let i = now.room_index(c);
            assert(orig.rooms_seq()[i].name@ == c);
            assert(orig.has_room(c));
        }
        if orig.has_room(c) {
            let i = orig.room_index(c);
            assert(now.rooms_seq()[i].name@ == c);
            assert(now.has_room(c));
        }
        if now.has_room(c) {
            let i = now.room_index(c);
            let j = orig.room_index(c);
            assert(now.rooms_seq()[i].name@ == c);
            assert(orig.rooms_seq()[j].name@ == c);
            assert(now.rooms_seq()[j].name@ == c);
            lemma_room_index_unique(now, i, j);
        }
        if !now.has_room(c) {
            assert(now.members(c) =~= orig.members(c).remove(user));
        }
    }
}

/// Room indices with the same name are equal.
proof fn lemma_room_index_unique(v: &VoiceRooms, i: int, j: int)
    requires
        v.wf(),
        0 <= i < v.rooms_seq().len(),
        0 <= j < v.rooms_seq().len(),
        v.rooms_seq()[i].name@ == v.rooms_seq()[j].name@,
    ensures
        i == j,
{
}

/// Joining an existing room after stripping the user.
proof fn lemma_join_existing(
    orig: &VoiceRooms,
    stripped: &VoiceRooms,
    now: &VoiceRooms,
    user: Seq<char>,
    channel: Seq<char>,
    i: int,
)
    requires
        orig.wf(),
        stripped.wf(),
        stripped.rooms_seq().len() == orig.rooms_seq().len(),
        forall|j: int|
            0 <= j < orig.rooms_seq().len() ==> stripped.rooms_seq()[j].name@
                == orig.rooms_seq()[j].name@ && stripped.rooms_seq()[j].state.quality@
                == orig.rooms_seq()[j].state.quality@ && stripped.rooms_seq()[j].state.bitrate
                == orig.rooms_seq()[j].state.bitrate && stripped.rooms_seq()[j].state.users@
                == orig.rooms_seq()[j].state.users@.remove(user),
        stripped.has_room(channel),
        i == stripped.room_index(channel),
        now.rooms_seq().len() == stripped.rooms_seq().len(),
        forall|j: int|
            0 <= j < stripped.rooms_seq().len() && j != i ==> now.rooms_seq()[j]
                == stripped.rooms_seq()[j],
        now.rooms_seq()[i].name@ == stripped.rooms_seq()[i].name@,
        now.rooms_seq()[i].state.quality@ == stripped.rooms_seq()[i].state.quality@,
        now.rooms_seq()[i].state.bitrate == stripped.rooms_seq()[i].state.bitrate,
        now.rooms_seq()[i].state.users@ == stripped.rooms_seq()[i].state.users@.insert(user),
        now.rooms_seq()[i].state.users.wf(),
    ensures
        now.wf(),
        now.has_room(channel),
        now.in_room(channel, user),
        now.members(channel) == orig.members(channel).insert(user),
        forall|c: Seq<char>|
            c != channel ==> now.has_room(c) == orig.has_room(c) && now.members(c) == orig.members(
                c,
            ).remove(user) && (orig.has_room(c) ==> now.quality_of(c) == orig.quality_of(c)
                && now.bitrate_of(c) == orig.bitrate_of(c)),
        now.quality_of(channel) == orig.quality_of(channel),
        now.bitrate_of(channel) == orig.bitrate_of(channel),
{
    lemma_rooms_agree(orig, stripped, user);
    // Names are unchanged between stripped and now.
    assert forall|j: int|
        0 <= j < now.rooms_seq().len() implies now.rooms_seq()[j].name@
        == stripped.rooms_seq()[j].name@ by {}
    // Well-formedness: unique names carry over; member sets are wf; the
    // joining user is only in room i, and other users did not move.
    assert forall|a: int, b: int, u: Seq<char>|
        0 <= a < now.rooms_seq().len() && 0 <= b < now.rooms_seq().len()
            && now.rooms_seq()[a].state.users@.contains(u)
            && now.rooms_seq()[b].state.users@.contains(u) implies a == b by {
        if u == user {
            if a != i {
                assert(stripped.rooms_seq()[a].state.users@.contains(u));
                assert(orig.rooms_seq()[a].state.users@.remove(user).contains(u));
                assert(false);
            }
            if b != i {
                assert(stripped.rooms_seq()[b].state.users@.contains(u));
                assert(orig.rooms_seq()[b].state.users@.remove(user).contains(u));
                assert(false);
            }
        } else {
            assert(stripped.rooms_seq()[a].state.users@.contains(u));
            assert(stripped.rooms_seq()[b].state.users@.contains(u));
        }
    }
    assert(now.rooms_seq()[i].name@ == channel);
    assert(now.has_room(channel));
    lemma_room_index_unique(now, now.room_index(channel), i);
    assert(now.members(channel) =~= orig.members(channel).insert(user));
    assert forall|c: Seq<char>| c != channel implies now.has_room(c) == orig.has_room(c)
        && now.members(c) == orig.members(c).remove(user) && (orig.has_room(c) ==> now.quality_of(c)
        == orig.quality_of(c) && now.bitrate_of(c) == orig.bitrate_of(c)) by {
        if orig.has_room(c) {
            let j = orig.room_index(c);
            assert(stripped.rooms_seq()[j].name@ == c);
            assert(j != i);
            assert(now.rooms_seq()[j].name@ == c);
            assert(now.has_room(c));
            lemma_room_index_unique(now, now.room_index(c), j);
            lemma_room_index_unique(stripped, stripped.room_index(c), j);
            assert(now.members(c) == orig.members(c).remove(user));
        } else {
            if now.has_room(c) {
                let j = now.room_index(c);
                assert(orig.rooms_seq()[j].name@ == c);
                assert(false);
            }
            assert(now.members(c) =~= orig.members(c).remove(user));
        }
    }
}

/// Joining a freshly created room after stripping the user.
proof fn lemma_join_fresh(
    orig: &VoiceRooms,
    stripped: &VoiceRooms,
    now: &VoiceRooms,
    user: Seq<char>,
    channel: Seq<char>,
)
    requires
        orig.wf(),
        stripped.wf(),
        stripped.rooms_seq().len() == orig.rooms_seq().len(),
        forall|j: int|
            0 <= j < orig.rooms_seq().len() ==> stripped.rooms_seq()[j].name@
                == orig.rooms_seq()[j].name@ && stripped.rooms_seq()[j].state.quality@
                == orig.rooms_seq()[j].state.quality@ && stripped.rooms_seq()[j].state.bitrate
                == orig.rooms_seq()[j].state.bitrate && stripped.rooms_seq()[j].state.users@
                == orig.rooms_seq()[j].state.users@.remove(user),
        !stripped.has_room(channel),
        now.rooms_seq().len() == stripped.rooms_seq().len() + 1,
        forall|j: int|
            0 <= j < stripped.rooms_seq().len() ==> now.rooms_seq()[j] == stripped.rooms_seq()[j],
        now.rooms_seq().last().name@ == channel,
        now.rooms_seq().last().state.quality@ == crate::default_voice_quality(),
        now.rooms_seq().last().state.bitrate == Some(crate::DEFAULT_VOICE_BITRATE),
        now.rooms_seq().last().state.users@ == Set::<Seq<char>>::empty().insert(user),
        now.rooms_seq().last().state.users.wf(),
    ensures
        now.wf(),
        now.has_room(channel),
        now.in_room(channel, user),
        now.members(channel) == orig.members(channel).insert(user),
        forall|c: Seq<char>|
            c != channel ==> now.has_room(c) == orig.has_room(c) && now.members(c) == orig.members(
                c,
            ).remove(user) && (orig.has_room(c) ==> now.quality_of(c) == orig.quality_of(c)
                && now.bitrate_of(c) == orig.bitrate_of(c)),
        now.quality_of(channel) == crate::default_voice_quality(),
        now.bitrate_of(channel) == Some(crate::DEFAULT_VOICE_BITRATE),
        !orig.has_room(channel),
{
    lemma_rooms_agree(orig, stripped, user);
    let last = now.rooms_seq().len() - 1;
    assert forall|a: int, b: int|
        0 <= a < b < now.rooms_seq().len() implies now.rooms_seq()[a].name@
        != now.rooms_seq()[b].name@ by {
        if b == last {
            if now.rooms_seq()[a].name@ == channel {
                assert(stripped.rooms_seq()[a].name@ == channel);
                assert(stripped.has_room(channel));
                assert(false);
            }
        }
    }
    assert forall|a: int, b: int, u: Seq<char>|
        0 <= a < now.rooms_seq().len() && 0 <= b < now.rooms_seq().len()
            && now.rooms_seq()[a].state.users@.contains(u)
            && now.rooms_seq()[b].state.users@.contains(u) implies a == b by {
        if u == user {
            if a != last {
                assert(orig.rooms_seq()[a].state.users@.remove(user).contains(u));
                assert(false);
            }
            if b != last {
                assert(orig.rooms_seq()[b].state.users@.remove(user).contains(u));
                assert(false);
            }
        } else {
            if a == last || b == last {
                assert(Set::<Seq<char>>::empty().insert(user).contains(u) ==> u == user);
            }
            if a != last && b != last {
                assert(stripped.rooms_seq()[a].state.users@.contains(u));
                assert(stripped.rooms_seq()[b].state.users@.contains(u));
            }
        }
    }
    assert(now.rooms_seq()[last].name@ == channel);
    assert(now.has_room(channel));
    lemma_room_index_unique(now, now.room_index(channel), last);
    if orig.has_room(channel) {
        let j = orig.room_index(channel);
        assert(stripped.rooms_seq()[j].name@ == channel);
        assert(false);
    }
    assert(now.members(channel) =~= orig.members(channel).insert(user));
    assert forall|c: Seq<char>| c != channel implies now.has_room(c) == orig.has_room(c)
        && now.members(c) == orig.members(c).remove(user) && (orig.has_room(c) ==> now.quality_of(c)
        == orig.quality_of(c) && now.bitrate_of(c) == orig.bitrate_of(c)) by {
        if orig.has_room(c) {
            let j = orig.room_index(c);
            assert(stripped.rooms_seq()[j].name@ == c);
            assert(now.rooms_seq()[j].name@ == c);
            assert(now.has_room(c));
            lemma_room_index_unique(now, now.room_index(c), j);
            lemma_room_index_unique(stripped, stripped.room_index(c), j);
        } else {
            if now.has_room(c) {
                let j = now.room_index(c);
                assert(j != last);
                assert(orig.rooms_seq()[j].name@ == c);
                assert(false);
            }
            assert(now.members(c) =~= orig.members(c).remove(user));
        }
    }
}

/// A user appears in at most one voice room at any instant.
pub proof fn lemma_voice_exclusive(v: &VoiceRooms, u: Seq<char>, c1: Seq<char>, c2: Seq<char>)
    requires
        v.wf(),
        v.in_room(c1, u),
        v.in_room(c2, u),
    ensures
        c1 == c2,
{
    let i1 = v.room_index(c1);
    let i2 = v.room_index(c2);
    assert(v.rooms_seq()[i1].name@ == c1);
    assert(v.rooms_seq()[i2].name@ == c2);
}

} // verus!
