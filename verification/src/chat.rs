use vstd::prelude::*;
use vstd::string::StringExecFns;

use crate::ids::fresh_uuid;

verus! {

/// One open connection, uniquely named among the online users by its
/// handle.
#[derive(Debug, Clone)]
pub struct User {
    pub id: String,
    pub handle: String,
}

/// A user's id and handle, as the listings hand them out.
pub type UserInfo = (String, String);

/// One chat room: who joined, what was said, and whether its live
/// feed has been opened. The feed itself belongs to whoever runs the
/// server; this state machine only records that one exists and says
/// which events to put on it.
pub struct Hangout {
    pub users: Vec<User>,
    pub history: Vec<(i64, String)>,
    pub has_channel: bool,
}

/// An event for a room's live feed.
#[derive(Clone)]
pub enum Message {
    ChatMessage(String),
    UserJoin(String),
}

/// The form a connection posts to claim a handle.
pub struct ClaimUserHandleReq {
    pub user_handle: String,
}

/// The form a connection posts to create a room.
pub struct CreateHangoutReq {
    pub hangout_name: String,
}

/// The form a connection posts to join a room.
pub struct ConnectHangoutReq {}

/// The form a connection posts to say something in a room.
pub struct SendReq {
    pub send_message: String,
    pub hangout_id: String,
    pub user_handle: String,
}

/// Everything the chat server knows: who is online, and the rooms,
/// keyed by name with the first match winning.
pub struct State {
    pub online: Vec<User>,
    pub rooms: Vec<(String, Hangout)>,
}

/// Whether some online user already claimed this handle.
pub open spec fn handle_taken(online: Seq<User>, handle: Seq<char>) -> bool {
    exists|i: int| 0 <= i < online.len() && (#[trigger] online[i]).handle@ == handle
}

/// The first online user with this id, or -1.
pub open spec fn user_index(online: Seq<User>, id: Seq<char>) -> int
    decreases online.len(),
{
    if online.len() == 0 {
        -1
    } else if online[0].id@ == id {
        0
    } else {
        let t = user_index(online.skip(1), id);
        if t < 0 {
            -1
        } else {
            t + 1
        }
    }
}

/// The first room with this name, or -1.
pub open spec fn room_index(rooms: Seq<(String, Hangout)>, name: Seq<char>) -> int
    decreases rooms.len(),
{
    if rooms.len() == 0 {
        -1
    } else if rooms[0].0@ == name {
        0
    } else {
        let t = room_index(rooms.skip(1), name);
        if t < 0 {
            -1
        } else {
            t + 1
        }
    }
}

/// The id-and-handle pairs of a user list, in order.
pub open spec fn user_infos(users: Seq<User>) -> Seq<(Seq<char>, Seq<char>)> {
    Seq::new(users.len(), |i: int| (users[i].id@, users[i].handle@))
}

/// The names of the rooms, in order.
pub open spec fn room_names(rooms: Seq<(String, Hangout)>) -> Seq<Seq<char>> {
    Seq::new(rooms.len(), |i: int| rooms[i].0@)
}

proof fn lemma_room_index_found(rooms: Seq<(String, Hangout)>, name: Seq<char>, i: int)
    requires
        0 <= i < rooms.len(),
        forall|t: int| 0 <= t < i ==> (#[trigger] rooms[t]).0@ != name,
        rooms[i].0@ == name,
    ensures
        room_index(rooms, name) == i,
    decreases i,
{
    if i > 0 {
        let tail = rooms.skip(1);
        assert forall|t: int| 0 <= t < i - 1 implies (#[trigger] tail[t]).0@ != name by {
            assert(tail[t] == rooms[t + 1]);
        }
        assert(tail[i - 1] == rooms[i]);
        lemma_room_index_found(tail, name, i - 1);
    }
}

proof fn lemma_room_index_missing(rooms: Seq<(String, Hangout)>, name: Seq<char>)
    requires
        forall|t: int| 0 <= t < rooms.len() ==> (#[trigger] rooms[t]).0@ != name,
    ensures
        room_index(rooms, name) == -1,
    decreases rooms.len(),
{
    if rooms.len() > 0 {
        let tail = rooms.skip(1);
        assert forall|t: int| 0 <= t < tail.len() implies (#[trigger] tail[t]).0@ != name by {
            assert(tail[t] == rooms[t + 1]);
        }
        lemma_room_index_missing(tail, name);
    }
}

proof fn lemma_user_index_found(online: Seq<User>, id: Seq<char>, i: int)
    requires
        0 <= i < online.len(),
        forall|t: int| 0 <= t < i ==> (#[trigger] online[t]).id@ != id,
        online[i].id@ == id,
    ensures
        user_index(online, id) == i,
    decreases i,
{
    if i > 0 {
        let tail = online.skip(1);
        assert forall|t: int| 0 <= t < i - 1 implies (#[trigger] tail[t]).id@ != id by {
            assert(tail[t] == online[t + 1]);
        }
        assert(tail[i - 1] == online[i]);
        lemma_user_index_found(tail, id, i - 1);
    }
}

proof fn lemma_user_index_missing(online: Seq<User>, id: Seq<char>)
    requires
        forall|t: int| 0 <= t < online.len() ==> (#[trigger] online[t]).id@ != id,
    ensures
        user_index(online, id) == -1,
    decreases online.len(),
{
    if online.len() > 0 {
        let tail = online.skip(1);
        assert forall|t: int| 0 <= t < tail.len() implies (#[trigger] tail[t]).id@ != id by {
            assert(tail[t] == online[t + 1]);
        }
        lemma_user_index_missing(tail, id);
    }
}

fn find_room(rooms: &Vec<(String, Hangout)>, name: &String) -> (r: Option<usize>)
    ensures
        r is None ==> room_index(rooms@, name@) == -1,
        r matches Some(i) ==> i < rooms@.len() && rooms@[i as int].0@ == name@ && room_index(
            rooms@,
            name@,
        ) == i,
{
    let mut i: usize = 0;
    while i < rooms.len()
        invariant
            0 <= i <= rooms@.len(),
            forall|t: int| 0 <= t < i ==> (#[trigger] rooms@[t]).0@ != name@,
        decreases rooms@.len() - i,
    {
        if rooms[i].0 == *name {
            proof {
                lemma_room_index_found(rooms@, name@, i as int);
            }
            return Some(i);
        }
        i = i + 1;
    }
    proof {
        lemma_room_index_missing(rooms@, name@);
    }
    None
}

fn find_user(online: &Vec<User>, id: &String) -> (r: Option<usize>)
    ensures
        r is None ==> user_index(online@, id@) == -1,
        r matches Some(i) ==> i < online@.len() && online@[i as int].id@ == id@ && user_index(
            online@,
            id@,
        ) == i,
{
    let mut i: usize = 0;
    while i < online.len()
        invariant
            0 <= i <= online@.len(),
            forall|t: int| 0 <= t < i ==> (#[trigger] online@[t]).id@ != id@,
        decreases online@.len() - i,
    {
        if online[i].id == *id {
            proof {
                lemma_user_index_found(online@, id@, i as int);
            }
            return Some(i);
        }
        i = i + 1;
    }
    proof {
        lemma_user_index_missing(online@, id@);
    }
    None
}

impl State {
    pub fn new() -> (s: State)
        ensures
            s.online@ == Seq::<User>::empty(),
            s.rooms@ == Seq::<(String, Hangout)>::empty(),
    {
        State { online: Vec::new(), rooms: Vec::new() }
    }

    /// Claim a handle for a new connection: refused when any online
    /// user already carries it, otherwise the user goes online under a
    /// fresh 36-character id, which is returned.
    pub fn claim_user_handle(&mut self, user_handle: &str) -> (r: Option<String>)
        ensures
            handle_taken(old(self).online@, user_handle@) ==> r is None
                && *final(self) == *old(self),
            !handle_taken(old(self).online@, user_handle@) ==> (r matches Some(id) && {
                let added = final(self).online@.last();
                &&& id@.len() == 36
                &&& final(self).rooms == old(self).rooms
                &&& final(self).online@ == old(self).online@.push(added)
                &&& added.handle@ == user_handle@
                &&& added.id@ == id@
            }),
    {
        let handle = <String as StringExecFns>::from_str(user_handle);
        let mut i: usize = 0;
        while i < self.online.len()
            invariant
                0 <= i <= self.online@.len(),
                handle@ == user_handle@,
                forall|t: int| 0 <= t < i ==> (#[trigger] self.online@[t]).handle@ != user_handle@,
            decreases self.online@.len() - i,
        {
            if self.online[i].handle == handle {
                return None;
            }
            i = i + 1;
        }
        let id = fresh_uuid();
        let user = User { id: id.clone(), handle: handle };
        self.online.push(user);
        Some(id)
    }

    /// Create (or recreate) a room: a fresh, feedless room is stored
    /// under the name, and whatever room held the name before is
    /// handed back.
    pub fn create_hangout(&mut self, name: &str) -> (r: Option<Hangout>)
        ensures
            final(self).online == old(self).online,
            ({
                let idx = room_index(old(self).rooms@, name@);
                if idx == -1 {
                    let added = final(self).rooms@.last();
                    &&& r is None
                    &&& final(self).rooms@ == old(self).rooms@.push(added)
                    &&& added.0@ == name@
                    &&& added.1.users@.len() == 0
                    &&& added.1.history@.len() == 0
                    &&& added.1.has_channel == false
                } else {
                    let kept = final(self).rooms@[idx];
                    &&& r matches Some(h) && h == old(self).rooms@[idx].1
                    &&& final(self).rooms@ == old(self).rooms@.update(idx, kept)
                    &&& kept.0 == old(self).rooms@[idx].0
                    &&& kept.1.users@.len() == 0
                    &&& kept.1.history@.len() == 0
                    &&& kept.1.has_channel == false
                }
            }),
    {
        let name_s = <String as StringExecFns>::from_str(name);
        let fresh = Hangout { users: Vec::new(), history: Vec::new(), has_channel: false };
        match find_room(&self.rooms, &name_s) {
            None => {
                self.rooms.push((name_s, fresh));
                None
            },
            Some(i) => {
                let (key, previous) = self.rooms.remove(i);
                self.rooms.insert(i, (key, fresh));
                proof {
                    assert(final(self).rooms@ =~= old(self).rooms@.update(i as int,
                        final(self).rooms@[i as int]));
                }
                Some(previous)
            },
        }
    }

    /// Everyone online, as id-and-handle pairs, in arrival order.
    pub fn get_online_users(&self) -> (r: Vec<UserInfo>)
        ensures
            r.deep_view() == user_infos(self.online@),
    {
        let mut out: Vec<UserInfo> = Vec::new();
        let mut i: usize = 0;
        while i < self.online.len()
            invariant
                0 <= i <= self.online@.len(),
                out@.len() == i,
                forall|t: int| 0 <= t < i ==> #[trigger] out.deep_view()[t] == (
                    self.online@[t].id@, self.online@[t].handle@),
            decreases self.online@.len() - i,
        {
            let ghost prev = out.deep_view();
            out.push((self.online[i].id.clone(), self.online[i].handle.clone()));
            proof {
                assert(out.deep_view() =~~= prev.push(
                    (self.online@[i as int].id@, self.online@[i as int].handle@),
                ));
            }
            i = i + 1;
        }
        proof {
            assert(out.deep_view() =~= user_infos(self.online@));
        }
        out
    }

    /// The names of every room, in creation order.
    pub fn get_hangout_short(&self) -> (r: Vec<String>)
        ensures
            r.deep_view() == room_names(self.rooms@),
    {
        let mut out: Vec<String> = Vec::new();
        let mut i: usize = 0;
        while i < self.rooms.len()
            invariant
                0 <= i <= self.rooms@.len(),
                out@.len() == i,
                forall|t: int| 0 <= t < i ==> #[trigger] out.deep_view()[t] == self.rooms@[t].0@,
            decreases self.rooms@.len() - i,
        {
            let ghost prev = out.deep_view();
            out.push(self.rooms[i].0.clone());
            proof {
                assert(out.deep_view() =~~= prev.push(self.rooms@[i as int].0@));
            }
            i = i + 1;
        }
        proof {
            assert(out.deep_view() =~= room_names(self.rooms@));
        }
        out
    }

    /// Mark the named room's live feed as open; the caller opens the
    /// feed itself on the way from `false` to `true`. An unknown room
    /// is refused.
    pub fn init_hangout(&mut self, name: &str) -> (r: Option<()>)
        ensures
            final(self).online == old(self).online,
            ({
                let idx = room_index(old(self).rooms@, name@);
                if idx == -1 {
                    r is None && *final(self) == *old(self)
                } else {
                    &&& r == Some(())
                    &&& final(self).rooms@.len() == old(self).rooms@.len()
                    &&& forall|t: int|
                        0 <= t < old(self).rooms@.len() && t != idx
                            ==> final(self).rooms@[t] == old(self).rooms@[t]
                    &&& final(self).rooms@[idx].0 == old(self).rooms@[idx].0
                    &&& final(self).rooms@[idx].1.users == old(self).rooms@[idx].1.users
                    &&& final(self).rooms@[idx].1.history == old(self).rooms@[idx].1.history
                    &&& final(self).rooms@[idx].1.has_channel == true
                }
            }),
    {
        let name_s = <String as StringExecFns>::from_str(name);
        match find_room(&self.rooms, &name_s) {
            None => None,
            Some(i) => {
                if !self.rooms[i].1.has_channel {
                    self.rooms[i].1.has_channel = true;
                }
                Some(())
            },
        }
    }

    /// Join an online user to a room. The user is recorded even when
    /// the room's feed was never opened, exactly as the sequential
    /// state machine says; with an open feed the caller receives the
    /// join event to put on it, and the room's member listing.
    pub fn connect_to_hangout(&mut self, name: &str, user_id: &str) -> (r: Option<
        (Message, Vec<UserInfo>),
    >)
        ensures
            final(self).online == old(self).online,
            ({
                let uidx = user_index(old(self).online@, user_id@);
                let ridx = room_index(old(self).rooms@, name@);
                if uidx == -1 || ridx == -1 {
                    r is None && *final(self) == *old(self)
                } else {
                    let joined = final(self).rooms@[ridx].1.users@.last();
                    &&& final(self).rooms@.len() == old(self).rooms@.len()
                    &&& forall|t: int|
                        0 <= t < old(self).rooms@.len() && t != ridx
                            ==> final(self).rooms@[t] == old(self).rooms@[t]
                    &&& final(self).rooms@[ridx].0 == old(self).rooms@[ridx].0
                    &&& final(self).rooms@[ridx].1.history == old(self).rooms@[ridx].1.history
                    &&& final(self).rooms@[ridx].1.has_channel
                        == old(self).rooms@[ridx].1.has_channel
                    &&& final(self).rooms@[ridx].1.users@
                        == old(self).rooms@[ridx].1.users@.push(joined)
                    &&& joined.id@ == old(self).online@[uidx].id@
                    &&& joined.handle@ == old(self).online@[uidx].handle@
                    &&& (!old(self).rooms@[ridx].1.has_channel ==> r is None)
                    &&& (old(self).rooms@[ridx].1.has_channel ==> (r matches Some((m, infos))
                        && m matches Message::UserJoin(uid) && uid@ == user_id@
                        && infos.deep_view() == user_infos(final(self).rooms@[ridx].1.users@)))
                }
            }),
    {
        let user_id_s = <String as StringExecFns>::from_str(user_id);
        let name_s = <String as StringExecFns>::from_str(name);
        let uidx = match find_user(&self.online, &user_id_s) {
            None => {
                return None;
            },
            Some(u) => u,
        };
        let ridx = match find_room(&self.rooms, &name_s) {
            None => {
                return None;
            },
            Some(i) => i,
        };
        let joined = User {
            id: self.online[uidx].id.clone(),
            handle: self.online[uidx].handle.clone(),
        };
        self.rooms[ridx].1.users.push(joined);
        if !self.rooms[ridx].1.has_channel {
            return None;
        }
        let mut infos: Vec<UserInfo> = Vec::new();
        let mut i: usize = 0;
        while i < self.rooms[ridx].1.users.len()
            invariant
                ridx < self.rooms@.len(),
                0 <= i <= self.rooms@[ridx as int].1.users@.len(),
                infos@.len() == i,
                forall|t: int| 0 <= t < i ==> #[trigger] infos.deep_view()[t] == (
                    self.rooms@[ridx as int].1.users@[t].id@,
                    self.rooms@[ridx as int].1.users@[t].handle@),
            decreases self.rooms@[ridx as int].1.users@.len() - i,
        {
            let ghost prev = infos.deep_view();
            infos.push(
                (self.rooms[ridx].1.users[i].id.clone(), self.rooms[ridx].1.users[i].handle.clone()),
            );
            proof {
                assert(infos.deep_view() =~~= prev.push(
                    (
                        self.rooms@[ridx as int].1.users@[i as int].id@,
                        self.rooms@[ridx as int].1.users@[i as int].handle@,
                    ),
                ));
            }
            i = i + 1;
        }
        proof {
            assert(infos.deep_view() =~= user_infos(self.rooms@[ridx as int].1.users@));
        }
        Some((Message::UserJoin(user_id_s), infos))
    }

    /// Say something in a room whose feed is open: the caller receives
    /// the chat event to put on the feed. A room that exists but never
    /// opened its feed swallows the message; a room that does not
    /// exist at all is outside this function's contract.
    pub fn broadcast_to_hangout(&self, name: &str, msg: &str) -> (r: Option<Message>)
        requires
            room_index(self.rooms@, name@) >= 0,
        ensures
            ({
                let idx = room_index(self.rooms@, name@);
                if self.rooms@[idx].1.has_channel {
                    r matches Some(m) && m matches Message::ChatMessage(t) && t@ == msg@
                } else {
                    r is None
                }
            }),
    {
        let name_s = <String as StringExecFns>::from_str(name);
        let idx = match find_room(&self.rooms, &name_s) {
            None => {
                return None;
            },
            Some(i) => i,
        };
        if !self.rooms[idx].1.has_channel {
            return None;
        }
        Some(Message::ChatMessage(<String as StringExecFns>::from_str(msg)))
    }
}

} // verus!
