//! The relay's room registry, fan-out and session lifecycle.
//!
//! The relay never sees a chat code or a key: it keys rooms by the opaque
//! room id and forwards opaque ciphertext.  A room admits a new participant
//! only below its kind's cap; fan-out of a message reaches every
//! participant, the sender included, and the sender's acknowledgement is
//! emitted before the fan-out of that message.

use vstd::prelude::*;
use crate::messages::{ChatType, ClientMessage, ClientMessageView, ServerMessage, ServerMessageView};
use crate::primitives::fill_random_bytes;
use crate::text::hex_chars;

verus! {

/// A version-4-style random identifier: 16 random bytes, rendered as hex
/// groups for the participant handle.
pub struct Uuid {
    bytes: Vec<u8>,
}

impl Uuid {
    /// The identifier's bytes.
    pub closed spec fn spec_bytes(&self) -> Seq<u8> {
        self.bytes@
    }

    /// Draws a fresh random identifier.
    pub fn new_v4() -> (r: Uuid)
        ensures
            r.spec_bytes().len() == 16,
    {
        Uuid { bytes: fill_random_bytes(16) }
    }

    /// The hex rendering of the identifier's first 8 bytes, grouped
    /// 4-2-2 with dashes.
    pub open spec fn spec_hex(b: Seq<u8>) -> Seq<char> {
        hex_chars(b.subrange(0, 4)) + seq!['-'] + hex_chars(b.subrange(4, 6)) + seq!['-']
            + hex_chars(b.subrange(6, 8))
    }

    /// Renders the identifier as grouped hex.
    pub fn to_hex_groups(&self) -> (r: String)
        requires
            self.spec_bytes().len() >= 8,
        ensures
            r@ == Uuid::spec_hex(self.spec_bytes()),
    {
        proof {
            reveal_strlit("-");
        }
        let g1 = vstd::slice::slice_subrange(self.bytes.as_slice(), 0, 4);
        let g2 = vstd::slice::slice_subrange(self.bytes.as_slice(), 4, 6);
        let g3 = vstd::slice::slice_subrange(self.bytes.as_slice(), 6, 8);
        let mut s = crate::text::bytes_to_hex_string(g1);
        s.append("-");
        let h2 = crate::text::bytes_to_hex_string(g2);
        s.append(h2.as_str());
        s.append("-");
        let h3 = crate::text::bytes_to_hex_string(g3);
        s.append(h3.as_str());
        proof {
            assert(s@ =~= Uuid::spec_hex(self.spec_bytes()));
        }
        s
    }
}

/// The participant handle a joiner is assigned: the username, an
/// underscore, and a fresh random identifier in hex.
pub fn make_client_id(username: &str, uuid: &Uuid) -> (r: String)
    requires
        uuid.spec_bytes().len() >= 8,
    ensures
        r@ == username@ + seq!['_'] + Uuid::spec_hex(uuid.spec_bytes()),
{
    proof {
        reveal_strlit("_");
    }
    let mut s = String::from_str(username);
    s.append("_");
    let hex = uuid.to_hex_groups();
    s.append(hex.as_str());
    proof {
        assert(s@ =~= username@ + seq!['_'] + Uuid::spec_hex(uuid.spec_bytes()));
    }
    s
}

/// A chat room: its kind and the joined participants, each a pair of the
/// relay-internal handle and the username, in join order.
pub struct ChatRoom {
    pub chat_type: ChatType,
    pub participants: Vec<(String, String)>,
}

/// One planned delivery: a message for one participant's channel, or for
/// the requesting connection itself when `client_id` is `None`.
pub struct Delivery {
    pub client_id: Option<String>,
    pub message: ServerMessage,
}

/// The fan-out of one message over a participant list, skipping at most
/// one excluded handle, in list order.
pub open spec fn spec_fanout(
    parts: Seq<(String, String)>,
    exclude: Option<Seq<char>>,
    m: ServerMessageView,
) -> Seq<(Seq<char>, ServerMessageView)>
    decreases parts.len(),
{
    if parts.len() == 0 {
        Seq::empty()
    } else {
        let rest = spec_fanout(parts.drop_last(), exclude, m);
        if exclude matches Some(e) && parts.last().0@ == e {
            rest
        } else {
            rest.push((parts.last().0@, m))
        }
    }
}

/// The view of an optional excluded handle.
pub open spec fn spec_opt_str_view(o: Option<&str>) -> Option<Seq<char>> {
    match o {
        Some(e) => Some(e@),
        None => None,
    }
}

/// The deliveries as (handle view, message view) pairs.
pub open spec fn spec_deliveries_view(d: Seq<Delivery>) -> Seq<(Seq<char>, ServerMessageView)> {
    d.map_values(
        |x: Delivery|
            (
                match x.client_id {
                    Some(c) => c@,
                    None => Seq::empty(),
                },
                x.message@,
            ),
    )
}

impl ChatRoom {
    /// Well-formedness: handles are distinct and the room respects its cap.
    pub open spec fn wf(&self) -> bool {
        &&& (forall|i: int, j: int|
            0 <= i < j < self.participants@.len() ==> self.participants@[i].0@
                != self.participants@[j].0@)
        &&& self.participants@.len() <= self.chat_type.spec_cap()
    }

    /// Whether a handle is present.
    pub open spec fn spec_has(&self, client_id: Seq<char>) -> bool {
        exists|i: int|
            0 <= i < self.participants@.len() && self.participants@[i].0@ == client_id
    }

    /// An empty room of the given kind.
    pub fn new(chat_type: ChatType) -> (r: ChatRoom)
        ensures
            r.wf(),
            r.chat_type == chat_type,
            r.participants@.len() == 0,
    {
        ChatRoom { chat_type, participants: Vec::new() }
    }

    /// A room admits a joiner only below its kind's cap.
    pub fn can_join(&self) -> (r: bool)
        ensures
            r == (self.participants@.len() < self.chat_type.spec_cap()),
    {
        let cap = self.chat_type.cap();
        self.participants.len() < cap
    }

    /// The position of a handle, scanning from the front.
    fn find_participant(&self, client_id: &str) -> (r: Option<usize>)
        ensures
            r matches Some(i) ==> i < self.participants@.len()
                && self.participants@[i as int].0@ == client_id@,
            r is None ==> !self.spec_has(client_id@),
    {
        let mut i: usize = 0;
        while i < self.participants.len()
            invariant
                i <= self.participants@.len(),
                forall|j: int| 0 <= j < i ==> self.participants@[j].0@ != client_id@,
            decreases self.participants@.len() - i,
        {
            let p = &self.participants[i];
            if crate::text::str_eq(p.0.as_str(), client_id) {
                return Some(i);
            }
            i = i + 1;
        }
        None
    }

    /// Whether a handle is present.
    pub fn has_participant(&self, client_id: &str) -> (r: bool)
        ensures
            r == self.spec_has(client_id@),
    {
        match self.find_participant(client_id) {
            Some(_) => true,
            None => false,
        }
    }

    /// Adds a fresh participant; the caller has checked the cap and the
    /// freshness of the handle.
    pub fn add_participant(&mut self, client_id: String, username: String)
        requires
            old(self).wf(),
            !old(self).spec_has(client_id@),
            old(self).participants@.len() < old(self).chat_type.spec_cap(),
        ensures
            final(self).wf(),
            final(self).chat_type == old(self).chat_type,
            final(self).participants@ == old(self).participants@.push((client_id, username)),
    {
        self.participants.push((client_id, username));
    }

    /// Removes a handle and returns its username; an absent handle leaves
    /// the room unchanged.
    pub fn remove_participant(&mut self, client_id: &str) -> (r: Option<String>)
        requires
            old(self).wf(),
        ensures
            final(self).wf(),
            final(self).chat_type == old(self).chat_type,
            r matches Some(u) ==> old(self).spec_has(client_id@) && (exists|i: int|
                0 <= i < old(self).participants@.len() && old(self).participants@[i].0@
                    == client_id@ && u@ == old(self).participants@[i].1@
                    && final(self).participants@ == old(self).participants@.remove(i)),
            r is None ==> !old(self).spec_has(client_id@) && *final(self) == *old(self),
    {
        match self.find_participant(client_id) {
            Some(i) => {
                let (_, username) = self.participants.remove(i);
                proof {
                    assert forall|a: int, b: int|
                        0 <= a < b < self.participants@.len() implies self.participants@[a].0@
                        != self.participants@[b].0@ by {
                        let o = old(self).participants@;
                        if a < i {
                            assert(self.participants@[a] == o[a]);
                        } else {
                            assert(self.participants@[a] == o[a + 1]);
                        }
                        if b < i {
                            assert(self.participants@[b] == o[b]);
                        } else {
                            assert(self.participants@[b] == o[b + 1]);
                        }
                    }
                }
                Some(username)
            },
            None => None,
        }
    }

    /// The username of a handle.
    pub fn get_username(&self, client_id: &str) -> (r: Option<String>)
        ensures
            r matches Some(u) ==> exists|i: int|
                0 <= i < self.participants@.len() && self.participants@[i].0@ == client_id@ && u@
                    == self.participants@[i].1@,
            r is None ==> !self.spec_has(client_id@),
    {
        match self.find_participant(client_id) {
            Some(i) => Some(self.participants[i].1.clone()),
            None => None,
        }
    }

    /// Plans one delivery of the message to every participant, in join
    /// order, skipping the excluded handle if any.
    pub fn broadcast(&self, msg: &ServerMessage, exclude_client: Option<&str>) -> (r: Vec<
        Delivery,
    >)
        ensures
            spec_deliveries_view(r@) == spec_fanout(
                self.participants@,
                spec_opt_str_view(exclude_client),
                msg@,
            ),
            forall|k: int| 0 <= k < r@.len() ==> r@[k].client_id is Some,
    {
        let ghost excl: Option<Seq<char>> = spec_opt_str_view(exclude_client);
        let mut out: Vec<Delivery> = Vec::new();
        let mut i: usize = 0;
        while i < self.participants.len()
            invariant
                excl == spec_opt_str_view(exclude_client),
                i <= self.participants@.len(),
                spec_deliveries_view(out@) == spec_fanout(
                    self.participants@.subrange(0, i as int),
                    excl,
                    msg@,
                ),
                forall|k: int| 0 <= k < out@.len() ==> out@[k].client_id is Some,
            decreases self.participants@.len() - i,
        {
            let ghost prefix = self.participants@.subrange(0, i as int);
            let ghost out_before = out@;
            let p = &self.participants[i];
            let skip = match exclude_client {
                Some(e) => crate::text::str_eq(p.0.as_str(), e),
                None => false,
            };
            proof {
                assert(skip == (excl matches Some(e) && self.participants@[i as int].0@ == e));
            }
            if !skip {
                out.push(Delivery { client_id: Some(p.0.clone()), message: msg.clone() });
            }
            proof {
                let next = self.participants@.subrange(0, i + 1 as int);
                assert(next.drop_last() =~= prefix);
                assert(next.last() == self.participants@[i as int]);
                let lhs = spec_deliveries_view(out@);
                let rhs = spec_fanout(next, excl, msg@);
                let base = spec_fanout(prefix, excl, msg@);
                if skip {
                    assert(out@ == out_before);
                    assert(excl matches Some(e) && next.last().0@ == e);
                    assert(rhs == base);
                } else {
                    assert(rhs == base.push((next.last().0@, msg@)));
                    let d = out@[out_before.len() as int];
                    assert(out@ == out_before.push(d));
                    assert(lhs.len() == out_before.len() + 1);
                    assert(rhs.len() == base.len() + 1);
                    assert(base.len() == out_before.len());
                    assert(lhs[out_before.len() as int] == (next.last().0@, msg@));
                    assert forall|k: int| 0 <= k < lhs.len() implies lhs[k] == rhs[k] by {
                        if k < out_before.len() {
                            assert(out@[k] == out_before[k]);
                            assert(lhs[k] == spec_deliveries_view(out_before)[k]);
                            assert(rhs[k] == base[k]);
                        }
                    }
                    assert(lhs =~= rhs);
                }
            }
            i = i + 1;
        }
        proof {
            assert(self.participants@.subrange(0, self.participants@.len() as int)
                =~= self.participants@);
        }
        out
    }
}

} // verus!

verus! {

/// The relay's global state: the rooms, keyed by room id, in creation
/// order.
pub struct ChatState {
    pub rooms: Vec<(String, ChatRoom)>,
}

impl ChatState {
    /// Well-formedness: room ids are distinct and every room is
    /// well-formed (so no room ever exceeds its cap).
    pub open spec fn wf(&self) -> bool {
        &&& (forall|i: int, j: int|
            0 <= i < j < self.rooms@.len() ==> self.rooms@[i].0@ != self.rooms@[j].0@)
        &&& (forall|i: int| 0 <= i < self.rooms@.len() ==> (#[trigger] self.rooms@[i]).1.wf())
    }

    /// Whether a room id is registered.
    pub open spec fn spec_has_room(&self, room_id: Seq<char>) -> bool {
        exists|i: int| 0 <= i < self.rooms@.len() && self.rooms@[i].0@ == room_id
    }

    /// Whether a registered room is at its cap.
    pub open spec fn spec_room_full(&self, room_id: Seq<char>) -> bool {
        exists|i: int|
            0 <= i < self.rooms@.len() && self.rooms@[i].0@ == room_id && self.rooms@[i].1
                .participants@.len() >= self.rooms@[i].1.chat_type.spec_cap()
    }

    /// Whether the room under `room_id` holds the participant handle.
    pub open spec fn spec_member(&self, room_id: Seq<char>, client_id: Seq<char>) -> bool {
        exists|i: int|
            0 <= i < self.rooms@.len() && self.rooms@[i].0@ == room_id && self.rooms@[i].1.spec_has(
                client_id,
            )
    }

    /// An empty registry.
    pub fn new() -> (r: ChatState)
        ensures
            r.wf(),
            r.rooms@.len() == 0,
    {
        ChatState { rooms: Vec::new() }
    }

    /// The position of a room id.
    fn find_room(&self, room_id: &str) -> (r: Option<usize>)
        ensures
            r matches Some(i) ==> i < self.rooms@.len() && self.rooms@[i as int].0@ == room_id@,
            r is None ==> !self.spec_has_room(room_id@),
    {
        let mut i: usize = 0;
        while i < self.rooms.len()
            invariant
                i <= self.rooms@.len(),
                forall|j: int| 0 <= j < i ==> self.rooms@[j].0@ != room_id@,
            decreases self.rooms@.len() - i,
        {
            let p = &self.rooms[i];
            if crate::text::str_eq(p.0.as_str(), room_id) {
                return Some(i);
            }
            i = i + 1;
        }
        None
    }

    /// Registers an empty room under a room id.  A room is created only on
    /// the first create for its id: an existing room and its participants
    /// are left untouched, whatever kind the repeat asks for.
    pub fn create_chat(&mut self, room_id: String, chat_type: ChatType)
        requires
            old(self).wf(),
        ensures
            final(self).wf(),
            final(self).spec_has_room(room_id@),
            old(self).spec_has_room(room_id@) ==> final(self).rooms@ == old(self).rooms@,
            !old(self).spec_has_room(room_id@) ==> final(self).rooms@ == old(self).rooms@.push(
                final(self).rooms@[old(self).rooms@.len() as int],
            ) && final(self).rooms@.last().0@ == room_id@ && final(self).rooms@.last().1.chat_type
                == chat_type && final(self).rooms@.last().1.participants@.len() == 0,
    {
        match self.find_room(room_id.as_str()) {
            Some(_) => {},
            None => {
                let room = ChatRoom::new(chat_type);
                self.rooms.push((room_id, room));
            },
        }
    }

    /// Admits the handle `client_id` to a room, enforcing the cap and the
    /// uniqueness of handles.  The outcome is an exact function of the
    /// state: an unknown room id is "Chat not found", a room at its cap or
    /// already holding the handle is "Chat is full", and anything else is
    /// owed success, with exactly this participant appended and every other
    /// room untouched.
    pub fn join_chat_with_id(&mut self, room_id: &str, username: String, client_id: String) -> (r:
        Result<(ChatType, usize), String>)
        requires
            old(self).wf(),
        ensures
            final(self).wf(),
            r is Ok <==> old(self).spec_has_room(room_id@) && !old(self).spec_room_full(room_id@)
                && !old(self).spec_member(room_id@, client_id@),
            r matches Err(e) ==> final(self).rooms@ == old(self).rooms@ && (e@ == "Chat not found"@
                || e@ == "Chat is full"@) && (e@ == "Chat not found"@ <==> !old(self).spec_has_room(
                room_id@,
            )),
            r matches Ok((ct, count)) ==> exists|i: int|
                #![auto]
                0 <= i < old(self).rooms@.len() && old(self).rooms@[i].0@ == room_id@ && old(self).rooms@[i].1.participants@.len() < old(self).rooms@[i].1.chat_type.spec_cap() && ct
                    == old(self).rooms@[i].1.chat_type && count as int == old(self).rooms@[i].1.participants@.len() + 1 && count as int <= ct.spec_cap() && final(self).rooms@ == old(self).rooms@.update(i, final(self).rooms@[i]) && final(self).rooms@[i].0@ == room_id@ && final(self).rooms@[i].1.chat_type == ct && final(self).rooms@[i].1.participants@ == old(self).rooms@[i].1.participants@.push(
                    (client_id, username),
                ),
    {
        let i = match self.find_room(room_id) {
            Some(i) => i,
            None => {
                return Err(String::from_str("Chat not found"));
            },
        };
        proof {
            assert forall|j: int|
                0 <= j < self.rooms@.len() && self.rooms@[j].0@ == room_id@ implies j == i as int
            by {
                if j != i as int {
                    assert(self.rooms@[j].0@ != self.rooms@[i as int].0@);
                }
            }
        }
        let (key, mut room) = self.rooms.remove(i);
        if !room.can_join() {
            self.rooms.insert(i, (key, room));
            proof {
                reveal_strlit("Chat not found");
                reveal_strlit("Chat is full");
                assert(("Chat is full"@).len() != ("Chat not found"@).len());
                assert(self.rooms@ =~= old(self).rooms@);
            }
            return Err(String::from_str("Chat is full"));
        }
        if room.has_participant(client_id.as_str()) {
            self.rooms.insert(i, (key, room));
            proof {
                reveal_strlit("Chat not found");
                reveal_strlit("Chat is full");
                assert(("Chat is full"@).len() != ("Chat not found"@).len());
                assert(self.rooms@ =~= old(self).rooms@);
            }
            return Err(String::from_str("Chat is full"));
        }
        let chat_type = room.chat_type;
        room.add_participant(client_id, username);
        let count = room.participants.len();
        self.rooms.insert(i, (key, room));
        proof {
            assert(self.rooms@ =~= old(self).rooms@.update(i as int, self.rooms@[i as int]));
            assert forall|a: int, b: int|
                0 <= a < b < self.rooms@.len() implies self.rooms@[a].0@ != self.rooms@[b].0@ by {
                if a != i && b != i {
                    assert(self.rooms@[a] == old(self).rooms@[a]);
                    assert(self.rooms@[b] == old(self).rooms@[b]);
                }
            }
        }
        Ok((chat_type, count))
    }

    /// Admits a participant to a room under a freshly drawn handle and
    /// returns the room kind, the new count and the handle.  Success is
    /// owed whenever the room exists below its cap, except in the
    /// vanishing case that the drawn handle collides with a present one:
    /// "Chat is full" carries evidence that the room was at its cap or
    /// already held a handle of the drawn shape.
    pub fn join_chat(&mut self, room_id: &str, username: String) -> (r: Result<
        (ChatType, usize, String),
        String,
    >)
        requires
            old(self).wf(),
        ensures
            final(self).wf(),
            r matches Err(e) ==> final(self).rooms@ == old(self).rooms@ && (e@ == "Chat not found"@
                || e@ == "Chat is full"@) && (e@ == "Chat not found"@ <==> !old(self).spec_has_room(
                room_id@,
            )),
            r matches Err(e) && e@ == "Chat is full"@ ==> old(self).spec_room_full(room_id@) || (
            exists|b: Seq<u8>|
                b.len() == 16 && old(self).spec_member(
                    room_id@,
                    username@ + seq!['_'] + Uuid::spec_hex(b),
                )),
            r matches Ok((ct, count, cid)) ==> (exists|b: Seq<u8>|
                b.len() == 16 && cid@ == username@ + seq!['_'] + Uuid::spec_hex(b)) && exists|
                i: int,
            |
                #![auto]
                0 <= i < old(self).rooms@.len() && old(self).rooms@[i].0@ == room_id@ && old(self).rooms@[i].1.participants@.len() < old(self).rooms@[i].1.chat_type.spec_cap() && ct
                    == old(self).rooms@[i].1.chat_type && count as int == old(self).rooms@[i].1.participants@.len() + 1 && count as int <= ct.spec_cap() && final(self).rooms@ == old(self).rooms@.update(i, final(self).rooms@[i]) && final(self).rooms@[i].0@ == room_id@ && final(self).rooms@[i].1.chat_type == ct && final(self).rooms@[i].1.participants@ == old(self).rooms@[i].1.participants@.push(
                    (cid, username),
                ),
    {
        let uuid = Uuid::new_v4();
        let client_id = make_client_id(username.as_str(), &uuid);
        let ghost drawn = uuid.spec_bytes();
        match self.join_chat_with_id(room_id, username, client_id.clone()) {
            Ok((chat_type, count)) => Ok((chat_type, count, client_id)),
            Err(e) => {
                proof {
                    reveal_strlit("Chat not found");
                    reveal_strlit("Chat is full");
                    assert(("Chat is full"@).len() != ("Chat not found"@).len());
                    if e@ == "Chat is full"@ && !old(self).spec_room_full(room_id@) {
                        assert(old(self).spec_member(room_id@, client_id@));
                        assert(drawn.len() == 16 && client_id@ == username@ + seq!['_']
                            + Uuid::spec_hex(drawn));
                    }
                }
                Err(e)
            },
        }
    }

    /// The username of a participant handle in a room: the name exactly
    /// when the room exists and holds the handle, nothing otherwise.
    pub fn get_username(&self, room_id: &str, client_id: &str) -> (r: Option<String>)
        requires
            self.wf(),
        ensures
            r matches Some(u) ==> exists|i: int, k: int|
                #![auto]
                0 <= i < self.rooms@.len() && self.rooms@[i].0@ == room_id@ && 0 <= k
                    < self.rooms@[i].1.participants@.len() && self.rooms@[i].1.participants@[k].0@
                    == client_id@ && u@ == self.rooms@[i].1.participants@[k].1@,
            r is Some <==> self.spec_member(room_id@, client_id@),
    {
        match self.find_room(room_id) {
            Some(i) => {
                let r = self.rooms[i].1.get_username(client_id);
                proof {
                    if r is None {
                        assert forall|j: int|
                            0 <= j < self.rooms@.len() && self.rooms@[j].0@ == room_id@ implies !(
                            #[trigger] self.rooms@[j]).1.spec_has(client_id@) by {
                            if j != i as int {
                                assert(self.rooms@[j].0@ != self.rooms@[i as int].0@);
                            }
                        }
                    }
                }
                r
            },
            None => None,
        }
    }

    /// The exact eviction of the participant at position `k` of the room
    /// at position `i`: that participant alone is removed, every other
    /// room is untouched, and a room left empty is destroyed.
    pub open spec fn spec_eviction(
        pre: ChatState,
        post: ChatState,
        room_id: Seq<char>,
        client_id: Seq<char>,
        i: int,
        k: int,
    ) -> bool {
        &&& 0 <= i < pre.rooms@.len()
        &&& pre.rooms@[i].0@ == room_id
        &&& 0 <= k < pre.rooms@[i].1.participants@.len()
        &&& pre.rooms@[i].1.participants@[k].0@ == client_id
        &&& (pre.rooms@[i].1.participants@.len() > 1 ==> post.rooms@ == pre.rooms@.update(
            i,
            post.rooms@[i],
        ) && post.rooms@[i].0@ == room_id && post.rooms@[i].1.chat_type
            == pre.rooms@[i].1.chat_type && post.rooms@[i].1.participants@
            == pre.rooms@[i].1.participants@.remove(k))
        &&& (pre.rooms@[i].1.participants@.len() == 1 ==> post.rooms@ == pre.rooms@.remove(i))
    }

    /// Evicts a participant handle from a room and returns its username:
    /// exactly when the room exists and holds the handle, exactly that
    /// participant is removed, every other room is untouched, and a room
    /// left empty is destroyed.
    pub fn leave_chat(&mut self, room_id: &str, client_id: &str) -> (r: Option<String>)
        requires
            old(self).wf(),
        ensures
            final(self).wf(),
            r is Some <==> old(self).spec_member(room_id@, client_id@),
            r is None ==> final(self).rooms@ == old(self).rooms@,
            r matches Some(u) ==> exists|i: int, k: int|
                #![auto]
                ChatState::spec_eviction(*old(self), *final(self), room_id@, client_id@, i, k)
                    && u@ == old(self).rooms@[i].1.participants@[k].1@,
    {
        let i = match self.find_room(room_id) {
            Some(i) => i,
            None => {
                return None;
            },
        };
        let (key, mut room) = self.rooms.remove(i);
        let ghost pre_room = old(self).rooms@[i as int].1;
        let removed = room.remove_participant(client_id);
        let ghost post_room = room;
        match removed {
            Some(u) => {
                if room.participants.len() > 0 {
                    self.rooms.insert(i, (key, room));
                    proof {
                        assert(self.rooms@ =~= old(self).rooms@.update(
                            i as int,
                            self.rooms@[i as int],
                        ));
                        assert forall|a: int, b: int|
                            0 <= a < b < self.rooms@.len() implies self.rooms@[a].0@
                            != self.rooms@[b].0@ by {
                            if a != i && b != i {
                                assert(self.rooms@[a] == old(self).rooms@[a]);
                                assert(self.rooms@[b] == old(self).rooms@[b]);
                            }
                        }
                    }
                } else {
                    proof {
                        assert(self.rooms@ =~= old(self).rooms@.remove(i as int));
                        assert forall|a: int, b: int|
                            0 <= a < b < self.rooms@.len() implies self.rooms@[a].0@
                            != self.rooms@[b].0@ by {
                            let o = old(self).rooms@;
                            if a < i {
                                assert(self.rooms@[a] == o[a]);
                            } else {
                                assert(self.rooms@[a] == o[a + 1]);
                            }
                            if b < i {
                                assert(self.rooms@[b] == o[b]);
                            } else {
                                assert(self.rooms@[b] == o[b + 1]);
                            }
                        }
                    }
                }
                proof {
                    let k = choose|k: int|
                        0 <= k < pre_room.participants@.len() && pre_room.participants@[k].0@
                            == client_id@ && u@ == pre_room.participants@[k].1@
                            && post_room.participants@ == pre_room.participants@.remove(k);
                    assert(ChatState::spec_eviction(
                        *old(self),
                        *self,
                        room_id@,
                        client_id@,
                        i as int,
                        k,
                    ));
                }
                Some(u)
            },
            None => {
                self.rooms.insert(i, (key, room));
                proof {
                    assert(self.rooms@ =~= old(self).rooms@);
                    assert forall|j: int|
                        0 <= j < old(self).rooms@.len() && old(self).rooms@[j].0@ == room_id@
                        implies !(#[trigger] old(self).rooms@[j]).1.spec_has(client_id@) by {
                        if j != i as int {
                            assert(old(self).rooms@[j].0@ != old(self).rooms@[i as int].0@);
                        }
                    }
                }
                None
            },
        }
    }

    /// Plans the fan-out of a ciphertext to every participant of a room,
    /// the sender included; an unknown room fans out to nobody.
    pub fn broadcast_message(
        &self,
        room_id: &str,
        encrypted_payload: Vec<u8>,
        message_id: &str,
        timestamp: i64,
    ) -> (r: Vec<Delivery>)
        ensures
            forall|k: int| 0 <= k < r@.len() ==> (#[trigger] r@[k]).client_id is Some,
            !self.spec_has_room(room_id@) ==> r@.len() == 0,
            self.spec_has_room(room_id@) ==> exists|i: int|
                #![auto]
                0 <= i < self.rooms@.len() && self.rooms@[i].0@ == room_id@ && spec_deliveries_view(
                    r@,
                ) == spec_fanout(
                    self.rooms@[i].1.participants@,
                    None,
                    ServerMessageView::MessageReceived {
                        room_id: room_id@,
                        encrypted_payload: encrypted_payload@,
                        timestamp: timestamp,
                        message_id: message_id@,
                    },
                ),
    {
        match self.find_room(room_id) {
            Some(i) => {
                let msg = ServerMessage::MessageReceived {
                    room_id: String::from_str(room_id),
                    encrypted_payload,
                    timestamp,
                    message_id: String::from_str(message_id),
                };
                self.rooms[i].1.broadcast(&msg, None)
            },
            None => Vec::new(),
        }
    }

    /// Plans the fan-out of a join or leave notice to a room, excluding
    /// the participant the notice is about.
    pub fn broadcast_user_event(
        &self,
        room_id: &str,
        username: String,
        joined: bool,
        exclude_client: Option<&str>,
    ) -> (r: Vec<Delivery>)
        ensures
            forall|k: int| 0 <= k < r@.len() ==> (#[trigger] r@[k]).client_id is Some,
            !self.spec_has_room(room_id@) ==> r@.len() == 0,
            self.spec_has_room(room_id@) ==> exists|i: int|
                #![auto]
                0 <= i < self.rooms@.len() && self.rooms@[i].0@ == room_id@ && spec_deliveries_view(
                    r@,
                ) == spec_fanout(
                    self.rooms@[i].1.participants@,
                    spec_opt_str_view(exclude_client),
                    if joined {
                        ServerMessageView::UserJoined { room_id: room_id@, username: username@ }
                    } else {
                        ServerMessageView::UserLeft { room_id: room_id@, username: username@ }
                    },
                ),
    {
        match self.find_room(room_id) {
            Some(i) => {
                let msg = if joined {
                    ServerMessage::UserJoined {
                        room_id: String::from_str(room_id),
                        username,
                    }
                } else {
                    ServerMessage::UserLeft {
                        room_id: String::from_str(room_id),
                        username,
                    }
                };
                self.rooms[i].1.broadcast(&msg, exclude_client)
            },
            None => Vec::new(),
        }
    }
}

} // verus!

verus! {

/// One connection's relay-side session: the room and handle it currently
/// occupies, if any.
pub struct Session {
    pub current: Option<(String, String)>,
}

impl Session {
    /// A session that has joined nothing yet.
    pub fn new() -> (r: Session)
        ensures
            r.current is None,
    {
        Session { current: None }
    }
}

/// Two registered rooms with the same id are the same room.
proof fn lemma_room_index_unique(s: ChatState, room_id: Seq<char>, i: int, j: int)
    requires
        s.wf(),
        0 <= i < s.rooms@.len(),
        0 <= j < s.rooms@.len(),
        s.rooms@[i].0@ == room_id,
        s.rooms@[j].0@ == room_id,
    ensures
        i == j,
{
    if i < j {
        assert(s.rooms@[i].0@ != s.rooms@[j].0@);
    } else if j < i {
        assert(s.rooms@[j].0@ != s.rooms@[i].0@);
    }
}

/// Two participants of a well-formed room with the same handle are the
/// same participant.
proof fn lemma_participant_index_unique(room: ChatRoom, client_id: Seq<char>, i: int, j: int)
    requires
        room.wf(),
        0 <= i < room.participants@.len(),
        0 <= j < room.participants@.len(),
        room.participants@[i].0@ == client_id,
        room.participants@[j].0@ == client_id,
    ensures
        i == j,
{
    if i < j {
        assert(room.participants@[i].0@ != room.participants@[j].0@);
    } else if j < i {
        assert(room.participants@[j].0@ != room.participants@[i].0@);
    }
}

/// What one departure does, seen from before it: when the room holds the
/// handle, the `UserLeft` notice fans out over the participant list as it
/// stood before the eviction (the notice is broadcast first), excluding
/// the leaver, and exactly that participant is then removed — the room
/// destroyed if it empties; otherwise nothing is delivered and nothing
/// changes.
pub open spec fn spec_leave_effect(
    pre: ChatState,
    post: ChatState,
    out: Seq<Delivery>,
    room_id: Seq<char>,
    client_id: Seq<char>,
) -> bool {
    &&& (!pre.spec_member(room_id, client_id) ==> out.len() == 0 && post.rooms@ == pre.rooms@)
    &&& (pre.spec_member(room_id, client_id) ==> exists|i: int, k: int|
        #![auto]
        ChatState::spec_eviction(pre, post, room_id, client_id, i, k) && spec_deliveries_view(out)
            == spec_fanout(
            pre.rooms@[i].1.participants@,
            Some(client_id),
            ServerMessageView::UserLeft {
                room_id,
                username: pre.rooms@[i].1.participants@[k].1@,
            },
        ))
}

/// Broadcasts the departure notice over the room as it stands, then
/// evicts the participant, exactly as `spec_leave_effect` states.
fn leave_and_notify(state: &mut ChatState, room_id: &str, client_id: &str) -> (r: Vec<Delivery>)
    requires
        old(state).wf(),
    ensures
        final(state).wf(),
        spec_leave_effect(*old(state), *final(state), r@, room_id@, client_id@),
{
    match state.get_username(room_id, client_id) {
        Some(username) => {
            let ghost uname = username@;
            let out = state.broadcast_user_event(room_id, username, false, Some(client_id));
            let removed = state.leave_chat(room_id, client_id);
            proof {
                let pre = *old(state);
                let (gi, gk) = choose|gi: int, gk: int|
                    #![auto]
                    0 <= gi < pre.rooms@.len() && pre.rooms@[gi].0@ == room_id@ && 0 <= gk
                        < pre.rooms@[gi].1.participants@.len()
                        && pre.rooms@[gi].1.participants@[gk].0@ == client_id@ && uname
                        == pre.rooms@[gi].1.participants@[gk].1@;
                match removed {
                    Some(u2) => {
                        let (li, lk) = choose|li: int, lk: int|
                            #![auto]
                            ChatState::spec_eviction(pre, *state, room_id@, client_id@, li, lk)
                                && u2@ == pre.rooms@[li].1.participants@[lk].1@;
                        lemma_room_index_unique(pre, room_id@, gi, li);
                        lemma_participant_index_unique(pre.rooms@[gi].1, client_id@, gk, lk);
                        let bi = choose|bi: int|
                            #![auto]
                            0 <= bi < pre.rooms@.len() && pre.rooms@[bi].0@ == room_id@
                                && spec_deliveries_view(out@) == spec_fanout(
                                pre.rooms@[bi].1.participants@,
                                Some(client_id@),
                                ServerMessageView::UserLeft { room_id: room_id@, username: uname },
                            );
                        lemma_room_index_unique(pre, room_id@, gi, bi);
                        assert(ChatState::spec_eviction(pre, *state, room_id@, client_id@, gi, gk));
                        assert(spec_leave_effect(pre, *state, out@, room_id@, client_id@));
                    },
                    None => {
                        assert(false);
                    },
                }
            }
            out
        },
        None => {
            Vec::new()
        },
    }
}

/// What handling a `SendMessage` does: the state is untouched, the first
/// delivery is the sender's single acknowledgement, and the rest is
/// exactly one `MessageReceived` per participant of the room, the
/// sender's own handle included; an unknown room gets only the ACK.
pub open spec fn spec_send_effect(
    pre: ChatState,
    post: ChatState,
    out: Seq<Delivery>,
    room_id: Seq<char>,
    encrypted_payload: Seq<u8>,
    message_id: Seq<char>,
    timestamp: i64,
) -> bool {
    &&& post.rooms@ == pre.rooms@
    &&& out.len() >= 1
    &&& out[0].client_id is None
    &&& out[0].message@ == (ServerMessageView::MessageAck { message_id })
    &&& (forall|k: int| 1 <= k < out.len() ==> (#[trigger] out[k]).client_id is Some)
    &&& (!pre.spec_has_room(room_id) ==> out.len() == 1)
    &&& (pre.spec_has_room(room_id) ==> exists|i: int|
        #![auto]
        0 <= i < pre.rooms@.len() && pre.rooms@[i].0@ == room_id && spec_deliveries_view(
            out.subrange(1, out.len() as int),
        ) == spec_fanout(
            pre.rooms@[i].1.participants@,
            None,
            ServerMessageView::MessageReceived { room_id, encrypted_payload, timestamp, message_id },
        ))
}

/// What handling a `CreateChat` does: the single `ChatCreated` reply, a
/// room created only on the first create for its id, and on a fresh room
/// with a positive cap the creator joined and the session bound to the
/// assigned handle.  A repeated create leaves the existing room's
/// participants untouched (at most the requester joins it).
pub open spec fn spec_create_effect(
    pre: ChatState,
    post: ChatState,
    post_sess: Session,
    out: Seq<Delivery>,
    room_id: Seq<char>,
    chat_type: ChatType,
    username: Seq<char>,
) -> bool {
    &&& post.spec_has_room(room_id)
    &&& out.len() == 1
    &&& out[0].client_id is None
    &&& out[0].message@ == (ServerMessageView::ChatCreated { room_id, chat_type })
    &&& (!pre.spec_has_room(room_id) && chat_type.spec_cap() >= 1 ==> {
        &&& post.rooms@.len() == pre.rooms@.len() + 1
        &&& post.rooms@ == pre.rooms@.push(post.rooms@.last())
        &&& post.rooms@.last().0@ == room_id
        &&& post.rooms@.last().1.chat_type == chat_type
        &&& post.rooms@.last().1.participants@.len() == 1
        &&& post.rooms@.last().1.participants@[0].1@ == username
        &&& (post_sess.current matches Some(cur) && cur.0@ == room_id && cur.1@
            == post.rooms@.last().1.participants@[0].0@)
    })
    &&& (!pre.spec_has_room(room_id) && chat_type.spec_cap() < 1 ==> post.rooms@
        == pre.rooms@.push(post.rooms@.last()) && post.rooms@.last().0@ == room_id
        && post.rooms@.last().1.chat_type == chat_type
        && post.rooms@.last().1.participants@.len() == 0)
    &&& (pre.spec_has_room(room_id) ==> (post.rooms@ == pre.rooms@ || exists|i: int|
        #![auto]
        0 <= i < pre.rooms@.len() && pre.rooms@[i].0@ == room_id && post.rooms@
            == pre.rooms@.update(i, post.rooms@[i]) && post.rooms@[i].0@ == room_id
            && post.rooms@[i].1.chat_type == pre.rooms@[i].1.chat_type && (exists|
            p: (String, String),
        |
            post.rooms@[i].1.participants@ == pre.rooms@[i].1.participants@.push(p) && p.1@
                == username)))
}

/// What handling a `JoinChat` does: an unknown room is answered "Chat not
/// found" and a full room "Chat is full", both with nothing changed; on
/// admission the requester is told the room kind and new count, the
/// session is bound to the assigned handle, exactly that participant is
/// appended, and `UserJoined` fans out to everyone else.
pub open spec fn spec_join_effect(
    pre: ChatState,
    post: ChatState,
    post_sess: Session,
    out: Seq<Delivery>,
    room_id: Seq<char>,
    username: Seq<char>,
) -> bool {
    &&& out.len() >= 1
    &&& out[0].client_id is None
    &&& (!pre.spec_has_room(room_id) ==> post.rooms@ == pre.rooms@ && out.len() == 1
        && out[0].message@ == (ServerMessageView::Error { message: "Chat not found"@ }))
    &&& (pre.spec_has_room(room_id) && pre.spec_room_full(room_id) ==> post.rooms@ == pre.rooms@
        && out.len() == 1 && out[0].message@ == (ServerMessageView::Error {
        message: "Chat is full"@,
    }))
    &&& ((out[0].message@ is Error) ==> post.rooms@ == pre.rooms@ && out.len() == 1)
    &&& (out[0].message@ matches ServerMessageView::Error { message } ==> message
        == "Chat not found"@ || message == "Chat is full"@)
    &&& (!(out[0].message@ is Error) ==> exists|i: int, cid: Seq<char>|
        #![auto]
        {
            &&& 0 <= i < pre.rooms@.len()
            &&& pre.rooms@[i].0@ == room_id
            &&& pre.rooms@[i].1.participants@.len() < pre.rooms@[i].1.chat_type.spec_cap()
            &&& (out[0].message@ matches ServerMessageView::JoinedChat {
                room_id: reply_room,
                chat_type,
                participant_count,
            } ==> reply_room == room_id && chat_type == pre.rooms@[i].1.chat_type
                && participant_count as int == pre.rooms@[i].1.participants@.len() + 1)
            &&& (out[0].message@ is JoinedChat)
            &&& post.rooms@ == pre.rooms@.update(i, post.rooms@[i])
            &&& post.rooms@[i].0@ == room_id
            &&& post.rooms@[i].1.chat_type == pre.rooms@[i].1.chat_type
            &&& post.rooms@[i].1.participants@.len() == pre.rooms@[i].1.participants@.len() + 1
            &&& post.rooms@[i].1.participants@.drop_last() == pre.rooms@[i].1.participants@
            &&& post.rooms@[i].1.participants@.last().0@ == cid
            &&& post.rooms@[i].1.participants@.last().1@ == username
            &&& (post_sess.current matches Some(cur) && cur.0@ == room_id && cur.1@ == cid)
            &&& spec_deliveries_view(out.subrange(1, out.len() as int)) == spec_fanout(
                post.rooms@[i].1.participants@,
                Some(cid),
                ServerMessageView::UserJoined { room_id, username },
            )
        })
}

/// What handling one client message does to the relay state, the session
/// and the planned deliveries.
pub open spec fn spec_session_effect(
    pre: ChatState,
    post: ChatState,
    pre_sess: Session,
    post_sess: Session,
    m: ClientMessageView,
    timestamp: i64,
    out: Seq<Delivery>,
) -> bool {
    match m {
        ClientMessageView::CreateChat { room_id, chat_type, username } => spec_create_effect(
            pre,
            post,
            post_sess,
            out,
            room_id,
            chat_type,
            username,
        ),
        ClientMessageView::JoinChat { room_id, username } => spec_join_effect(
            pre,
            post,
            post_sess,
            out,
            room_id,
            username,
        ),
        ClientMessageView::SendMessage { room_id, encrypted_payload, message_id } =>
            spec_send_effect(pre, post, out, room_id, encrypted_payload, message_id, timestamp),
        ClientMessageView::LeaveChat { room_id } => {
            &&& post_sess.current is None
            &&& (match pre_sess.current {
                Some(cur) => if cur.0@ == room_id {
                    spec_leave_effect(pre, post, out, room_id, cur.1@)
                } else {
                    out.len() == 0 && post.rooms@ == pre.rooms@
                },
                None => out.len() == 0 && post.rooms@ == pre.rooms@,
            })
        },
    }
}

/// Handles one decoded client message against the relay state and the
/// connection's session, and plans the deliveries it causes, exactly as
/// `spec_session_effect` states.
pub fn handle_client_message(
    state: &mut ChatState,
    session: &mut Session,
    msg: ClientMessage,
    timestamp: i64,
) -> (r: Vec<Delivery>)
    requires
        old(state).wf(),
    ensures
        final(state).wf(),
        spec_session_effect(
            *old(state),
            *final(state),
            *old(session),
            *final(session),
            msg@,
            timestamp,
            r@,
        ),
{
    let mut out: Vec<Delivery> = Vec::new();
    match msg {
        ClientMessage::CreateChat { room_id, chat_type, username } => {
            let ghost uname = username@;
            state.create_chat(room_id.clone(), chat_type);
            let ghost mid = *state;
            proof {
                if !old(state).spec_has_room(room_id@) {
                    assert forall|j: int|
                        0 <= j < mid.rooms@.len() && mid.rooms@[j].0@ == room_id@ implies j
                        == old(state).rooms@.len() as int by {
                        if j < old(state).rooms@.len() {
                            assert(mid.rooms@[j] == old(state).rooms@[j]);
                        }
                    }
                }
            }
            match state.join_chat(room_id.as_str(), username) {
                Ok((_joined_type, _count, client_id)) => {
                    proof {
                        if !old(state).spec_has_room(room_id@) {
                            let i = choose|i: int|
                                #![auto]
                                0 <= i < mid.rooms@.len() && mid.rooms@[i].0@ == room_id@
                                    && state.rooms@ == mid.rooms@.update(i, state.rooms@[i]);
                            assert(i == old(state).rooms@.len() as int);
                            assert(state.rooms@ =~= old(state).rooms@.push(state.rooms@.last()));
                            assert(state.rooms@.last().1.participants@
                                =~= mid.rooms@.last().1.participants@.push(
                                state.rooms@.last().1.participants@.last(),
                            ));
                        }
                    }
                    session.current = Some((room_id.clone(), client_id));
                },
                Err(e) => {
                    proof {
                        reveal_strlit("Chat not found");
                        reveal_strlit("Chat is full");
                        assert(("Chat is full"@).len() != ("Chat not found"@).len());
                        if !old(state).spec_has_room(room_id@) && chat_type.spec_cap() >= 1 {
                            assert(mid.spec_has_room(room_id@));
                            assert(!mid.spec_room_full(room_id@)) by {
                                if mid.spec_room_full(room_id@) {
                                    let j = choose|j: int|
                                        0 <= j < mid.rooms@.len() && mid.rooms@[j].0@ == room_id@
                                            && mid.rooms@[j].1.participants@.len()
                                            >= mid.rooms@[j].1.chat_type.spec_cap();
                                    assert(j == old(state).rooms@.len() as int) by {
                                        if j < old(state).rooms@.len() {
                                            assert(mid.rooms@[j] == old(state).rooms@[j]);
                                        }
                                    }
                                }
                            }
                            assert forall|b: Seq<u8>|
                                !mid.spec_member(room_id@, uname + seq!['_'] + Uuid::spec_hex(b))
                            by {
                                if mid.spec_member(room_id@, uname + seq!['_'] + Uuid::spec_hex(b)) {
                                    let j = choose|j: int|
                                        0 <= j < mid.rooms@.len() && mid.rooms@[j].0@ == room_id@
                                            && mid.rooms@[j].1.spec_has(
                                            uname + seq!['_'] + Uuid::spec_hex(b),
                                        );
                                    assert(j == old(state).rooms@.len() as int) by {
                                        if j < old(state).rooms@.len() {
                                            assert(mid.rooms@[j] == old(state).rooms@[j]);
                                        }
                                    }
                                }
                            }
                            assert(false);
                        }
                    }
                },
            }
            out.push(
                Delivery {
                    client_id: None,
                    message: ServerMessage::ChatCreated { room_id, chat_type },
                },
            );
        },
        ClientMessage::JoinChat { room_id, username } => {
            let ghost uname = username@;
            match state.join_chat(room_id.as_str(), username.clone()) {
                Ok((chat_type, participant_count, client_id)) => {
                    session.current = Some((room_id.clone(), client_id.clone()));
                    out.push(
                        Delivery {
                            client_id: None,
                            message: ServerMessage::JoinedChat {
                                room_id: room_id.clone(),
                                chat_type,
                                participant_count,
                            },
                        },
                    );
                    let ghost joined = out@;
                    let mut notices = state.broadcast_user_event(
                        room_id.as_str(),
                        username,
                        true,
                        Some(client_id.as_str()),
                    );
                    let ghost notices_view = notices@;
                    out.append(&mut notices);
                    proof {
                        let pre = *old(state);
                        let i = choose|i: int|
                            #![auto]
                            0 <= i < pre.rooms@.len() && pre.rooms@[i].0@ == room_id@
                                && pre.rooms@[i].1.participants@.len()
                                < pre.rooms@[i].1.chat_type.spec_cap() && state.rooms@
                                == pre.rooms@.update(i, state.rooms@[i]) && state.rooms@[i].0@
                                == room_id@ && state.rooms@[i].1.participants@
                                == pre.rooms@[i].1.participants@.push(
                                (client_id, username),
                            );
                        let bi = choose|bi: int|
                            #![auto]
                            0 <= bi < state.rooms@.len() && state.rooms@[bi].0@ == room_id@
                                && spec_deliveries_view(notices_view) == spec_fanout(
                                state.rooms@[bi].1.participants@,
                                Some(client_id@),
                                ServerMessageView::UserJoined { room_id: room_id@, username: uname },
                            );
                        lemma_room_index_unique(*state, room_id@, i, bi);
                        assert(out@.subrange(1, out@.len() as int) =~= notices_view);
                        assert(state.rooms@[i].1.participants@.drop_last()
                            =~= pre.rooms@[i].1.participants@);
                    }
                },
                Err(e) => {
                    proof {
                        reveal_strlit("Chat not found");
                        reveal_strlit("Chat is full");
                        assert(("Chat is full"@).len() != ("Chat not found"@).len());
                    }
                    out.push(Delivery { client_id: None, message: ServerMessage::Error { message: e } });
                },
            }
        },
        ClientMessage::SendMessage { room_id, encrypted_payload, message_id } => {
            out.push(
                Delivery {
                    client_id: None,
                    message: ServerMessage::MessageAck { message_id: message_id.clone() },
                },
            );
            let ghost out_after_ack = out@;
            let mut fanout = state.broadcast_message(
                room_id.as_str(),
                encrypted_payload,
                message_id.as_str(),
                timestamp,
            );
            let ghost fanout_view = fanout@;
            out.append(&mut fanout);
            proof {
                assert(out@ == out_after_ack + fanout_view);
                assert(out@.subrange(1, out@.len() as int) =~= fanout_view);
            }
        },
        ClientMessage::LeaveChat { room_id } => {
            let mut leaving: Option<String> = None;
            if let Some((stored_room_id, stored_client_id)) = &session.current {
                if crate::text::str_eq(stored_room_id.as_str(), room_id.as_str()) {
                    leaving = Some(stored_client_id.clone());
                }
            }
            if let Some(leave_client) = leaving {
                let mut notices = leave_and_notify(state, room_id.as_str(), leave_client.as_str());
                out.append(&mut notices);
            }
            session.current = None;
        },
    }
    out
}

/// Cleans up after a disconnected connection: the same single departure
/// sequence as an explicit `LeaveChat` for whatever room the session
/// occupied — notice first, eviction second — and nothing at all when the
/// session occupies nothing, so cleanup after a leave is a no-op.
pub fn handle_disconnect(state: &mut ChatState, session: &mut Session) -> (r: Vec<Delivery>)
    requires
        old(state).wf(),
    ensures
        final(state).wf(),
        final(session).current is None,
        old(session).current is None ==> r@.len() == 0 && final(state).rooms@ == old(state).rooms@,
        old(session).current matches Some(cur) ==> spec_leave_effect(
            *old(state),
            *final(state),
            r@,
            cur.0@,
            cur.1@,
        ),
{
    let mut out: Vec<Delivery> = Vec::new();
    let mut leaving: Option<(String, String)> = None;
    if let Some((stored_room_id, stored_client_id)) = &session.current {
        leaving = Some((stored_room_id.clone(), stored_client_id.clone()));
    }
    if let Some((leave_room, leave_client)) = leaving {
        let mut notices = leave_and_notify(state, leave_room.as_str(), leave_client.as_str());
        out.append(&mut notices);
    }
    session.current = None;
    out
}

/// Handles one raw frame body: a body that does not decode as a client
/// message terminates the session, and anything else is handled exactly
/// as `spec_session_effect` states for the decoded message.
pub fn handle_frame(
    state: &mut ChatState,
    session: &mut Session,
    body: &[u8],
    timestamp: i64,
) -> (r: Option<Vec<Delivery>>)
    requires
        old(state).wf(),
    ensures
        final(state).wf(),
        r is None <==> crate::codec::spec_dec_client(body@) is None,
        r matches Some(d) ==> (crate::codec::spec_dec_client(body@) matches Some(m)
            && spec_session_effect(
            *old(state),
            *final(state),
            *old(session),
            *final(session),
            m,
            timestamp,
            d@,
        )),
{
    match crate::codec::decode_client_message(body) {
        Some(msg) => Some(handle_client_message(state, session, msg, timestamp)),
        None => None,
    }
}

} // verus!
