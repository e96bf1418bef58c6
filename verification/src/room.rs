//! Rooms and the registry that holds them.
//!
//! A room is the coordination context of one message. It is identified by
//! the digest of the message and lists the party numbers that take part.

use vstd::hash_map::StringHashMap;
use vstd::prelude::*;

verus! {

/// The coordination context of one message.
#[derive(Debug, PartialEq, Eq)]
pub struct Room {
    /// The digest of the message that the room was opened for.
    pub room_id: String,
    /// The party numbers that hold a slot in the room, in ascending order.
    pub member_info: Vec<u16>,
    /// The capacity the room was created with.
    pub total_parties: u16,
}

/// What a [`Room`] holds, as mathematical values.
pub struct RoomView {
    pub room_id: Seq<char>,
    pub member_info: Seq<u16>,
    pub total_parties: u16,
}

impl View for Room {
    type V = RoomView;

    open spec fn view(&self) -> RoomView {
        RoomView {
            room_id: self.room_id@,
            member_info: self.member_info@,
            total_parties: self.total_parties,
        }
    }
}

/// The roster of a newly created room: every party number from 1 up to the
/// capacity, in order.
pub open spec fn full_roster(total_parties: u16) -> Seq<u16> {
    Seq::new(total_parties as nat, |i: int| (i + 1) as u16)
}

impl RoomView {
    /// The room as it is when first created: every slot is on the roster.
    pub open spec fn fresh(room_id: Seq<char>, total_parties: u16) -> RoomView {
        RoomView { room_id, member_info: full_roster(total_parties), total_parties }
    }

    /// Party numbers on the roster lie in `1..=total_parties` and ascend
    /// strictly, so none occurs twice.
    pub open spec fn wf(self) -> bool {
        &&& forall|i: int|
            0 <= i < self.member_info.len() ==> 1 <= #[trigger] self.member_info[i]
                <= self.total_parties
        &&& forall|i: int, j: int|
            0 <= i < j < self.member_info.len() ==> self.member_info[i] < self.member_info[j]
    }
}

/// A newly created room is well formed and has one slot per party.
pub proof fn lemma_fresh_room_wf(room_id: Seq<char>, total_parties: u16)
    ensures
        RoomView::fresh(room_id, total_parties).wf(),
        RoomView::fresh(room_id, total_parties).member_info.len() == total_parties,
{
}

impl Room {
    /// Creates the room of `room_id` with one slot for each of the party
    /// numbers `1..=total_parties`.
    pub fn new(room_id: String, total_parties: u16) -> (room: Room)
        ensures
            room@ == RoomView::fresh(room_id@, total_parties),
            room@.wf(),
    {
        let mut member_info: Vec<u16> = Vec::new();
        let mut party: u16 = 0;
        while party < total_parties
            invariant
                party <= total_parties,
                member_info@.len() == party,
                forall|i: int| 0 <= i < party ==> member_info@[i] == i + 1,
            decreases total_parties - party,
        {
            party = party + 1;
            member_info.push(party);
        }
        assert(member_info@ =~= full_roster(total_parties));
        Room { room_id, member_info, total_parties }
    }
}

impl Clone for Room {
    fn clone(&self) -> (room: Room)
        ensures
            room@ == self@,
    {
        let member_info = self.member_info.clone();
        assert(member_info@ =~= self.member_info@);
        Room { room_id: self.room_id.clone(), member_info, total_parties: self.total_parties }
    }
}

/// The keyed store of rooms: at most one room for each room identifier.
pub struct RoomRegistry {
    rooms: StringHashMap<Room>,
}

impl View for RoomRegistry {
    type V = Map<Seq<char>, RoomView>;

    closed spec fn view(&self) -> Map<Seq<char>, RoomView> {
        room_views(self.rooms@)
    }
}

/// The views of the rooms of a map, under the same keys.
pub open spec fn room_views(rooms: Map<Seq<char>, Room>) -> Map<Seq<char>, RoomView> {
    rooms.map_values(|room: Room| room@)
}

/// Every room of the registry is stored under its own identifier and is
/// well formed.
pub open spec fn registry_wf(rooms: Map<Seq<char>, RoomView>) -> bool {
    forall|room_id: Seq<char>| #[trigger]
        rooms.contains_key(room_id) ==> rooms[room_id].room_id == room_id && rooms[room_id].wf()
}

/// The registry after a room for `room_id` has been created: the new room
/// takes the place of whatever was stored under that identifier.
pub open spec fn registry_create(
    rooms: Map<Seq<char>, RoomView>,
    room_id: Seq<char>,
    total_parties: u16,
) -> Map<Seq<char>, RoomView> {
    rooms.insert(room_id, RoomView::fresh(room_id, total_parties))
}

impl RoomRegistry {
    #[verifier::type_invariant]
    spec fn inv(&self) -> bool {
        registry_wf(self@)
    }

    /// An empty registry.
    pub fn new() -> (registry: RoomRegistry)
        ensures
            registry@ == Map::<Seq<char>, RoomView>::empty(),
    {
        let registry = RoomRegistry { rooms: StringHashMap::new() };
        assert(registry@ =~= Map::<Seq<char>, RoomView>::empty());
        registry
    }

    /// Stores a newly created room under `room_id` and returns it. A room
    /// that was stored under `room_id` before is overwritten, not merged.
    pub fn create_or_get(&mut self, room_id: String, total_parties: u16) -> (room: Room)
        ensures
            final(self)@ == registry_create(old(self)@, room_id@, total_parties),
            room@ == RoomView::fresh(room_id@, total_parties),
            registry_wf(final(self)@),
    {
        proof {
            use_type_invariant(&*self);
        }
        let room = Room::new(room_id.clone(), total_parties);
        let stored = room.clone();
        // The map is taken out while it changes, so that the registry is
        // well formed whenever control can leave this function.
        let mut rooms: StringHashMap<Room> = StringHashMap::new();
        core::mem::swap(&mut self.rooms, &mut rooms);
        assert(self@ =~= Map::<Seq<char>, RoomView>::empty());
        rooms.insert(room_id, stored);
        proof {
            assert(room_views(rooms@) =~= registry_create(old(self)@, room_id@, total_parties));
            lemma_create_keeps_registry_wf(old(self)@, room_id@, total_parties);
        }
        core::mem::swap(&mut self.rooms, &mut rooms);
        room
    }

    /// The room stored under `room_id`, if there is one.
    pub fn read(&self, room_id: &str) -> (room: Option<Room>)
        ensures
            registry_wf(self@),
            match room {
                Some(found) => self@.contains_key(room_id@) && found@ == self@[room_id@],
                None => !self@.contains_key(room_id@),
            },
    {
        proof {
            use_type_invariant(self);
        }
        match self.rooms.get(room_id) {
            Some(found) => Some(found.clone()),
            None => None,
        }
    }

    /// The number of rooms in the registry.
    pub fn len(&self) -> (count: usize)
        ensures
            count == self@.len(),
    {
        broadcast use vstd::hash_map::group_hash_map_axioms;

        let count = self.rooms.len();
        proof {
            assert(self@.dom() =~= self.rooms@.dom());
        }
        count
    }
}

/// Creating a room twice under one identifier leaves a single room there:
/// the second one. The rooms under other identifiers are untouched.
pub proof fn lemma_create_twice_overwrites(
    rooms: Map<Seq<char>, RoomView>,
    room_id: Seq<char>,
    first_parties: u16,
    second_parties: u16,
)
    ensures
        registry_create(registry_create(rooms, room_id, first_parties), room_id, second_parties)
            == registry_create(rooms, room_id, second_parties),
        registry_create(registry_create(rooms, room_id, first_parties), room_id, second_parties)[room_id]
            == RoomView::fresh(room_id, second_parties),
        registry_create(registry_create(rooms, room_id, first_parties), room_id, second_parties).dom()
            == registry_create(rooms, room_id, first_parties).dom(),
{
    let once = registry_create(rooms, room_id, first_parties);
    let twice = registry_create(once, room_id, second_parties);
    assert(twice =~= registry_create(rooms, room_id, second_parties));
    assert(twice.dom() =~= once.dom());
}

/// Creating a room keeps the registry well formed.
pub proof fn lemma_create_keeps_registry_wf(
    rooms: Map<Seq<char>, RoomView>,
    room_id: Seq<char>,
    total_parties: u16,
)
    requires
        registry_wf(rooms),
    ensures
        registry_wf(registry_create(rooms, room_id, total_parties)),
{
    lemma_fresh_room_wf(room_id, total_parties);
}

} // verus!
