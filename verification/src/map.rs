//! The objects of a connection, by their id.
//!
//! Ids from 1 up are given out by the client, ids from [`SERVER_ID_LIMIT`] up by the server.
//! Each side takes its ids in order: the only id that can be used for the first time is the one
//! that follows those that were used before. An id that was freed can be used again.

use vstd::prelude::*;

use crate::protocol::Interface;

verus! {

/// The first id of the server.
pub const SERVER_ID_LIMIT: u32 = 0xFF00_0000;

/// An object, with the data that its owner keeps with it.
#[derive(Debug)]
pub struct Object<T> {
    pub interface: &'static Interface,
    pub version: u32,
    pub data: T,
}

/// The contents of an [`ObjectMap`].
#[verifier::ext_equal]
pub struct MapView<T> {
    /// The objects, by id.
    pub objects: Map<u32, Object<T>>,
    /// How many of the client's ids were ever used: they are `1..=clients`.
    pub clients: nat,
    /// How many of the server's ids were ever used.
    pub servers: nat,
}

impl<T> MapView<T> {
    /// Whether an id was ever used.
    pub open spec fn is_used(self, id: u32) -> bool {
        if id < SERVER_ID_LIMIT {
            1 <= id <= self.clients
        } else {
            id - SERVER_ID_LIMIT < self.servers
        }
    }

    /// The ids of the client stay below those of the server, and every object has an id that
    /// was used.
    pub open spec fn wf(self) -> bool {
        &&& self.clients < SERVER_ID_LIMIT
        &&& self.servers <= 0x1_0000_0000 - SERVER_ID_LIMIT
        &&& forall|id: u32| #[trigger] self.objects.contains_key(id) ==> self.is_used(id)
    }

    /// No objects, and no id used.
    pub open spec fn empty() -> Self {
        MapView { objects: Map::empty(), clients: 0, servers: 0 }
    }

    /// The object that has an id.
    pub open spec fn find(self, id: u32) -> Option<Object<T>> {
        if self.objects.contains_key(id) {
            Some(self.objects[id])
        } else {
            None
        }
    }

    /// Whether an object can be given an id: one that is free, and that was used before or is
    /// the next of its side.
    pub open spec fn is_available(self, id: u32) -> bool {
        &&& id != 0
        &&& !self.objects.contains_key(id)
        &&& if id < SERVER_ID_LIMIT {
            id <= self.clients + 1
        } else {
            id - SERVER_ID_LIMIT <= self.servers
        }
    }

    /// The map with one more object.
    pub open spec fn insert(self, id: u32, object: Object<T>) -> Self {
        MapView {
            objects: self.objects.insert(id, object),
            clients: if id < SERVER_ID_LIMIT && id > self.clients {
                id as nat
            } else {
                self.clients
            },
            servers: if id >= SERVER_ID_LIMIT && id - SERVER_ID_LIMIT >= self.servers {
                (id - SERVER_ID_LIMIT + 1) as nat
            } else {
                self.servers
            },
        }
    }

    /// The map with another object in the place of the one that has an id.
    pub open spec fn update(self, id: u32, object: Object<T>) -> Self {
        MapView { objects: self.objects.insert(id, object), ..self }
    }

    /// The map without the object of an id.
    pub open spec fn remove(self, id: u32) -> Self {
        MapView { objects: self.objects.remove(id), ..self }
    }

    /// Whether an id is the lowest of the client's ids that is free.
    pub open spec fn is_lowest_free(self, id: u32) -> bool {
        &&& 1 <= id < SERVER_ID_LIMIT
        &&& !self.objects.contains_key(id)
        &&& forall|other: u32| 1 <= other < id ==> #[trigger] self.objects.contains_key(other)
    }

    /// Whether one of the client's ids is free.
    pub open spec fn has_room(self) -> bool {
        exists|id: u32| self.is_lowest_free(id)
    }

    /// The lowest of the client's ids that is free.
    pub open spec fn lowest_free(self) -> u32 {
        choose|id: u32| self.is_lowest_free(id)
    }
}

/// Only one id is the lowest that is free.
pub proof fn lemma_lowest_free<T>(map: MapView<T>, id: u32)
    requires
        map.is_lowest_free(id),
    ensures
        map.has_room(),
        map.lowest_free() == id,
{
    let found = map.lowest_free();
    assert(map.is_lowest_free(found));
    if found < id {
        assert(map.objects.contains_key(found));
    }
    if id < found {
        assert(map.objects.contains_key(id));
    }
}

/// The lowest id that is free is available.
pub proof fn lemma_lowest_free_is_available<T>(map: MapView<T>)
    requires
        map.wf(),
        map.has_room(),
    ensures
        map.is_lowest_free(map.lowest_free()),
        map.is_available(map.lowest_free()),
{
    let id = map.lowest_free();
    assert(map.is_lowest_free(id));
    if id > map.clients + 1 {
        let before = (id - 1) as u32;
        assert(map.objects.contains_key(before));
        assert(map.is_used(before));
    }
}

/// Giving an object an available id, putting another in its place, or taking one out keeps the
/// ids in order.
pub proof fn lemma_map_wf<T>(map: MapView<T>, id: u32, object: Object<T>)
    requires
        map.wf(),
    ensures
        map.is_available(id) ==> map.insert(id, object).wf(),
        map.objects.contains_key(id) ==> map.update(id, object).wf(),
        map.remove(id).wf(),
{
    if map.is_available(id) {
        let after = map.insert(id, object);
        assert forall|other: u32| #[trigger] after.objects.contains_key(other) implies after.is_used(
            other,
        ) by {
            if other != id {
                assert(map.objects.contains_key(other));
                assert(map.is_used(other));
            }
        }
    }
    if map.objects.contains_key(id) {
        let after = map.update(id, object);
        assert forall|other: u32| #[trigger] after.objects.contains_key(other) implies after.is_used(
            other,
        ) by {
            if other != id {
                assert(map.objects.contains_key(other));
            }
        }
    }
    assert forall|other: u32| #[trigger]
        map.remove(id).objects.contains_key(other) implies map.remove(id).is_used(other) by {
        assert(map.objects.contains_key(other));
    }
}

/// A map gives back what was put into it: an object that is inserted, or put in the place of
/// another, has its id, one that is removed is gone, and no other object changes.
pub proof fn law_maps_give_back_what_was_put_in<T>(map: MapView<T>, id: u32, object: Object<T>)
    ensures
        map.insert(id, object).objects.contains_key(id),
        map.insert(id, object).objects[id] == object,
        map.insert(id, object).objects.dom() == map.objects.dom().insert(id),
        map.update(id, object).objects.contains_key(id),
        map.update(id, object).objects[id] == object,
        map.update(id, object).objects.dom() == map.objects.dom().insert(id),
        map.remove(id).objects.dom() == map.objects.dom().remove(id),
        forall|other: u32|
            other != id ==> {
                &&& map.insert(id, object).objects[other] == #[trigger] map.objects[other]
                &&& map.update(id, object).objects[other] == map.objects[other]
                &&& map.objects.contains_key(other) ==> map.remove(id).objects[other]
                    == map.objects[other]
            },
        map.find(id) is Some <==> map.objects.contains_key(id),
        map.find(id) is Some ==> map.find(id)->0 == map.objects[id],
        map.update(id, object).clients == map.clients,
        map.update(id, object).servers == map.servers,
        map.remove(id).clients == map.clients,
        map.remove(id).servers == map.servers,
        MapView::<T>::empty().objects.dom() == Set::<u32>::empty(),
        MapView::<T>::empty().clients == 0,
        MapView::<T>::empty().servers == 0,
{
    assert(map.insert(id, object).objects.dom() =~= map.objects.dom().insert(id));
    assert(map.update(id, object).objects.dom() =~= map.objects.dom().insert(id));
    assert(map.remove(id).objects.dom() =~= map.objects.dom().remove(id));
    assert(MapView::<T>::empty().objects.dom() =~= Set::<u32>::empty());
}

/// The ids of each side are used in order: an id can be used where it is free, and either was used
/// before or is the very next of its side. The null id can never be used. Once an id was used, it
/// and those before it count as used for good.
pub proof fn law_ids_are_used_in_order<T>(map: MapView<T>, id: u32, object: Object<T>, other: u32)
    requires
        map.wf(),
    ensures
        !map.is_available(0),
        !map.is_used(0),
        0 < id < SERVER_ID_LIMIT ==> (map.is_used(id) <==> id <= map.clients),
        id >= SERVER_ID_LIMIT ==> (map.is_used(id) <==> id < SERVER_ID_LIMIT + map.servers),
        map.objects.contains_key(id) ==> map.is_used(id) && !map.is_available(id),
        id != 0 && !map.objects.contains_key(id) ==> (map.is_available(id) <==> map.is_used(id)
            || id == map.clients + 1 && id < SERVER_ID_LIMIT || id == SERVER_ID_LIMIT
            + map.servers),
        map.is_available(id) ==> {
            &&& map.insert(id, object).is_used(id)
            &&& map.insert(id, object).is_used(other) <==> map.is_used(other) || other == id
        },
{
}

/// The lowest id that is free is one of the client's, and all of its ids below are taken. There is
/// one unless all of them are taken.
pub proof fn law_the_lowest_free_id_is_lowest<T>(map: MapView<T>, id: u32)
    ensures
        map.has_room() ==> {
            &&& 1 <= map.lowest_free() < SERVER_ID_LIMIT
            &&& !map.objects.contains_key(map.lowest_free())
            &&& 1 <= id < map.lowest_free() ==> map.objects.contains_key(id)
        },
        1 <= id < SERVER_ID_LIMIT && !map.objects.contains_key(id) ==> map.has_room()
            && map.lowest_free() <= id,
{
    if map.has_room() {
        assert(map.is_lowest_free(map.lowest_free()));
    }
    if 1 <= id < SERVER_ID_LIMIT && !map.objects.contains_key(id) {
        lemma_free_id_at_or_below(map, id, 1);
    }
}

proof fn lemma_free_id_at_or_below<T>(map: MapView<T>, free: u32, from: u32)
    requires
        1 <= from <= free < SERVER_ID_LIMIT,
        !map.objects.contains_key(free),
        forall|other: u32| 1 <= other < from ==> #[trigger] map.objects.contains_key(other),
    ensures
        map.has_room(),
        map.lowest_free() <= free,
    decreases free - from,
{
    if map.objects.contains_key(from) {
        lemma_free_id_at_or_below(map, free, (from + 1) as u32);
    } else {
        assert(map.is_lowest_free(from));
        lemma_lowest_free(map, from);
    }
}

/// The objects of a connection.
#[derive(Debug)]
pub struct ObjectMap<T> {
    client_objects: Vec<Option<Object<T>>>,
    server_objects: Vec<Option<Object<T>>>,
}

impl<T> ObjectMap<T> {
    /// The object at an id.
    closed spec fn slot(&self, id: u32) -> Option<Object<T>> {
        if id == 0 {
            None
        } else if id < SERVER_ID_LIMIT {
            if id - 1 < self.client_objects.len() {
                self.client_objects@[id - 1]
            } else {
                None
            }
        } else if id - SERVER_ID_LIMIT < self.server_objects.len() {
            self.server_objects@[id - SERVER_ID_LIMIT]
        } else {
            None
        }
    }

    pub closed spec fn view(&self) -> MapView<T> {
        MapView {
            objects: Map::new(|id: u32| self.slot(id) is Some, |id: u32| self.slot(id)->0),
            clients: self.client_objects.len() as nat,
            servers: self.server_objects.len() as nat,
        }
    }

    /// A map without objects.
    pub fn new() -> (r: Self)
        ensures
            r@ == MapView::<T>::empty(),
    {
        let r = ObjectMap { client_objects: Vec::new(), server_objects: Vec::new() };
        assert(r@.objects =~= Map::empty());
        r
    }

    /// The object that has an id.
    pub fn find(&self, id: u32) -> (r: Option<&Object<T>>)
        ensures
            match r {
                Some(object) => self@.find(id) == Some(*object),
                None => self@.find(id) is None,
            },
    {
        if id == 0 {
            None
        } else if id >= SERVER_ID_LIMIT {
            let index: usize = (id - SERVER_ID_LIMIT) as usize;
            if index < self.server_objects.len() {
                self.server_objects[index].as_ref()
            } else {
                None
            }
        } else {
            let index: usize = (id - 1) as usize;
            if index < self.client_objects.len() {
                self.client_objects[index].as_ref()
            } else {
                None
            }
        }
    }

    /// Gives access to the object that has an id.
    pub fn get_mut(&mut self, id: u32) -> (r: Option<&mut Object<T>>)
        ensures
            match r {
                Some(object) => {
                    &&& old(self)@.find(id) == Some(*object)
                    &&& final(self)@ =~= old(self)@.update(id, *final(object))
                },
                None => old(self)@.find(id) is None && final(self)@ == old(self)@,
            },
    {
        if id == 0 {
            None
        } else if id >= SERVER_ID_LIMIT {
            let index: usize = (id - SERVER_ID_LIMIT) as usize;
            if index < self.server_objects.len() {
                match &mut self.server_objects[index] {
                    Some(object) => Some(object),
                    None => None,
                }
            } else {
                None
            }
        } else {
            let index: usize = (id - 1) as usize;
            if index < self.client_objects.len() {
                match &mut self.client_objects[index] {
                    Some(object) => Some(object),
                    None => None,
                }
            } else {
                None
            }
        }
    }

    /// Takes the object of an id out. Without such an object, nothing happens.
    pub fn remove(&mut self, id: u32)
        ensures
            final(self)@ == old(self)@.remove(id),
    {
        if id == 0 {
        } else if id >= SERVER_ID_LIMIT {
            let index: usize = (id - SERVER_ID_LIMIT) as usize;
            if index < self.server_objects.len() {
                self.server_objects.set(index, None);
            }
        } else {
            let index: usize = (id - 1) as usize;
            if index < self.client_objects.len() {
                self.client_objects.set(index, None);
            }
        }
        assert(self@.objects =~= old(self)@.objects.remove(id));
    }

    /// Gives an object an id, which fails where the id is not available.
    pub fn insert_at(&mut self, id: u32, object: Object<T>) -> (r: Result<(), ()>)
        ensures
            r is Ok <==> old(self)@.is_available(id),
            final(self)@ == (if r is Ok {
                old(self)@.insert(id, object)
            } else {
                old(self)@
            }),
    {
        if id == 0 {
            return Err(());
        }
        let r = if id >= SERVER_ID_LIMIT {
            insert_in_at(&mut self.server_objects, (id - SERVER_ID_LIMIT) as usize, object)
        } else {
            insert_in_at(&mut self.client_objects, (id - 1) as usize, object)
        };
        if r.is_ok() {
            assert(self@.objects =~= old(self)@.objects.insert(id, object));
        } else {
            assert(self@.objects =~= old(self)@.objects);
        }
        r
    }

    /// The lowest of the client's ids that is free, if there is one.
    pub fn first_free(&self) -> (r: Option<u32>)
        requires
            self@.wf(),
        ensures
            match r {
                Some(id) => self@.has_room() && id == self@.lowest_free(),
                None => !self@.has_room(),
            },
    {
        let mut index: usize = 0;
        while index < self.client_objects.len() && self.client_objects[index].is_some()
            invariant
                self@.wf(),
                index <= self.client_objects.len(),
                forall|other: u32|
                    1 <= other <= index ==> #[trigger] self@.objects.contains_key(other),
            decreases self.client_objects.len() - index,
        {
            index += 1;
        }
        if index < (SERVER_ID_LIMIT - 1) as usize {
            let id: u32 = index as u32 + 1;
            proof {
                assert(self.slot(id) is None);
                lemma_lowest_free(self@, id);
            }
            Some(id)
        } else {
            proof {
                assert(!self@.has_room()) by {
                    if self@.has_room() {
                        let id = self@.lowest_free();
                        assert(self@.is_lowest_free(id));
                        assert(self@.objects.contains_key(id));
                    }
                }
            }
            None
        }
    }

    /// Gives an object the lowest of the client's ids that is free.
    pub fn client_insert_new(&mut self, object: Object<T>) -> (r: u32)
        requires
            old(self)@.wf(),
            old(self)@.has_room(),
        ensures
            r == old(self)@.lowest_free(),
            final(self)@ == old(self)@.insert(r, object),
    {
        let id: u32 = self.first_free().unwrap();
        proof {
            lemma_lowest_free_is_available(self@);
        }
        let inserted = self.insert_at(id, object);
        id
    }
}

/// Puts an object into an empty place of a list, or at its end.
fn insert_in_at<T>(store: &mut Vec<Option<Object<T>>>, index: usize, object: Object<T>) -> (r:
    Result<(), ()>)
    ensures
        r is Ok <==> index == old(store).len() || (index < old(store).len() && old(
            store,
        )@[index as int] is None),
        final(store)@ == (if r is Err {
            old(store)@
        } else if index == old(store).len() {
            old(store)@.push(Some(object))
        } else {
            old(store)@.update(index as int, Some(object))
        }),
{
    if index > store.len() {
        Err(())
    } else if index == store.len() {
        store.push(Some(object));
        Ok(())
    } else if store[index].is_some() {
        Err(())
    } else {
        store.set(index, Some(object));
        Ok(())
    }
}

} // verus!
