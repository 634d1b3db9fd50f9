use wayland_backend_rs::map::{Object, ObjectMap, SERVER_ID_LIMIT};
use wayland_backend_rs::protocol::Interface;

static THING: Interface = Interface { name: "thing", version: 1, requests: &[], events: &[] };

fn object(data: u32) -> Object<u32> {
    Object { interface: &THING, version: 1, data }
}

fn data(map: &ObjectMap<u32>, id: u32) -> Option<u32> {
    map.find(id).map(|o| o.data)
}

#[test]
fn ids_are_taken_in_order() {
    let mut map = ObjectMap::new();
    assert!(map.insert_at(0, object(0)).is_err());
    assert!(map.insert_at(2, object(0)).is_err());
    assert!(map.insert_at(1, object(10)).is_ok());
    assert!(map.insert_at(1, object(11)).is_err());
    assert!(map.insert_at(3, object(0)).is_err());
    assert!(map.insert_at(2, object(20)).is_ok());
    assert_eq!(data(&map, 0), None);
    assert_eq!(data(&map, 1), Some(10));
    assert_eq!(data(&map, 2), Some(20));
    assert_eq!(data(&map, 3), None);
}

#[test]
fn server_ids_are_taken_in_order() {
    let mut map = ObjectMap::new();
    assert!(map.insert_at(SERVER_ID_LIMIT + 1, object(0)).is_err());
    assert!(map.insert_at(u32::MAX, object(0)).is_err());
    assert!(map.insert_at(SERVER_ID_LIMIT, object(1)).is_ok());
    assert!(map.insert_at(SERVER_ID_LIMIT + 1, object(2)).is_ok());
    assert_eq!(data(&map, SERVER_ID_LIMIT), Some(1));
    assert_eq!(data(&map, SERVER_ID_LIMIT + 1), Some(2));
    assert_eq!(data(&map, SERVER_ID_LIMIT - 1), None);
    assert_eq!(data(&map, u32::MAX), None);
}

#[test]
fn new_objects_get_the_lowest_free_id() {
    let mut map = ObjectMap::new();
    assert_eq!(map.first_free(), Some(1));
    for i in 1..=5 {
        assert_eq!(map.client_insert_new(object(i)), i);
    }
    map.remove(4);
    map.remove(2);
    map.remove(9);
    map.remove(0);
    assert_eq!(data(&map, 2), None);
    assert_eq!(map.first_free(), Some(2));
    assert_eq!(map.client_insert_new(object(22)), 2);
    assert_eq!(map.client_insert_new(object(44)), 4);
    assert_eq!(map.client_insert_new(object(66)), 6);
    assert_eq!(data(&map, 2), Some(22));
    assert_eq!(data(&map, 3), Some(3));
}

#[test]
fn removed_ids_can_be_used_again() {
    let mut map = ObjectMap::new();
    map.insert_at(1, object(1)).unwrap();
    map.insert_at(2, object(2)).unwrap();
    map.insert_at(SERVER_ID_LIMIT, object(3)).unwrap();
    map.remove(1);
    map.remove(2);
    map.remove(SERVER_ID_LIMIT);
    assert!(map.insert_at(4, object(0)).is_err());
    assert!(map.insert_at(3, object(30)).is_ok());
    assert!(map.insert_at(1, object(10)).is_ok());
    assert!(map.insert_at(SERVER_ID_LIMIT, object(40)).is_ok());
    assert_eq!(data(&map, 1), Some(10));
    assert_eq!(data(&map, 2), None);
    assert_eq!(data(&map, SERVER_ID_LIMIT), Some(40));
}

#[test]
fn objects_can_be_changed_in_place() {
    let mut map = ObjectMap::new();
    map.insert_at(1, object(1)).unwrap();
    map.insert_at(SERVER_ID_LIMIT, object(2)).unwrap();
    map.get_mut(1).unwrap().data = 100;
    map.get_mut(SERVER_ID_LIMIT).unwrap().data = 200;
    assert!(map.get_mut(0).is_none());
    assert!(map.get_mut(2).is_none());
    assert!(map.get_mut(SERVER_ID_LIMIT + 1).is_none());
    assert_eq!(data(&map, 1), Some(100));
    assert_eq!(data(&map, SERVER_ID_LIMIT), Some(200));
}
