use cursor_canvas::positions::CursorPosition;
use cursor_canvas::positions::UserCursorPositionMap;
use cursor_canvas::positions::get_user_cursor_positions;
use cursor_canvas::positions::initialize_user_cursor_positions;

fn roster(names: &[&str]) -> Vec<String> {
    let mut v: Vec<String> = Vec::new();
    for name in names {
        v.push(String::from(*name));
    }
    v
}

#[test]
fn initialize_fixed_roster_has_one_entry_per_identifier() {
    let names = [
        "A", "B", "C", "D", "E", "F", "G", "H", "I", "J", "K", "L", "M", "N", "O", "P", "Q", "R",
        "S", "T",
    ];
    let map = initialize_user_cursor_positions(&roster(&names));
    assert_eq!(map.len(), 20);
    for (i, name) in names.iter().enumerate() {
        let pos = map.get(&String::from(*name)).unwrap();
        assert_eq!(pos, CursorPosition { x: 0, y: 50 * i as i64 });
    }
}

#[test]
fn initialize_staggers_y_offsets_by_fixed_step() {
    let map = initialize_user_cursor_positions(&roster(&["alice", "bob", "carol"]));
    assert_eq!(map.len(), 3);
    assert_eq!(map.get(&String::from("alice")), Some(CursorPosition { x: 0, y: 0 }));
    assert_eq!(map.get(&String::from("bob")), Some(CursorPosition { x: 0, y: 50 }));
    assert_eq!(map.get(&String::from("carol")), Some(CursorPosition { x: 0, y: 100 }));
}

#[test]
fn initialize_empty_roster_gives_empty_map() {
    let map = initialize_user_cursor_positions(&roster(&[]));
    assert_eq!(map.len(), 0);
}

#[test]
fn initialize_duplicate_identifier_keeps_last_offset() {
    let map = initialize_user_cursor_positions(&roster(&["a", "b", "a"]));
    assert_eq!(map.len(), 2);
    assert_eq!(map.get(&String::from("a")), Some(CursorPosition { x: 0, y: 100 }));
    assert_eq!(map.get(&String::from("b")), Some(CursorPosition { x: 0, y: 50 }));
}

#[test]
fn update_then_snapshot_reflects_new_position_and_keeps_others() {
    let mut map = initialize_user_cursor_positions(&roster(&["a", "b", "c"]));
    map.update(String::from("b"), CursorPosition { x: 17, y: -3 });
    let snap = get_user_cursor_positions(&map);
    assert_eq!(snap.get(&String::from("b")), Some(CursorPosition { x: 17, y: -3 }));
    assert_eq!(snap.get(&String::from("a")), Some(CursorPosition { x: 0, y: 0 }));
    assert_eq!(snap.get(&String::from("c")), Some(CursorPosition { x: 0, y: 100 }));
    assert_eq!(snap.len(), 3);
}

#[test]
fn update_unknown_id_adds_entry() {
    let mut map = UserCursorPositionMap::new();
    assert_eq!(map.len(), 0);
    assert_eq!(map.get(&String::from("newcomer")), None);
    map.update(String::from("newcomer"), CursorPosition { x: 5, y: 6 });
    assert_eq!(map.len(), 1);
    assert_eq!(map.get(&String::from("newcomer")), Some(CursorPosition { x: 5, y: 6 }));
}

#[test]
fn repeated_updates_same_id_are_last_write_wins() {
    let mut map = UserCursorPositionMap::new();
    map.update(String::from("u"), CursorPosition { x: 1, y: 1 });
    map.update(String::from("v"), CursorPosition { x: 2, y: 2 });
    map.update(String::from("u"), CursorPosition { x: 3, y: 3 });
    map.update(String::from("v"), CursorPosition { x: 4, y: 4 });
    map.update(String::from("u"), CursorPosition { x: 9, y: 9 });
    assert_eq!(map.len(), 2);
    assert_eq!(map.get(&String::from("u")), Some(CursorPosition { x: 9, y: 9 }));
    assert_eq!(map.get(&String::from("v")), Some(CursorPosition { x: 4, y: 4 }));
}

#[test]
fn interleaving_order_of_distinct_ids_does_not_matter() {
    let mut one = UserCursorPositionMap::new();
    one.update(String::from("u"), CursorPosition { x: 1, y: 2 });
    one.update(String::from("v"), CursorPosition { x: 3, y: 4 });
    let mut two = UserCursorPositionMap::new();
    two.update(String::from("v"), CursorPosition { x: 3, y: 4 });
    two.update(String::from("u"), CursorPosition { x: 1, y: 2 });
    assert_eq!(one.len(), 2);
    assert_eq!(two.len(), 2);
    for id in ["u", "v"] {
        assert_eq!(one.get(&String::from(id)), two.get(&String::from(id)));
    }
}

#[test]
fn snapshot_is_independent_of_later_updates() {
    let mut map = initialize_user_cursor_positions(&roster(&["a", "b"]));
    let snap = get_user_cursor_positions(&map);
    map.update(String::from("a"), CursorPosition { x: 99, y: 99 });
    assert_eq!(snap.get(&String::from("a")), Some(CursorPosition { x: 0, y: 0 }));
    assert_eq!(map.get(&String::from("a")), Some(CursorPosition { x: 99, y: 99 }));
}

#[test]
fn entry_at_walks_entries_in_insertion_order() {
    let mut map = UserCursorPositionMap::new();
    map.update(String::from("first"), CursorPosition { x: 1, y: 0 });
    map.update(String::from("second"), CursorPosition { x: 2, y: 0 });
    map.update(String::from("first"), CursorPosition { x: 7, y: 0 });
    assert_eq!(map.len(), 2);
    assert_eq!(map.entry_at(0), (String::from("first"), CursorPosition { x: 7, y: 0 }));
    assert_eq!(map.entry_at(1), (String::from("second"), CursorPosition { x: 2, y: 0 }));
}
