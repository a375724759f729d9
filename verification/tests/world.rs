use avacity::modules::location::{
    action, get_prefix, join_notice, join_room, leave_notice, leave_room, read_move, refresh_avatar, refresh_notice, room_command,
    room_event, update_state, RoomCommand, REFRESH_ERROR,
};
use avacity::modules::{get_location, NOT_ONLINE};
use avacity::value::{Object, Value, CONVERT_ERROR};
use avacity::world::{PlayerState, World, MINUS_ONE_BITS};

fn s(x: &str) -> Value {
    Value::String(x.to_owned())
}

fn world_of(uids: &[&str]) -> World {
    let mut w = World::new();
    for u in uids {
        w.insert(u.to_string(), PlayerState::new());
    }
    w
}

fn move_data(uid: &str, x: f64, at: Option<&str>) -> Object {
    let mut d = Object::new();
    d.insert("uid".to_owned(), s(uid));
    d.insert("x".to_owned(), Value::F64(x.to_bits()));
    d.insert("y".to_owned(), Value::F64(99.0f64.to_bits()));
    d.insert("d".to_owned(), Value::I32(2));
    d.insert("st".to_owned(), Value::I32(1));
    if let Some(a) = at {
        d.insert("at".to_owned(), s(a));
    }
    d
}

#[test]
fn prefixes_of_rooms() {
    assert_eq!(get_prefix("house_u1_1"), "h");
    assert_eq!(get_prefix("work_office"), "w");
    assert_eq!(get_prefix("yard_street_1"), "o");
    assert_eq!(get_prefix("house"), "h");
    assert_eq!(get_prefix(""), "o");
}

#[test]
fn world_insert_get_remove() {
    let mut w = world_of(&["a", "b"]);
    assert!(w.contains("a"));
    assert!(!w.contains("c"));
    let mut p = PlayerState::new();
    p.direction = 7;
    w.insert("a".to_owned(), p);
    assert_eq!(w.players.len(), 2);
    assert_eq!(w.get("a").unwrap().direction, 7);
    w.remove("a");
    assert!(!w.contains("a"));
    assert_eq!(w.players.len(), 1);
}

#[test]
fn joining_rooms_notifies_everyone_inside() {
    let mut w = world_of(&["u1", "u2", "u3"]);
    assert_eq!(join_room(&mut w, "u1", "house_u1_1"), Ok(vec!["u1".to_owned()]));
    assert_eq!(join_room(&mut w, "u2", "house_u1_1"), Ok(vec!["u1".to_owned(), "u2".to_owned()]));
    let p = w.get("u2").unwrap();
    assert_eq!(p.room, "house_u1_1");
    assert_eq!(p.position, (MINUS_ONE_BITS, MINUS_ONE_BITS));
    assert_eq!(f64::from_bits(MINUS_ONE_BITS), -1.0);
    assert_eq!(p.direction, 4);
    assert_eq!(join_room(&mut w, "nobody", "house_u1_1"), Err(NOT_ONLINE));
}

#[test]
fn leaving_rooms() {
    let mut w = world_of(&["u1", "u2"]);
    join_room(&mut w, "u1", "yard_a_1").unwrap();
    join_room(&mut w, "u2", "yard_a_1").unwrap();
    assert_eq!(leave_room(&mut w, "u1"), Ok(Some(("yard_a_1".to_owned(), vec!["u2".to_owned()]))));
    assert_eq!(w.get("u1").unwrap().room, "");
    assert_eq!(leave_room(&mut w, "u1"), Ok(None));
    assert_eq!(leave_room(&mut w, "ghost"), Err(NOT_ONLINE));
}

#[test]
fn room_notices() {
    let mut plr = Object::new();
    plr.insert("uid".to_owned(), s("u1"));
    let mut data = Object::new();
    data.insert("plr".to_owned(), Value::Object(plr.copy()));
    assert_eq!(join_notice("house_u1_1", plr.copy()), vec![s("h.r.jn"), Value::Object(data.copy())]);
    assert_eq!(refresh_notice("yard_x_2", plr), vec![s("o.r.ra"), Value::Object(data)]);
    let mut lv = Object::new();
    lv.insert("uid".to_owned(), s("u1"));
    assert_eq!(leave_notice("work_1", "u1"), vec![s("w.r.lv"), Value::Object(lv)]);
    assert_eq!(room_event("house_u1_1", "u1"), vec![s("house_u1_1"), s("u1")]);
}

#[test]
fn room_commands() {
    assert!(matches!(room_command("ra"), Some(RoomCommand::RefreshAvatar)));
    assert!(matches!(room_command("u"), Some(RoomCommand::Update)));
    assert!(matches!(room_command("m"), Some(RoomCommand::Action)));
    assert!(room_command("x").is_none());
}

#[test]
fn refresh_goes_to_the_room() {
    let mut w = world_of(&["u1", "u2", "u3"]);
    join_room(&mut w, "u1", "r_1").unwrap();
    join_room(&mut w, "u3", "r_1").unwrap();
    assert_eq!(refresh_avatar(&w, "u1"), Ok(("r_1".to_owned(), vec!["u1".to_owned(), "u3".to_owned()])));
    assert_eq!(refresh_avatar(&w, "zz"), Err(REFRESH_ERROR));
}

#[test]
fn moves_are_recorded_and_passed_on() {
    let mut w = world_of(&["u1", "u2"]);
    join_room(&mut w, "u1", "r_1").unwrap();
    join_room(&mut w, "u2", "r_1").unwrap();
    let msg = vec![s("r_1"), s("o.r.u"), Value::Object(move_data("u1", 3.5, Some("sit")))];
    let b = update_state(&mut w, "u1", &msg).unwrap().unwrap();
    assert_eq!(b.recipients, vec!["u2".to_owned()]);
    assert_eq!(b.message, vec![s("o.r.u"), Value::Object(move_data("u1", 3.5, Some("sit")))]);
    let p = w.get("u1").unwrap();
    assert_eq!(p.position, (3.5f64.to_bits(), 3.5f64.to_bits()));
    assert_eq!(p.direction, 2);
    assert_eq!(p.state, 1);
    assert_eq!(p.action_tag, "sit");
    assert_eq!(p.room, "r_1");
}

#[test]
fn moves_without_tag_or_of_others() {
    let mut w = world_of(&["u1"]);
    let msg = vec![s("r_1"), s("o.r.u"), Value::Object(move_data("u1", 1.0, None))];
    let mv = read_move("u1", &msg).unwrap().unwrap();
    assert_eq!(mv.action_tag, "");
    assert_eq!(mv.room, "r_1");
    let fake = vec![s("r_1"), s("o.r.u"), Value::Object(move_data("u2", 1.0, None))];
    assert!(update_state(&mut w, "u1", &fake).unwrap().is_none());
    let stranger = vec![s("r_1"), s("o.r.u"), Value::Object(move_data("u9", 1.0, None))];
    assert_eq!(update_state(&mut w, "u9", &stranger).err(), Some(NOT_ONLINE));
    let bad = vec![s("r_1"), s("o.r.u"), Value::I32(1)];
    assert_eq!(read_move("u1", &bad).err(), Some(CONVERT_ERROR));
    let mut missing = move_data("u1", 1.0, None);
    missing.entries.retain(|(k, _)| k != "d");
    let msg2 = vec![s("r_1"), s("o.r.u"), Value::Object(missing)];
    assert_eq!(read_move("u1", &msg2).err(), Some("err"));
}

#[test]
fn actions_go_to_the_others() {
    let mut w = world_of(&["u1", "u2", "u3"]);
    join_room(&mut w, "u1", "r_1").unwrap();
    join_room(&mut w, "u2", "r_1").unwrap();
    let mut d = Object::new();
    d.insert("uid".to_owned(), s("u1"));
    let msg = vec![s("r_1"), s("o.r.m"), Value::Object(d.copy())];
    let b = action(&w, "u1", &msg).unwrap().unwrap();
    assert_eq!(b.recipients, vec!["u2".to_owned()]);
    assert_eq!(b.message, vec![s("o.r.m"), Value::Object(d)]);
    assert!(action(&w, "u2", &msg).unwrap().is_none());
}

#[test]
fn location_of_players() {
    let mut w = world_of(&["u1"]);
    assert_eq!(get_location("u2", &w), Value::Null);
    join_room(&mut w, "u1", "r_1").unwrap();
    match get_location("u1", &w) {
        Value::Object(o) => {
            assert_eq!(o.len(), 9);
            assert_eq!(o.get("l"), Some(&s("r_1")));
            assert_eq!(o.get("d"), Some(&Value::I32(4)));
            assert_eq!(o.get("s"), Some(&s("127.0.0.1")));
            assert_eq!(o.get("shlc"), Some(&Value::Boolean(true)));
        },
        _ => panic!("expected a location"),
    }
}

#[test]
fn rooms_route_by_their_first_piece() {
    assert_eq!(get_prefix("house_"), "h");
    assert_eq!(get_prefix("house_a_b_c"), "h");
    assert_eq!(get_prefix("work_"), "w");
    assert_eq!(get_prefix("houses_1"), "o");
    assert_eq!(get_prefix("street"), "o");
}

#[test]
fn players_keep_distinct_ids() {
    let mut w = World::new();
    w.insert("1".to_owned(), PlayerState::new());
    w.insert("2".to_owned(), PlayerState::new());
    w.insert("1".to_owned(), PlayerState::new());
    assert_eq!(w.players.len(), 2);
    assert!(w.enter_room("1", "r"));
    assert!(w.leave_room("1").is_some());
    w.remove("1");
    assert!(!w.contains("1"));
    assert_eq!(w.players.len(), 1);
}
