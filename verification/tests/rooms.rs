use avacity::modules::furniture::{Furniture, FurnitureCommand, FurnitureOp, Purchase, SaveRequest, THIRTEEN_BITS};
use avacity::modules::house::{get_room, join3, House, HouseCommand};
use avacity::modules::outside::{Outside, OutsideCommand, PLAYER_LIMIT};
use avacity::modules::{StoreRead, KEY_NOT_FOUND, MISSING_FIELD, NOT_A_NUMBER};
use avacity::parser::{Catalog, Item};
use avacity::value::{Object, Value, CONVERT_ERROR};
use avacity::world::{PlayerState, World};

fn s(x: &str) -> Value {
    Value::String(x.to_owned())
}

fn obj(pairs: Vec<(&str, Value)>) -> Object {
    let mut o = Object::new();
    for (k, v) in pairs {
        o.insert(k.to_owned(), v);
    }
    o
}

fn command(first: &str, name: &str, data: Object) -> Vec<Value> {
    vec![s(first), s(name), Value::Object(data)]
}

fn item(name: &str, category: &str, gold: i32, silver: i32) -> Item {
    Item { name: name.to_owned(), category: category.to_owned(), gold, silver, rating: 0 }
}

fn catalog() -> Catalog {
    let mut c = Catalog::new();
    c.insert(item("wall1", "1", 1, 10));
    c.insert(item("wall2", "1", 2, 20));
    c.insert(item("floor1", "4", 0, 5));
    c.insert(item("chair", "7", 3, 0));
    c
}

#[test]
fn house_commands_and_info() {
    let h = House::new();
    assert_eq!(h.prefix, "h");
    assert!(matches!(h.command("minfo"), Some(HouseCommand::MyInfo)));
    assert!(matches!(h.command("gr"), Some(HouseCommand::GetRoom)));
    assert!(matches!(h.command("r"), Some(HouseCommand::Room)));
    assert!(h.command("zz").is_none());
    assert!(h.is_room_info("info"));
    assert!(!h.is_room_info("u"));
    assert_eq!(h.my_info_request(&command("z", "h.minfo", obj(vec![("onl", Value::Boolean(true))]))), Ok(true));
    assert_eq!(h.my_info_request(&command("z", "h.minfo", Object::new())), Err(MISSING_FIELD));
    assert_eq!(h.my_info_online(), vec![s("h.minfo"), Value::Object(obj(vec![("scs", Value::Boolean(true))]))]);
    assert_eq!(h.my_info_no_avatar(), vec![s("h.minfo"), Value::Object(obj(vec![("has.avtr", Value::Boolean(false))]))]);
    let plr = obj(vec![("uid", s("u1"))]);
    let res = obj(vec![("gld", Value::I32(1))]);
    let m = h.my_info(plr, res.copy(), vec![Value::I32(9)], Object::new(), Object::new());
    let hs = obj(vec![("r", Value::Vector(vec![Value::I32(9)])), ("lt", Value::I32(0))]);
    let expected = obj(vec![
        ("uid", s("u1")),
        ("res", Value::Object(res)),
        ("hs", Value::Object(hs)),
        ("inv", Value::Object(Object::new())),
        ("cs", Value::Object(Object::new())),
    ]);
    assert_eq!(m, vec![s("h.minfo"), Value::Object(obj(vec![("plr", Value::Object(expected)), ("tm", Value::I32(1))]))]);
}

#[test]
fn house_rooms() {
    let h = House::new();
    let req = command("z", "h.gr", obj(vec![("lid", s("house")), ("gid", s("u1")), ("rid", s("livingroom"))]));
    assert_eq!(h.room_request(&req), Ok("house_u1_livingroom".to_owned()));
    assert_eq!(h.room_request(&command("z", "h.gr", obj(vec![("lid", s("house"))]))), Err(KEY_NOT_FOUND));
    assert_eq!(h.room_reply("x_y_z".to_owned()), vec![s("h.gr"), Value::Object(obj(vec![("rid", s("x_y_z"))]))]);
    assert_eq!(join3("a", "b", "c"), "a_b_c");
    let mut w = World::new();
    w.insert("u1".to_owned(), PlayerState::new());
    w.insert("u2".to_owned(), PlayerState::new());
    w.enter_room("u2", "house_u1_r1");
    let info = command("z", "h.r.info", obj(vec![("uid", s("u1")), ("rid", s("r1"))]));
    assert_eq!(h.room_info_request(&w, &info), Ok(("u1".to_owned(), "r1".to_owned(), vec!["u2".to_owned()])));
    let rm = obj(vec![("id", s("r1"))]);
    assert_eq!(
        h.room_info(rm.copy(), vec![]),
        vec![s("h.r.info"), Value::Object(obj(vec![("rm", Value::Object(rm)), ("rmmb", Value::Vector(vec![])), ("evn", Value::Null)]))]
    );
}

#[test]
fn stored_rooms() {
    let data = vec!["Living room".to_owned(), "2".to_owned()];
    let items = vec![("chair_5".to_owned(), vec![("x".to_owned(), "1.5".to_owned()), ("lid".to_owned(), "9".to_owned())])];
    match get_room("r1", &data, &items) {
        StoreRead::Found(o) => {
            let f = obj(vec![("tpid", s("chair")), ("lid", s("9")), ("x", s("1.5"))]);
            let expected = obj(vec![
                ("w", Value::I32(13)),
                ("id", s("r1")),
                ("lev", Value::I32(2)),
                ("l", Value::I32(13)),
                ("nm", s("Living room")),
                ("f", Value::Vector(vec![Value::Object(f)])),
            ]);
            assert_eq!(o, expected);
        },
        _ => panic!("expected a room"),
    }
    assert!(matches!(get_room("r1", &vec!["only".to_owned()], &vec![]), StoreRead::Malformed));
    assert!(matches!(get_room("r1", &vec!["n".to_owned(), "x".to_owned()], &vec![]), StoreRead::NotANumber));
    let no_id = vec![("chair".to_owned(), vec![])];
    assert!(matches!(get_room("r1", &data, &no_id), StoreRead::Malformed));
    let bad_id = vec![("chair_x".to_owned(), vec![])];
    assert!(matches!(get_room("r1", &data, &bad_id), StoreRead::NotANumber));
}

#[test]
fn outside_rooms() {
    let o = Outside::new();
    assert_eq!(o.prefix, "o");
    assert!(matches!(o.command("gr"), Some(OutsideCommand::GetRoom)));
    assert!(matches!(o.command("r"), Some(OutsideCommand::Room)));
    assert!(o.is_room_info("info"));
    let named = command("z", "o.gr", obj(vec![("lid", s("yard")), ("gid", s("street")), ("rid", s("3"))]));
    assert_eq!(o.room_request(&named), Ok(("yard".to_owned(), "street".to_owned(), Some(3))));
    let search = command("z", "o.gr", obj(vec![("lid", s("yard")), ("gid", s("street"))]));
    assert_eq!(o.room_request(&search), Ok(("yard".to_owned(), "street".to_owned(), None)));
    let bad = command("z", "o.gr", obj(vec![("lid", s("yard")), ("gid", s("street")), ("rid", s("three"))]));
    assert_eq!(o.room_request(&bad), Err(NOT_A_NUMBER));
    assert_eq!(o.numbered_room("yard", "street", -4), "yard_street_-4");
    let mut w = World::new();
    assert_eq!(o.pick_room(&w, "yard", "street"), Some("yard_street_1".to_owned()));
    for i in 0..PLAYER_LIMIT + 1 {
        let u = format!("u{}", i);
        w.insert(u.clone(), PlayerState::new());
        w.enter_room(&u, "yard_street_1");
    }
    assert_eq!(o.pick_room(&w, "yard", "street"), None);
    let info = vec![s("yard_street_1"), s("o.r.info")];
    let (room, players) = o.room_info_request(&w, &info).unwrap();
    assert_eq!(room, "yard_street_1");
    assert_eq!(players.len(), PLAYER_LIMIT + 1);
    assert_eq!(o.room_info(vec![]), vec![s("o.r.info"), Value::Object(obj(vec![("rmmb", Value::Vector(vec![])), ("evn", Value::Null)]))]);
    assert_eq!(o.room_reply("r".to_owned()), vec![s("o.gr"), Value::Object(obj(vec![("rid", s("r"))]))]);
}

#[test]
fn furniture_requests() {
    let f = Furniture::new();
    assert_eq!(f.prefix, "frn");
    assert!(matches!(f.command("save"), Some(FurnitureCommand::Save)));
    assert!(matches!(f.command("buy"), Some(FurnitureCommand::Buy)));
    assert!(matches!(f.command("rnmrm"), Some(FurnitureCommand::RenameRoom)));
    let change = Value::Object(obj(vec![("t", Value::I32(0)), ("tpid", s("chair")), ("oid", Value::I32(4))]));
    let msg = vec![s("house_u1_r1"), s("frn.save"), Value::Object(obj(vec![("f", Value::Vector(vec![change.copy()]))]))];
    match f.save_request(&msg) {
        SaveRequest::Save(room, items) => {
            assert_eq!(room, "r1");
            assert_eq!(items.len(), 1);
        },
        _ => panic!("expected a save"),
    }
    let short = vec![s("house_u1"), s("frn.save"), Value::Object(Object::new())];
    assert!(matches!(f.save_request(&short), SaveRequest::Malformed));
    let no_list = vec![s("house_u1_r1"), s("frn.save"), Value::Object(Object::new())];
    assert!(matches!(f.save_request(&no_list), SaveRequest::Refused(e) if e == MISSING_FIELD));
    assert!(matches!(f.furniture_op(&change), Ok(Some((FurnitureOp::Add, _)))));
    let other = Value::Object(obj(vec![("t", Value::I32(3))]));
    assert!(matches!(f.furniture_op(&other), Ok(None)));
    assert!(matches!(f.furniture_op(&Value::Null), Err(e) if e == CONVERT_ERROR));
    let o = obj(vec![("tpid", s("chair")), ("oid", Value::I32(4))]);
    assert_eq!(f.item_key(&o), Ok(("chair".to_owned(), 4)));
}

#[test]
fn furniture_replacements() {
    let f = Furniture::new();
    let names = vec!["wall1_1".to_owned(), "wall1_2".to_owned(), "chair_3".to_owned(), "wall2_4".to_owned(), "lamp_5".to_owned()];
    assert_eq!(
        f.replaced_items(&catalog(), "1", &names),
        vec![("wall1_1".to_owned(), "wall1".to_owned()), ("wall2_4".to_owned(), "wall2".to_owned())]
    );
    assert_eq!(f.replaced_items(&catalog(), "4", &names), vec![]);
}

#[test]
fn furniture_placements() {
    let f = Furniture::new();
    let base = obj(vec![("t", Value::I32(0)), ("tpid", s("wall1")), ("oid", Value::I32(7))]);
    let wall = f.placements(&base, "1", 7);
    assert!(!wall.overflow);
    assert_eq!(wall.items.len(), 2);
    let first = obj(vec![
        ("t", Value::I32(0)),
        ("tpid", s("wall1")),
        ("oid", Value::I32(7)),
        ("x", Value::F64(0)),
        ("y", Value::F64(0)),
        ("z", Value::F64(0)),
        ("d", Value::I32(3)),
    ]);
    assert_eq!(wall.items[0], first);
    assert_eq!(wall.items[1].get("x"), Some(&Value::F64(THIRTEEN_BITS)));
    assert_eq!(f64::from_bits(THIRTEEN_BITS), 13.0);
    assert_eq!(wall.items[1].get("d"), Some(&Value::I32(5)));
    assert_eq!(wall.items[1].get("oid"), Some(&Value::I32(8)));
    let floor = f.placements(&base, "4", 7);
    assert_eq!(floor.items.len(), 1);
    assert_eq!(floor.items[0].get("d"), Some(&Value::I32(5)));
    assert!(f.placements(&base, "9", 7).items.is_empty());
    let edge = f.placements(&base, "1", i32::MAX);
    assert!(edge.overflow);
    assert_eq!(edge.items.len(), 1);
}

#[test]
fn furniture_records() {
    let f = Furniture::new();
    let placed = obj(vec![
        ("tpid", s("door")),
        ("oid", Value::I32(2)),
        ("x", Value::F64(1)),
        ("y", Value::F64(2)),
        ("z", Value::F64(3)),
        ("d", Value::I32(4)),
        ("rid", s("kitchen")),
    ]);
    let r = f.placement_record(&placed).unwrap();
    assert_eq!(r.address, "door_2");
    assert_eq!(r.position, (1, 2, 3));
    assert_eq!(r.direction, 4);
    assert_eq!(r.rid, Some("kitchen".to_owned()));
    assert_eq!(f.move_record(&placed).unwrap().rid, None);
    let mut no_z = placed.copy();
    no_z.entries.retain(|(k, _)| k != "z");
    assert!(matches!(f.placement_record(&no_z), Err(e) if e == MISSING_FIELD));
}

#[test]
fn furniture_purchases() {
    let f = Furniture::new();
    let req = vec![s("z"), s("frn.buy"), Value::Object(obj(vec![("tpid", s("chair")), ("cnt", Value::I32(2))]))];
    assert_eq!(f.buy_request(&req), Ok(("chair".to_owned(), 2)));
    let c = catalog();
    assert!(matches!(f.buy(&c, "chair", 2, 6, 0), Purchase::Pay { gold: -6, silver: 0 }));
    assert!(matches!(f.buy(&c, "chair", 3, 6, 0), Purchase::Refused));
    assert!(matches!(f.buy(&c, "sofa", 1, 100, 100), Purchase::NotForSale));
    assert!(matches!(f.buy(&c, "chair", i32::MAX, i32::MAX, 0), Purchase::Overflow { taken: None }));
    let rename = vec![s("z"), s("frn.rnmrm"), Value::Object(obj(vec![("id", s("r1")), ("nm", s("Den"))]))];
    assert_eq!(f.rename_request(&rename), Ok(("r1".to_owned(), "Den".to_owned())));
    assert!(f.has_room(&vec!["r0".to_owned(), "r1".to_owned()], "r1"));
    assert!(!f.has_room(&vec!["r0".to_owned()], "r1"));
    assert_eq!(f.rename_reply("r1".to_owned(), "Den".to_owned()), vec![s("frn.rnmrm"), Value::Object(obj(vec![("id", s("r1")), ("nm", s("Den"))]))]);
    assert_eq!(
        f.save_reply(Object::new(), Object::new(), Object::new()),
        vec![s("frn.save"), Value::Object(obj(vec![("inv", Value::Object(Object::new())), ("ci", Value::Object(Object::new())), ("hs", Value::Object(Object::new()))]))]
    );
}

#[test]
fn furniture_category_before_taking() {
    let f = Furniture::new();
    assert_eq!(f.add_category(&catalog(), "wall2"), Some("1".to_owned()));
    assert_eq!(f.add_category(&catalog(), "chair"), Some("7".to_owned()));
    assert_eq!(f.add_category(&catalog(), "sofa"), None);
}
