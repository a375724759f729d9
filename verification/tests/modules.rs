use avacity::modules::avatar::{AppearanceCommand, Avatar, AvatarCommand, STARTER_COLLECTION};
use avacity::modules::billing::{Billing, BillingCommand, SilverExchange};
use avacity::modules::campaign;
use avacity::modules::chat_decor::{ChatDecor, DecorAction, DecorChoice};
use avacity::modules::component::{Component, ComponentCommand};
use avacity::modules::descriptor::Descriptor;
use avacity::modules::notify;
use avacity::modules::passport::{Passport, PassportCommand, TrophyChoice};
use avacity::modules::player::{Player, PlayerCommand};
use avacity::modules::{
    get_appearance, appearance_record, get_chat_decor, get_city_info, command_segment, get_plr, Appearance, Route, KEY_NOT_FOUND,
    MISSING_FIELD,
};
use avacity::parser::{Catalog, Item};
use avacity::server::{Module, Server};
use avacity::value::{Object, Value, CONVERT_ERROR};
use avacity::world::{PlayerState, World};

fn s(x: &str) -> Value {
    Value::String(x.to_owned())
}

fn obj(pairs: Vec<(&str, Value)>) -> Object {
    let mut o = Object::new();
    for (k, v) in pairs {
        o.insert(k.to_owned(), v);
    }
    o
}

fn command(name: &str, data: Object) -> Vec<Value> {
    vec![s("zone"), s(name), Value::Object(data)]
}

fn item(name: &str, category: &str, gold: i32, silver: i32) -> Item {
    Item { name: name.to_owned(), category: category.to_owned(), gold, silver, rating: 0 }
}

#[test]
fn module_prefixes() {
    assert_eq!(Avatar::new().prefix, "a");
    assert_eq!(Billing::new().prefix, "b");
    assert_eq!(ChatDecor::new().prefix, "chtdc");
    assert_eq!(Component::new().prefix, "cp");
    assert_eq!(Descriptor::new().prefix, "dscr");
    assert_eq!(Passport::new().prefix, "psp");
    assert_eq!(Player::new().prefix, "pl");
}

#[test]
fn server_registers_every_module() {
    let server = Server::new();
    let prefixes: Vec<&str> = server.modules.iter().map(|(p, _)| p.as_str()).collect();
    assert_eq!(prefixes, vec!["h", "a", "b", "o", "cp", "dscr", "frn", "psp", "pl", "chtdc"]);
    for (p, m) in &server.modules {
        assert_eq!(m.prefix(), p.as_str());
    }
    assert!(matches!(server.module("frn"), Some(Module::Furniture(_))));
    assert!(server.module("cm").is_none());
    assert!(server.player_data.players.is_empty());
}

#[test]
fn command_segments() {
    let msg = vec![s("zone"), s("h.r.info")];
    assert!(matches!(command_segment(&msg, 1), Route::Segment(x) if x == "r"));
    assert!(matches!(command_segment(&msg, 2), Route::Segment(x) if x == "info"));
    assert!(matches!(command_segment(&msg, 3), Route::Malformed));
    assert!(matches!(command_segment(&vec![s("zone")], 1), Route::Malformed));
    assert!(matches!(command_segment(&vec![s("zone"), Value::I32(1)], 1), Route::Refused(e) if e == CONVERT_ERROR));
}

#[test]
fn avatar_commands_and_clothes() {
    let a = Avatar::new();
    assert!(matches!(a.command("apprnc"), Some(AvatarCommand::Appearance)));
    assert!(a.command("x").is_none());
    assert!(matches!(a.appearance_command("save"), Some(AppearanceCommand::Save)));
    let boy = a.starter_clothes(1).unwrap();
    assert_eq!(boy.owned, vec!["boyUnderdress1".to_owned()]);
    assert_eq!(boy.worn, vec!["boyShoes8".to_owned(), "boyPants10".to_owned(), "boyShirt14".to_owned()]);
    let girl = a.starter_clothes(2).unwrap();
    assert_eq!(girl.owned.len(), 2);
    assert_eq!(girl.worn[0], "girlShoes14");
    assert!(a.starter_clothes(3).is_none());
    assert_eq!(STARTER_COLLECTION, "casual");
    let apprnc = obj(vec![("n", s("Bob"))]);
    let msg = command("a.apprnc.save", obj(vec![("apprnc", Value::Object(apprnc.copy()))]));
    assert_eq!(a.appearance_request(&msg), Some(&apprnc));
    assert_eq!(a.appearance_request(&command("a.apprnc.save", Object::new())), None);
    assert_eq!(a.saved_reply(apprnc.copy()), vec![s("a.apprnc.save"), Value::Object(obj(vec![("apprnc", Value::Object(apprnc))]))]);
}

fn stored_appearance() -> Vec<String> {
    let mut v = vec!["Bob".to_owned()];
    for i in 1..25 {
        v.push(i.to_string());
    }
    v
}

#[test]
fn appearance_from_store() {
    match get_appearance(&stored_appearance()) {
        Appearance::Found(o) => {
            assert_eq!(o.len(), 25);
            assert_eq!(o.get("n"), Some(&s("Bob")));
            assert_eq!(o.get("nct"), Some(&Value::I32(1)));
            assert_eq!(o.get("g"), Some(&Value::I32(2)));
            assert_eq!(o.get("bc"), Some(&Value::I32(24)));
        },
        _ => panic!("expected an appearance"),
    }
    assert!(matches!(get_appearance(&vec![]), Appearance::Absent));
    let mut short = stored_appearance();
    short.truncate(10);
    assert!(matches!(get_appearance(&short), Appearance::Truncated));
    let mut bad = stored_appearance();
    bad[3] = "x".to_owned();
    assert!(matches!(get_appearance(&bad), Appearance::Invalid));
}

#[test]
fn appearance_to_store() {
    let stored = match get_appearance(&stored_appearance()) {
        Appearance::Found(o) => o,
        _ => panic!("expected an appearance"),
    };
    let (name, values) = appearance_record(&stored).unwrap();
    assert_eq!(name, "Bob");
    assert_eq!(values, (1..25).collect::<Vec<i32>>());
    assert!(appearance_record(&obj(vec![("n", s("Bob"))])).is_none());
}

#[test]
fn billing_packs_and_silver() {
    let b = Billing::new();
    assert!(matches!(b.command("chkprchs"), Some(BillingCommand::CheckPurchase)));
    assert!(matches!(b.command("bs"), Some(BillingCommand::BuySilver)));
    assert_eq!(b.pack_amount("pack30"), 32);
    assert_eq!(b.pack_amount("pack9999"), 13999);
    assert_eq!(b.pack_amount("pack7"), 0);
    assert_eq!(b.purchase_request(&command("b.chkprchs", obj(vec![("prid", s("pack10"))]))), Ok("pack10".to_owned()));
    assert_eq!(b.purchase_request(&command("b.chkprchs", Object::new())), Err(KEY_NOT_FOUND));
    assert_eq!(b.purchase_reply(10), vec![s("b.ingld"), Value::Object(obj(vec![("ingld", Value::I32(10))]))]);
    assert_eq!(b.silver_request(&command("b.bs", obj(vec![("gld", Value::I32(5))]))), Ok(5));
    assert!(matches!(b.buy_silver(5, 10), SilverExchange::Exchange { gold_change: -5, silver: 500 }));
    assert!(matches!(b.buy_silver(11, 10), SilverExchange::Refused));
    assert!(matches!(b.buy_silver(i32::MIN, 0), SilverExchange::Overflow { taken: None }));
    assert!(matches!(b.buy_silver(30_000_000, i32::MAX), SilverExchange::Overflow { taken: Some(-30_000_000) }));
    assert_eq!(b.silver_reply(500), vec![s("b.inslv"), Value::Object(obj(vec![("inslv", Value::I32(500))]))]);
}

#[test]
fn campaigns_message() {
    let m = campaign::new();
    assert_eq!(m[0], s("cm.new"));
    match &m[1] {
        Value::Object(o) => match o.get("campaigns") {
            Some(Value::Vector(cs)) => {
                assert_eq!(cs.len(), 3);
                assert_eq!(cs[0], campaign::professions_campaign());
                assert_eq!(cs[1], campaign::chat_decor_campaign());
                assert_eq!(cs[2], campaign::chat_decor_shop_campaign());
            },
            _ => panic!("expected campaigns"),
        },
        _ => panic!("expected data"),
    }
    match campaign::professions_campaign() {
        Value::Object(o) => {
            assert_eq!(o.get("id"), Some(&Value::I32(114)));
            assert_eq!(o.get("ed"), Some(&Value::Date(1440622800000)));
            match o.get("cil") {
                Some(Value::Vector(items)) => assert_eq!(items.len(), 5),
                _ => panic!("expected entries"),
            }
        },
        _ => panic!("expected a campaign"),
    }
}

#[test]
fn chat_decor_choices_and_prices() {
    let c = ChatDecor::new();
    assert!(c.is_save("schtm"));
    let decor = obj(vec![("bdc", s("bubble1")), ("tcl", Value::Null)]);
    let msg = command("chtdc.schtm", obj(vec![("chtnwbd", Value::Boolean(true)), ("chtnwtc", Value::Boolean(false)), ("chtdc", Value::Object(decor.copy()))]));
    let (b, t, d) = c.decor_request(&msg).unwrap();
    assert!(b && !t);
    assert!(matches!(c.decor_choice(d, "bdc"), Ok(DecorChoice::Wear(x)) if x == "bubble1"));
    assert!(matches!(c.decor_choice(d, "tcl"), Ok(DecorChoice::TakeOff)));
    assert!(matches!(c.decor_choice(&Object::new(), "tcl"), Err(e) if e == MISSING_FIELD));
    let mut catalog = Catalog::new();
    catalog.insert(item("bubble1", "9", 5, 100));
    assert_eq!(c.buy_decor(&catalog, "bubble1", 5, 100), Some((5, 100)));
    assert_eq!(c.buy_decor(&catalog, "bubble1", 4, 100), None);
    assert_eq!(c.buy_decor(&catalog, "bubble2", 50, 100), None);
    assert_eq!(c.saved_reply(), vec![s("chtdc.schtm"), Value::Object(Object::new())]);
}

#[test]
fn chat_and_moderation() {
    let c = Component::new();
    assert!(matches!(c.command("cht"), Some(ComponentCommand::Chat)));
    assert!(matches!(c.command("m"), Some(ComponentCommand::Moderation)));
    assert!(c.is_send_message("sm"));
    assert!(c.is_access_request("ar"));
    let mut w = World::new();
    for u in ["u1", "u2", "u3"] {
        w.insert(u.to_owned(), PlayerState::new());
    }
    w.enter_room("u1", "r_1");
    w.enter_room("u2", "r_1");
    let data = obj(vec![("msg", Value::Object(obj(vec![("sid", s("u1")), ("text", s("hi"))]))), ("rid", s("r_1"))]);
    let msg = command("cp.cht.sm", data.copy());
    let b = c.send_message(&w, "u1", &msg).unwrap().unwrap();
    assert_eq!(b.recipients, vec!["u2".to_owned()]);
    assert_eq!(b.message, vec![s("cp.cht.sm"), Value::Object(data)]);
    assert!(c.send_message(&w, "u2", &msg).unwrap().is_none());
    let ar = command("cp.m.ar", obj(vec![("pvlg", Value::I32(3))]));
    assert_eq!(c.access_request(&ar), Ok(vec![s("cp.m.ar"), Value::Object(obj(vec![("pvlg", Value::I32(3)), ("sccss", Value::Boolean(true))]))]));
    assert_eq!(c.access_request(&command("cp.m.ar", Object::new())), Err(MISSING_FIELD));
}

#[test]
fn descriptor_locations() {
    let d = Descriptor::new();
    assert!(d.is_init("init"));
    let m = d.init();
    assert_eq!(m[0], s("dscr.ldd"));
    match &m[1] {
        Value::Object(o) => {
            assert_eq!(o.get("init"), Some(&Value::Boolean(true)));
            match o.get("outsideLocations") {
                Some(Value::Vector(ls)) => {
                    assert_eq!(ls.len(), 14);
                    assert_eq!(ls[2], d.club());
                },
                _ => panic!("expected locations"),
            }
        },
        _ => panic!("expected data"),
    }
    match d.club() {
        Value::Object(o) => {
            assert_eq!(o.get("id"), Some(&s("club")));
            assert_eq!(o.get("zid"), Some(&s("street")));
            match o.get("rms") {
                Some(Value::Vector(rooms)) => {
                    assert_eq!(rooms.len(), 4);
                    assert_eq!(
                        rooms[2],
                        Value::Object(obj(vec![
                            ("id", s("v1")),
                            ("vip", Value::Boolean(true)),
                            ("uc", s("vip1_map")),
                            ("dc", s("outside")),
                            ("ml", Value::I32(0)),
                            ("bgs", s("vip1")),
                        ]))
                    );
                },
                _ => panic!("expected rooms"),
            }
        },
        _ => panic!("expected a location"),
    }
}

#[test]
fn notices() {
    let res = notify::get_res(10, 2, 5);
    assert_eq!(res, obj(vec![("slvr", Value::I32(10)), ("gld", Value::I32(2)), ("enrg", Value::I32(5)), ("emd", Value::I32(0))]));
    assert_eq!(notify::update_resources(res.copy()), vec![s("ntf.res"), Value::Object(obj(vec![("res", Value::Object(res))]))]);
    let it = obj(vec![("c", Value::I32(3)), ("lid", s("")), ("tid", s("chair"))]);
    assert_eq!(notify::update_item("chair", 3), vec![s("ntf.inv"), Value::Object(obj(vec![("it", Value::Object(it))]))]);
    assert_eq!(notify::update_chat_decor(Value::Null), vec![s("ntf.chtdcm"), Value::Object(obj(vec![("chtdc", Value::Null)]))]);
    assert_eq!(notify::update_city_info(Object::new()), vec![s("ntf.ci"), Value::Object(obj(vec![("ci", Value::Object(Object::new()))]))]);
}

#[test]
fn passport_and_trophies() {
    let p = Passport::new();
    assert!(matches!(p.command("psp"), Some(PassportCommand::Passport)));
    assert!(matches!(p.command("sttrph"), Some(PassportCommand::SetTrophy)));
    let trophies = vec!["t1".to_owned(), "t2".to_owned(), "t1".to_owned()];
    let m = p.passport(&command("psp.psp", obj(vec![("uid", s("u7"))])), &trophies).unwrap();
    let trophy = |t: &str| Value::Object(obj(vec![("trrt", Value::I32(0)), ("trcd", Value::I32(0)), ("trid", s(t))]));
    let tr = obj(vec![("t1", trophy("t1")), ("t2", trophy("t2"))]);
    let ach = obj(vec![("ac", Value::Object(Object::new())), ("tr", Value::Object(tr))]);
    let psp = obj(vec![("uid", s("u7")), ("rel", Value::Object(Object::new())), ("ach", Value::Object(ach))]);
    assert_eq!(m, vec![s("psp.psp"), Value::Object(obj(vec![("psp", Value::Object(psp))]))]);
    let (choice, reply) = p.set_trophy(&command("psp.sttrph", obj(vec![("trid", s("t2"))]))).unwrap();
    assert!(matches!(choice, TrophyChoice::Show(x) if x == "t2"));
    assert_eq!(reply, vec![s("psp.sttrph"), Value::Object(obj(vec![("trid", s("t2"))]))]);
    let (choice, _) = p.set_trophy(&command("psp.sttrph", obj(vec![("trid", Value::Null)]))).unwrap();
    assert!(matches!(choice, TrophyChoice::Hide));
    assert!(p.set_trophy(&command("psp.sttrph", Object::new())).is_err());
}

#[test]
fn players_by_id_and_follow() {
    let p = Player::new();
    assert!(matches!(p.command("gid"), Some(PlayerCommand::PlayersById)));
    assert!(matches!(p.command("flw"), Some(PlayerCommand::Follow)));
    let req = command("pl.gid", obj(vec![("uids", Value::Vector(vec![s("a"), s("b")])), ("clid", s("c1"))]));
    assert_eq!(p.players_request(&req), Ok((vec!["a".to_owned(), "b".to_owned()], "c1".to_owned())));
    let bad = command("pl.gid", obj(vec![("uids", Value::Vector(vec![s("a"), Value::I32(2)])), ("clid", s("c1"))]));
    assert_eq!(p.players_request(&bad), Err(CONVERT_ERROR));
    assert_eq!(p.players_reply(vec![], "c1".to_owned()), vec![s("pl.get"), Value::Object(obj(vec![("plrs", Value::Vector(vec![])), ("clid", s("c1"))]))]);
    let mut w = World::new();
    w.insert("a".to_owned(), PlayerState::new());
    let offline = p.follow(&w, &command("pl.flw", obj(vec![("uid", s("b"))]))).unwrap();
    assert_eq!(offline, vec![s("pl.flw"), Value::Object(obj(vec![("scs", s("userOffline")), ("locinfo", Value::Null)]))]);
    let online = p.follow(&w, &command("pl.flw", obj(vec![("uid", s("a"))]))).unwrap();
    match &online[1] {
        Value::Object(o) => assert_eq!(o.get("scs"), Some(&s("success"))),
        _ => panic!("expected data"),
    }
}

#[test]
fn player_description() {
    let ci = get_city_info(10, 2, 3, 4, Some("tr1".to_owned()));
    assert_eq!(ci.len(), 45);
    assert_eq!(ci.get("exp"), Some(&Value::I32(10)));
    assert_eq!(ci.get("lvt"), Some(&Value::I32(4)));
    assert_eq!(ci.get("trid"), Some(&s("tr1")));
    assert_eq!(get_city_info(0, 0, 0, 0, None).get("trid"), Some(&Value::Null));
    let chtdcm = get_chat_decor(Some("b1".to_owned()), None);
    assert_eq!(chtdcm, Value::Object(obj(vec![("bdc", s("b1")), ("tcl", Value::Null), ("spks", Value::Null)])));
    let plr = get_plr("u1", Object::new(), Object::new(), Value::Null, chtdcm, 2, ci);
    assert_eq!(plr.len(), 8);
    assert_eq!(plr.get("uid"), Some(&s("u1")));
    assert_eq!(plr.get("usrinf"), Some(&Value::Object(obj(vec![("rl", Value::I32(2))]))));
    match plr.get("pf") {
        Some(Value::Object(pf)) => match pf.get("pf") {
            Some(Value::Object(ps)) => {
                assert_eq!(ps.len(), 4);
                assert_eq!(ps.get("jntr"), Some(&Value::Object(obj(vec![("tp", s("jntr")), ("l", Value::I32(20)), ("pgs", Value::I32(0))]))));
            },
            _ => panic!("expected professions"),
        },
        _ => panic!("expected professions"),
    }
}

#[test]
fn chat_decor_save_steps() {
    let c = ChatDecor::new();
    let both = c.decor_parts(true, true);
    assert_eq!(both.len(), 2);
    assert_eq!((both[0].key, both[0].store_key), ("bdc", "bubble"));
    assert_eq!((both[1].key, both[1].store_key), ("tcl", "text_color"));
    let text_only = c.decor_parts(false, true);
    assert_eq!(text_only.len(), 1);
    assert_eq!(text_only[0].key, "tcl");
    assert!(c.decor_parts(false, false).is_empty());
    assert!(matches!(c.decor_action(DecorChoice::Wear("b1".to_owned()), true), DecorAction::Put(x) if x == "b1"));
    assert!(matches!(c.decor_action(DecorChoice::Wear("b1".to_owned()), false), DecorAction::Buy(x) if x == "b1"));
    assert!(matches!(c.decor_action(DecorChoice::TakeOff, false), DecorAction::Clear));
}

#[test]
fn object_and_catalog_keep_keys_distinct() {
    let mut o = Object::new();
    o.insert("a".to_owned(), Value::I32(1));
    o.insert("b".to_owned(), Value::I32(2));
    o.insert("a".to_owned(), Value::I32(3));
    assert_eq!(o.len(), 2);
    assert_eq!(o.get("a"), Some(&Value::I32(3)));
    let mut catalog = Catalog::new();
    catalog.insert(item("x", "1", 1, 1));
    catalog.insert(item("x", "2", 2, 2));
    assert_eq!(catalog.items.len(), 1);
    assert_eq!(catalog.items[0].category, "2");
}
