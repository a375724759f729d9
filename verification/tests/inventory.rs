use avacity::inventory::{
    add_item, check_conflicts, collections, get, get_all_collections, get_clths, get_collection, has_confict, kinds, take_item, AddPlan,
    TakePlan, UNKNOWN_CLOTH,
};
use avacity::modules::StoreRead;
use avacity::parser::{Catalog, Item};
use avacity::value::{Object, Value};

fn s(x: &str) -> Value {
    Value::String(x.to_owned())
}

fn obj(pairs: Vec<(&str, Value)>) -> Object {
    let mut o = Object::new();
    for (k, v) in pairs {
        o.insert(k.to_owned(), v);
    }
    o
}

fn cloth(name: &str, category: &str) -> Item {
    Item { name: name.to_owned(), category: category.to_owned(), gold: 0, silver: 0, rating: 0 }
}

fn clothes() -> Catalog {
    let mut c = Catalog::new();
    c.insert(cloth("shirt1", "shirts"));
    c.insert(cloth("shirt2", "shirts"));
    c.insert(cloth("dress1", "dresses"));
    c.insert(cloth("pants1", "pants"));
    c.insert(cloth("hat1", "hats"));
    c
}

fn conflicts() -> Vec<(String, String)> {
    vec![("dresses".to_owned(), "pants".to_owned()), ("shirts".to_owned(), "dresses".to_owned())]
}

#[test]
fn conflicts_between_clothes() {
    let c = conflicts();
    assert!(has_confict(&cloth("a", "shirts"), &cloth("b", "shirts"), &c));
    assert!(has_confict(&cloth("a", "pants"), &cloth("b", "dresses"), &c));
    assert!(has_confict(&cloth("a", "dresses"), &cloth("b", "pants"), &c));
    assert!(!has_confict(&cloth("a", "hats"), &cloth("b", "pants"), &c));
    assert!(!has_confict(&cloth("a", "hats"), &cloth("b", "shirts"), &vec![]));
}

#[test]
fn wearing_a_cloth_takes_off_what_conflicts() {
    let worn = vec!["shirt1_3".to_owned(), "hat1".to_owned(), "pants1".to_owned()];
    let r = check_conflicts(&clothes(), "dress1_2", &worn, &conflicts());
    assert_eq!(r.removed, vec!["shirt1_3".to_owned(), "pants1".to_owned()]);
    assert_eq!(r.error, None);
    let r = check_conflicts(&clothes(), "cape1", &worn, &conflicts());
    assert!(r.removed.is_empty());
    assert_eq!(r.error, Some(UNKNOWN_CLOTH));
    let odd = vec!["shirt2".to_owned(), "mystery".to_owned(), "pants1".to_owned()];
    let r = check_conflicts(&clothes(), "dress1", &odd, &conflicts());
    assert_eq!(r.removed, vec!["shirt2".to_owned()]);
    assert_eq!(r.error, Some("err"));
}

#[test]
fn adding_and_taking_items() {
    assert!(matches!(add_item(None, "frn", 2), AddPlan::Create));
    assert!(matches!(add_item(Some(3), "frn", 2), AddPlan::SetCount(5)));
    assert!(matches!(add_item(Some(1), "cls", 1), AddPlan::Unchanged));
    assert!(matches!(add_item(Some(i32::MAX), "gm", 1), AddPlan::Overflow));
    assert!(matches!(take_item(None, 1), TakePlan::Refused));
    assert!(matches!(take_item(Some(1), 2), TakePlan::Refused));
    assert!(matches!(take_item(Some(2), 2), TakePlan::Remove));
    assert!(matches!(take_item(Some(5), 2), TakePlan::SetCount(3)));
    assert!(matches!(take_item(Some(i32::MAX), -1), TakePlan::Overflow));
}

#[test]
fn worn_clothes() {
    let o = get_clths(&vec!["shirt1_3".to_owned(), "hat1".to_owned(), "a_b_c".to_owned()]);
    let items = vec![
        Value::Object(obj(vec![("tpid", s("shirt1")), ("clid", s("3"))])),
        Value::Object(obj(vec![("tpid", s("hat1")), ("clid", Value::Null)])),
        Value::Object(obj(vec![("tpid", s("a")), ("clid", Value::Null)])),
    ];
    assert_eq!(o, obj(vec![("clths", Value::Vector(items))]));
}

#[test]
fn clothes_collections() {
    let c = get_collection("club", &vec!["shirt1_3".to_owned(), "hat1".to_owned(), "a_b_c".to_owned()]);
    assert_eq!(
        c,
        obj(vec![("cct", Value::Vector(vec![s("shirt1_3"), s("hat1"), s("a")])), ("ctp", s("club")), ("cn", s(""))])
    );
    assert_eq!(collections(), vec!["casual", "club", "official", "swimwear", "underdress"]);
    let sets = vec![vec!["x_1".to_owned()], vec![], vec![], vec![], vec![]];
    let all = get_all_collections(&sets, "casual".to_owned());
    assert_eq!(all.get("cc"), Some(&s("casual")));
    match all.get("ccltns") {
        Some(Value::Object(cs)) => {
            assert_eq!(cs.len(), 5);
            assert_eq!(cs.entries[0].0, "casual");
            assert_eq!(cs.get("casual"), Some(&Value::Object(get_collection("casual", &sets[0]))));
            assert_eq!(cs.entries[4].0, "underdress");
        },
        _ => panic!("expected collections"),
    }
}

#[test]
fn inventory_by_kind() {
    let items = vec![
        ("chair".to_owned(), vec!["frn".to_owned(), "2".to_owned()]),
        ("shirt1_3".to_owned(), vec!["cls".to_owned(), "1".to_owned()]),
        ("hat1".to_owned(), vec!["cls".to_owned(), "1".to_owned()]),
        ("bubble".to_owned(), vec!["gm".to_owned(), "1".to_owned()]),
    ];
    let worn = vec!["hat1".to_owned()];
    match get(&items, &worn) {
        StoreRead::Found(o) => {
            let entry = |c: i32, tid: &str, iid: &str| Value::Object(obj(vec![("c", Value::I32(c)), ("tid", s(tid)), ("iid", s(iid))]));
            let kind = |id: &str, it: Vec<Value>| Value::Object(obj(vec![("id", s(id)), ("it", Value::Vector(it))]));
            let c = obj(vec![
                ("frn", kind("frn", vec![entry(2, "chair", "")])),
                ("act", kind("act", vec![])),
                ("gm", kind("gm", vec![entry(1, "bubble", "")])),
                ("lt", kind("lt", vec![])),
                ("cls", kind("cls", vec![entry(1, "shirt1", "3")])),
            ]);
            assert_eq!(o, obj(vec![("c", Value::Object(c))]));
        },
        _ => panic!("expected an inventory"),
    }
    assert_eq!(kinds(), vec!["frn", "act", "gm", "lt", "cls"]);
    let short = vec![("chair".to_owned(), vec!["frn".to_owned()])];
    assert!(matches!(get(&short, &vec![]), StoreRead::Malformed));
    let bad_count = vec![("chair".to_owned(), vec!["frn".to_owned(), "two".to_owned()])];
    assert!(matches!(get(&bad_count, &vec![]), StoreRead::NotANumber));
    let bad_kind = vec![("chair".to_owned(), vec!["toy".to_owned(), "2".to_owned()])];
    assert!(matches!(get(&bad_kind, &vec![]), StoreRead::Malformed));
}
