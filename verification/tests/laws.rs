use avacity::framing::{frame, next_frame, FrameStep};
use avacity::inventory::{add_item, has_confict, take_item, AddPlan, TakePlan};
use avacity::modules::billing::{Billing, SilverExchange};
use avacity::modules::location::{join_room, leave_room};
use avacity::parser::{Catalog, Item};
use avacity::world::{PlayerState, World};

fn cloth(category: &str) -> Item {
    Item { name: "c".to_owned(), category: category.to_owned(), gold: 0, silver: 0, rating: 0 }
}

#[test]
fn entering_makes_a_member_and_leaving_unmakes_it() {
    let mut w = World::new();
    w.insert("a".to_owned(), PlayerState::new());
    w.insert("b".to_owned(), PlayerState::new());
    let members = join_room(&mut w, "a", "house_a_1").unwrap();
    assert!(members.contains(&"a".to_owned()));
    join_room(&mut w, "b", "house_a_1").unwrap();
    let (room, left_with) = leave_room(&mut w, "a").unwrap().unwrap();
    assert_eq!(room, "house_a_1");
    assert!(!left_with.contains(&"a".to_owned()));
    assert_eq!(left_with, vec!["b".to_owned()]);
}

#[test]
fn recording_twice_keeps_one_record() {
    let mut w = World::new();
    w.insert("a".to_owned(), PlayerState::new());
    w.insert("a".to_owned(), PlayerState::new());
    assert_eq!(w.players.len(), 1);
    w.remove("a");
    assert!(!w.contains("a"));
}

#[test]
fn catalogue_gives_back_what_went_in() {
    let mut c = Catalog::new();
    c.insert(Item { name: "x".to_owned(), category: "1".to_owned(), gold: 1, silver: 2, rating: 3 });
    c.insert(Item { name: "x".to_owned(), category: "2".to_owned(), gold: 4, silver: 5, rating: 6 });
    assert_eq!(c.items.len(), 1);
    let got = c.get("x").unwrap();
    assert_eq!((got.category.as_str(), got.gold, got.silver, got.rating), ("2", 4, 5, 6));
}

#[test]
fn taking_back_what_was_added() {
    match add_item(Some(3), "frn", 4) {
        AddPlan::SetCount(n) => assert!(matches!(take_item(Some(n), 4), TakePlan::SetCount(3))),
        _ => panic!("expected a new count"),
    }
    assert!(matches!(add_item(None, "frn", 4), AddPlan::Create));
    assert!(matches!(take_item(Some(4), 4), TakePlan::Remove));
}

#[test]
fn conflicts_are_symmetric() {
    let conflicts = vec![("hats".to_owned(), "hoods".to_owned())];
    for (a, b) in [("hats", "hoods"), ("hoods", "hats"), ("hats", "shoes"), ("shoes", "shoes")] {
        assert_eq!(has_confict(&cloth(a), &cloth(b), &conflicts), has_confict(&cloth(b), &cloth(a), &conflicts));
    }
}

#[test]
fn exchange_never_overdraws() {
    let b = Billing::new();
    for (amount, gold) in [(0, 0), (5, 5), (6, 5), (100, 1000)] {
        match b.buy_silver(amount, gold) {
            SilverExchange::Exchange { gold_change, silver } => {
                assert!(gold + gold_change >= 0);
                assert_eq!(silver, -100 * gold_change);
            },
            SilverExchange::Refused => assert!(amount > gold),
            SilverExchange::Overflow { .. } => panic!("no overflow expected"),
        }
    }
}

#[test]
fn frames_read_back() {
    let body = vec![7u8, 8, 9];
    let mut buf = frame(&body, true);
    buf.extend_from_slice(&[1, 2]);
    match next_frame(&buf, 0) {
        FrameStep::Frame(start, end) => assert_eq!(&buf[start + 5..end], &body[..]),
        _ => panic!("expected a frame"),
    }
}
