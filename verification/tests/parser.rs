use avacity::parser::{furniture_files, parse_all_clothes, parse_catalog, parse_clothes, parse_furniture, parse_trophies, Catalog};

const CLOTHES: &str = r#"<?xml version="1.0"?>
<root>
  <group id="top">
    <category id="shirts">
      <item id="shirt1" gold="5" silver="10" rating="2"/>
      <category id="intFloor">
        <item id="tile"/>
      </category>
    </category>
    <item id="direct" gold="1"/>
    <other id="x"><item id="hidden"/></other>
  </group>
</root>"#;

fn summary(c: &Catalog) -> Vec<(String, String, i32, i32, i32)> {
    c.items.iter().map(|i| (i.name.clone(), i.category.clone(), i.gold, i.silver, i.rating)).collect()
}

#[test]
fn clothes_catalogue() {
    let c = parse_clothes(CLOTHES).unwrap();
    assert_eq!(
        summary(&c),
        vec![
            ("shirt1".to_owned(), "shirts".to_owned(), 5, 10, 2),
            ("tile".to_owned(), "4".to_owned(), 0, 0, 0),
            ("direct".to_owned(), "top".to_owned(), 1, 0, 0),
        ]
    );
    assert_eq!(c.get("tile").unwrap().category, "4");
    assert!(c.get("hidden").is_none());
    assert!(c.contains_key("direct"));
}

#[test]
fn broken_catalogues() {
    assert!(parse_clothes("<root><unclosed></root>").is_none());
    assert!(parse_clothes(r#"<root><g id="a"><item gold="1"/></g></root>"#).is_none());
    assert!(parse_clothes(r#"<root><g id="a"><item id="i" gold="lots"/></g></root>"#).is_none());
    assert!(parse_clothes(r#"<root><g><item id="i"/></g></root>"#).is_none());
    assert!(parse_clothes(r#"<root><g id="a"/></root>"#).unwrap().items.is_empty());
}

#[test]
fn all_clothes() {
    let boy = r#"<root><g id="b"><item id="cap"/></g></root>"#;
    let v = parse_all_clothes(boy, CLOTHES).unwrap();
    assert_eq!(v.len(), 2);
    assert_eq!(v[0].0, "boy");
    assert_eq!(summary(&v[0].1), vec![("cap".to_owned(), "b".to_owned(), 0, 0, 0)]);
    assert_eq!(v[1].0, "girl");
    assert_eq!(v[1].1.items.len(), 3);
    assert!(parse_all_clothes(boy, "<broken").is_none());
}

#[test]
fn furniture_catalogue() {
    assert_eq!(furniture_files(), vec!["furniture", "kitchen", "bathroom", "decor", "roomLayout"]);
    let first = r#"<root><g id="5"><item id="chair" gold="3"/><item id="lamp"/></g></root>"#.to_owned();
    let second = r#"<root><g id="flrSPCategory"><item id="chair" silver="7"/></g></root>"#.to_owned();
    let c = parse_furniture(&vec![first.clone(), second]).unwrap();
    assert_eq!(
        summary(&c),
        vec![("chair".to_owned(), "4".to_owned(), 0, 7, 0), ("lamp".to_owned(), "5".to_owned(), 0, 0, 0)]
    );
    assert!(parse_furniture(&vec![first, "<x".to_owned()]).is_none());
    let mut more = Catalog::new();
    assert!(parse_catalog(CLOTHES, &mut more));
    assert!(!parse_catalog("", &mut more));
}

#[test]
fn trophies() {
    let t = parse_trophies(r#"<trophies><trophy id="t1"/><!-- note --><trophy id="t2"><x id="deep"/></trophy></trophies>"#);
    assert_eq!(t, Some(vec!["t1".to_owned(), "t2".to_owned()]));
    assert_eq!(parse_trophies(r#"<trophies><trophy/></trophies>"#), None);
    assert_eq!(parse_trophies("nope"), None);
}

#[test]
fn attributes_are_found_by_local_name() {
    let xml = r#"<root xmlns:n="urn:x"><group id="g"><category id="cat"><item n:id="x" id="y" gold="1"/></category></group></root>"#;
    let doc = roxmltree::Document::parse(xml).unwrap();
    let item = doc.descendants().find(|n| n.tag_name().name() == "item").unwrap();
    assert_eq!(item.attribute("id"), Some("x"));
    let c = parse_clothes(xml).unwrap();
    assert_eq!(summary(&c), vec![("x".to_owned(), "cat".to_owned(), 1, 0, 0)]);
}
