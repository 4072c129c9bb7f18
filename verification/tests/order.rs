use icon_registry::collection::IconAsset;
use icon_registry::order::{insert_by_name, precedes, sort_by_name};

fn asset(file_name: &str, raw_markup: &str) -> IconAsset {
    IconAsset { file_name: file_name.to_string(), raw_markup: raw_markup.to_string() }
}

fn names(assets: &Vec<IconAsset>) -> Vec<String> {
    assets.iter().map(|asset| asset.file_name.clone()).collect()
}

#[test]
fn texts_are_ordered_by_their_bytes() {
    assert!(precedes("a", "b"));
    assert!(!precedes("b", "a"));
    assert!(precedes("a", "a"));
    assert!(precedes("", "a"));
    assert!(!precedes("a", ""));
    assert!(precedes("", ""));
    assert!(precedes("ab", "abc"));
    assert!(!precedes("abc", "ab"));
    assert!(precedes("Z", "a"));
    assert!(precedes("a-b", "a.b"));
    assert!(precedes("z", "\u{e9}"));
    assert!(precedes("\u{e9}", "\u{4e2d}"));
    assert!(!precedes("\u{4e2d}", "\u{e9}"));
}

#[test]
fn byte_order_agrees_with_the_order_of_strings() {
    let samples = ["", "a", "A", "ab", "b", "a-b", "a.svg", "a-b.svg", "\u{e9}", "z\u{e9}", "1"];
    for x in samples {
        for y in samples {
            assert_eq!(precedes(x, y), x <= y);
        }
    }
}

#[test]
fn item_is_put_in_before_the_first_that_does_not_come_before_it() {
    let mut assets = vec![asset("a.svg", "1"), asset("c.svg", "2"), asset("c.svg", "3")];
    insert_by_name(&mut assets, asset("b.svg", "4"));
    assert_eq!(names(&assets), vec!["a.svg", "b.svg", "c.svg", "c.svg"]);
    insert_by_name(&mut assets, asset("c.svg", "5"));
    assert_eq!(assets[2].raw_markup, "5");
    assert_eq!(assets[3].raw_markup, "2");
    insert_by_name(&mut assets, asset("d.svg", "6"));
    assert_eq!(assets[5].file_name, "d.svg");
}

#[test]
fn assets_are_sorted_by_file_name() {
    let sorted = sort_by_name(vec![
        asset("x.svg", ""),
        asset("check.svg", ""),
        asset("arrow-up.svg", ""),
        asset("arrow.svg", ""),
        asset("Zap.svg", ""),
    ]);
    assert_eq!(names(&sorted), vec!["Zap.svg", "arrow-up.svg", "arrow.svg", "check.svg", "x.svg"]);
}

#[test]
fn sorting_keeps_the_order_of_equal_names() {
    let sorted = sort_by_name(vec![
        asset("b.svg", "first"),
        asset("a.svg", "second"),
        asset("b.svg", "third"),
        asset("a.svg", "fourth"),
    ]);
    let markups: Vec<String> = sorted.iter().map(|asset| asset.raw_markup.clone()).collect();
    assert_eq!(markups, vec!["second", "fourth", "first", "third"]);
}

#[test]
fn sorting_nothing_gives_nothing() {
    assert!(sort_by_name(Vec::<IconAsset>::new()).is_empty());
}
