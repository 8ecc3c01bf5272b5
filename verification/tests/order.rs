use chlue::order::{name_no_later, name_order};

fn names(list: &[&str]) -> Vec<String> {
    list.iter().map(|name| name.to_string()).collect()
}

fn std_order(list: &[String]) -> Vec<usize> {
    let mut order: Vec<usize> = (0..list.len()).collect();
    order.sort_by(|a, b| list[*a].cmp(&list[*b]));
    order
}

#[test]
fn names_compare_as_strings_do() {
    let samples = [
        "", "a", "A", "ab", "abc", "abd", "b", "Kitchen", "Lounge", "Office", "kitchen", "1", "10",
        "2", " ", "é", "e", "z", "ß", "日本", "日", "\u{10FFFF}", "\u{7f}", "\u{80}", "\u{7ff}",
        "\u{800}", "\u{ffff}", "\u{10000}",
    ];
    for a in samples {
        for b in samples {
            assert_eq!(name_no_later(a, b), a <= b, "{:?} against {:?}", a, b);
        }
    }
}

#[test]
fn a_name_is_no_later_than_itself_or_its_extensions() {
    assert!(name_no_later("", ""));
    assert!(name_no_later("", "a"));
    assert!(!name_no_later("a", ""));
    assert!(name_no_later("Lounge", "Lounge"));
    assert!(name_no_later("Lounge", "Lounge 2"));
    assert!(!name_no_later("Lounge 2", "Lounge"));
}

#[test]
fn capitals_come_before_small_letters() {
    assert!(name_no_later("Office", "kitchen"));
    assert!(!name_no_later("kitchen", "Office"));
}

#[test]
fn rooms_are_ordered_by_name() {
    let rooms = names(&["Office", "Kitchen", "Lounge"]);
    assert_eq!(name_order(&rooms), vec![1, 2, 0]);
}

#[test]
fn names_in_order_stay_in_order() {
    let rooms = names(&["Kitchen", "Lounge", "Office"]);
    assert_eq!(name_order(&rooms), vec![0, 1, 2]);
}

#[test]
fn names_in_reverse_are_turned_around() {
    let rooms = names(&["d", "c", "b", "a"]);
    assert_eq!(name_order(&rooms), vec![3, 2, 1, 0]);
}

#[test]
fn equal_names_keep_their_own_order() {
    let rooms = names(&["b", "a", "b", "a", "b"]);
    assert_eq!(name_order(&rooms), vec![1, 3, 0, 2, 4]);
}

#[test]
fn no_name_gives_an_empty_order() {
    assert!(name_order(&[]).is_empty());
    assert_eq!(name_order(&names(&["only"])), vec![0]);
}

#[test]
fn the_order_is_that_of_a_stable_sort() {
    let lists: [&[&str]; 5] = [
        &["Relax", "Bright", "Cook", "Bright", "relax", "", "Cook "],
        &["é", "e", "f", "E", "日本", "z", "日"],
        &["10", "9", "1", "100", "09"],
        &["same", "same", "same"],
        &["b", "a"],
    ];
    for list in lists {
        let list = names(list);
        assert_eq!(name_order(&list), std_order(&list));
    }
}
