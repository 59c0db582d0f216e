use wimlam::decimal::{int_to_string, nat_to_string, parse_int};
use wimlam::order::{sort_order, string_le};
use wimlam::text::{join_strings, remove_all, split_at, string_eq};

fn strings(items: &[&str]) -> Vec<String> {
    items.iter().map(|item| item.to_string()).collect()
}

#[test]
fn decimal_of_naturals() {
    assert_eq!(nat_to_string(0), "0");
    assert_eq!(nat_to_string(7), "7");
    assert_eq!(nat_to_string(10), "10");
    assert_eq!(nat_to_string(1234567890), "1234567890");
    assert_eq!(nat_to_string(u64::MAX), "18446744073709551615");
}

#[test]
fn decimal_of_integers() {
    assert_eq!(int_to_string(0), "0");
    assert_eq!(int_to_string(-1), "-1");
    assert_eq!(int_to_string(42), "42");
    assert_eq!(int_to_string(-1920), "-1920");
    assert_eq!(int_to_string(i32::MAX), "2147483647");
    assert_eq!(int_to_string(i32::MIN), "-2147483648");
}

#[test]
fn join_puts_the_separator_between() {
    assert_eq!(join_strings(&strings(&[]), "+"), "");
    assert_eq!(join_strings(&strings(&["A"]), "+"), "A");
    assert_eq!(join_strings(&strings(&["CONTROL", "SHIFT", "A"]), "+"), "CONTROL+SHIFT+A");
    assert_eq!(join_strings(&strings(&["", ""]), ", "), ", ");
}

#[test]
fn split_cuts_at_every_separator() {
    assert_eq!(split_at("", '+'), strings(&[""]));
    assert_eq!(split_at("A", '+'), strings(&["A"]));
    assert_eq!(split_at("CTRL+SHIFT+A", '+'), strings(&["CTRL", "SHIFT", "A"]));
    assert_eq!(split_at("A+", '+'), strings(&["A", ""]));
    assert_eq!(split_at("+A", '+'), strings(&["", "A"]));
    assert_eq!(split_at("++", '+'), strings(&["", "", ""]));
    assert_eq!(split_at("é+ü", '+'), strings(&["é", "ü"]));
}

#[test]
fn split_agrees_with_std() {
    for text in ["", "+", "a+b", "a++b", "+a+", "abc", "a+b+c+d"] {
        let expected: Vec<String> = text.split('+').map(|piece| piece.to_string()).collect();
        assert_eq!(split_at(text, '+'), expected);
    }
}

#[test]
fn remove_all_takes_out_every_occurrence() {
    assert_eq!(remove_all("VK_CONTROL", "VK_"), "CONTROL");
    assert_eq!(remove_all("A", "VK_"), "A");
    assert_eq!(remove_all("VK_VK_A", "VK_"), "A");
    assert_eq!(remove_all("XVK_YVK_", "VK_"), "XY");
    assert_eq!(remove_all("VK", "VK_"), "VK");
    assert_eq!(remove_all("", "VK_"), "");
    assert_eq!(remove_all("abc", ""), "abc");
    assert_eq!(remove_all("aaa", "aa"), "a");
}

#[test]
fn remove_all_agrees_with_std_replace() {
    for text in ["VK_A", "VVK_K_", "VK_VK", "_VK_", "Custom(12)", "VK_OEM_1"] {
        assert_eq!(remove_all(text, "VK_"), text.replace("VK_", ""));
    }
}

#[test]
fn dictionary_order() {
    assert!(string_le("", ""));
    assert!(string_le("", "a"));
    assert!(!string_le("a", ""));
    assert!(string_le("Ann", "Zed"));
    assert!(!string_le("Zed", "Ann"));
    assert!(string_le("Ann", "Ann"));
    assert!(string_le("Ann", "Anna"));
    assert!(!string_le("Anna", "Ann"));
    assert!(string_le("Z", "a"));
    assert!(string_le("z", "é"));
}

#[test]
fn dictionary_order_agrees_with_std() {
    let words = ["", "a", "B", "ab", "abc", "b", "é", "z", "Zed", "Ann", "\u{10000}", "\u{ffff}"];
    for a in words {
        for b in words {
            assert_eq!(string_le(a, b), a <= b);
        }
    }
}

#[test]
fn equal_strings() {
    assert!(string_eq("", ""));
    assert!(string_eq("abc", "abc"));
    assert!(!string_eq("abc", "abd"));
    assert!(!string_eq("abc", "ab"));
    assert!(!string_eq("--headless", "--Headless"));
}

#[test]
fn sort_order_ascends_and_keeps_equal_keys_in_place() {
    assert_eq!(sort_order(&strings(&[])), Vec::<usize>::new());
    assert_eq!(sort_order(&strings(&["b", "a", "c"])), vec![1, 0, 2]);
    assert_eq!(sort_order(&strings(&["b", "a", "b", "a"])), vec![1, 3, 0, 2]);
    assert_eq!(sort_order(&strings(&["c", "b", "a"])), vec![2, 1, 0]);
    assert_eq!(sort_order(&strings(&["a", "a", "a"])), vec![0, 1, 2]);
}

#[test]
fn integers_are_read_from_their_decimal_form() {
    assert_eq!(parse_int("0"), Some(0));
    assert_eq!(parse_int("7"), Some(7));
    assert_eq!(parse_int("-1"), Some(-1));
    assert_eq!(parse_int("1920"), Some(1920));
    assert_eq!(parse_int("-1080"), Some(-1080));
    assert_eq!(parse_int("2147483647"), Some(i32::MAX));
    assert_eq!(parse_int("-2147483648"), Some(i32::MIN));
}

#[test]
fn what_is_no_decimal_form_is_not_read() {
    for text in [
        "", "-", "+5", "007", "-0", "00", " 1", "1 ", "1.0", "0x10", "--1", "1-", "12a",
        "2147483648", "-2147483649", "99999999999", "-99999999999", "123456789012", "１２",
    ] {
        assert_eq!(parse_int(text), None, "{:?}", text);
    }
}

#[test]
fn reading_what_was_written_gives_the_integer_back() {
    for value in [0, 1, -1, 9, 10, -10, 99, 100, 12345, -98765, i32::MAX, i32::MIN, i32::MIN + 1] {
        assert_eq!(parse_int(&int_to_string(value)), Some(value));
    }
}
