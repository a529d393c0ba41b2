use cosmic_hue::sorting::{bytes_less, key_of_name, sort_order};

fn bytes(text: &str) -> Vec<u8> {
    text.as_bytes().to_vec()
}

#[test]
fn first_differing_byte_decides() {
    assert!(bytes_less(&bytes("abc"), &bytes("abd")));
    assert!(!bytes_less(&bytes("abd"), &bytes("abc")));
    assert!(bytes_less(&bytes("Zeta"), &bytes("alpha")));
}

#[test]
fn proper_prefix_comes_first() {
    assert!(bytes_less(&bytes("ab"), &bytes("abc")));
    assert!(!bytes_less(&bytes("abc"), &bytes("ab")));
    assert!(bytes_less(&bytes(""), &bytes("a")));
}

#[test]
fn nothing_is_below_itself() {
    assert!(!bytes_less(&bytes("same"), &bytes("same")));
    assert!(!bytes_less(&bytes(""), &bytes("")));
}

#[test]
fn key_ignores_case() {
    assert_eq!(key_of_name(&"Zeta".to_string()), bytes("zeta"));
    assert_eq!(key_of_name(&"alpha".to_string()), bytes("alpha"));
    assert_eq!(key_of_name(&"BETA".to_string()), key_of_name(&"beta".to_string()));
}

#[test]
fn key_lowers_letters_beyond_ascii() {
    assert_eq!(key_of_name(&"\u{c9}cole".to_string()), bytes("\u{e9}cole"));
}

#[test]
fn order_of_no_keys_is_empty() {
    assert_eq!(sort_order(&Vec::new()), Vec::<usize>::new());
}

#[test]
fn order_is_ascending() {
    let keys = vec![bytes("zeta"), bytes("alpha"), bytes("beta")];
    assert_eq!(sort_order(&keys), vec![1, 2, 0]);
}

#[test]
fn equal_keys_keep_their_order() {
    let keys = vec![bytes("b"), bytes("a"), bytes("b"), bytes("a"), bytes("b")];
    assert_eq!(sort_order(&keys), vec![1, 3, 0, 2, 4]);
}

#[test]
fn sorted_keys_stay_in_place() {
    let keys = vec![bytes("a"), bytes("ab"), bytes("b")];
    assert_eq!(sort_order(&keys), vec![0, 1, 2]);
}

#[test]
fn descending_keys_are_reversed() {
    let keys = vec![bytes("d"), bytes("c"), bytes("b"), bytes("a")];
    assert_eq!(sort_order(&keys), vec![3, 2, 1, 0]);
}
