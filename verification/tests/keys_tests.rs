use nova_insurance::keys::{contains_id, copy_ids, position_of, remove_id};
use nova_insurance::state::text_len;
use nova_insurance::AccountId;

fn named(n: u8) -> AccountId {
    AccountId::new([n; 32])
}

#[test]
fn identifiers_are_equal_when_all_bytes_are() {
    let mut bytes = [7u8; 32];
    let a = AccountId::new(bytes);
    assert_eq!(a, named(7));
    assert_eq!(a.to_bytes(), [7u8; 32]);
    for i in 0..32 {
        bytes[i] = 8;
        assert_ne!(AccountId::new(bytes), a);
        bytes[i] = 7;
    }
    assert_eq!(AccountId::zero().to_bytes(), [0u8; 32]);
}

#[test]
fn first_position_is_found() {
    let list = vec![named(3), named(1), named(3), named(2)];
    assert_eq!(position_of(&list, &named(3)), Some(0));
    assert_eq!(position_of(&list, &named(1)), Some(1));
    assert_eq!(position_of(&list, &named(2)), Some(3));
    assert_eq!(position_of(&list, &named(9)), None);
    assert_eq!(position_of(&Vec::new(), &named(3)), None);
    assert!(contains_id(&list, &named(2)));
    assert!(!contains_id(&list, &named(9)));
    assert!(!contains_id(&Vec::new(), &named(9)));
}

#[test]
fn removal_takes_the_first_occurrence_only() {
    let mut list = vec![named(3), named(1), named(3), named(2)];
    remove_id(&mut list, &named(3));
    assert_eq!(list, vec![named(1), named(3), named(2)]);
    remove_id(&mut list, &named(9));
    assert_eq!(list, vec![named(1), named(3), named(2)]);
    remove_id(&mut list, &named(2));
    assert_eq!(list, vec![named(1), named(3)]);
    let mut empty: Vec<AccountId> = Vec::new();
    remove_id(&mut empty, &named(1));
    assert!(empty.is_empty());
}

#[test]
fn copy_keeps_order_and_content() {
    let list = vec![named(3), named(1), named(3), named(2)];
    assert_eq!(copy_ids(&list), list);
    assert_eq!(copy_ids(&Vec::new()), Vec::new());
}

#[test]
fn text_length_is_counted_in_bytes() {
    assert_eq!(text_len(&String::new()), 0);
    assert_eq!(text_len(&String::from("claim")), 5);
    assert_eq!(text_len(&String::from("r\u{e9}clamation")), 12);
    assert_eq!(text_len(&String::from("\u{1f600}")), 4);
}
