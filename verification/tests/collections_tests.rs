use localcoin::collections::{
    all_listed, concat_addresses, concat_names, contains_address, contains_name, copy_addresses,
    first_index_of, is_distinct, no_name_listed, none_listed, remove_first,
};
use localcoin::{Address, AddressMap, NameMap};

fn a(id: u128) -> Address {
    Address::account(id)
}

fn names(list: &[&str]) -> Vec<String> {
    list.iter().map(|name| String::from(*name)).collect()
}

#[test]
fn an_address_is_found_at_its_first_position() {
    let list = vec![a(3), a(1), a(3), a(2)];
    assert_eq!(first_index_of(&list, a(3)), Some(0));
    assert_eq!(first_index_of(&list, a(1)), Some(1));
    assert_eq!(first_index_of(&list, a(2)), Some(3));
    assert_eq!(first_index_of(&list, a(4)), None);
    assert_eq!(first_index_of(&Vec::new(), a(4)), None);
    assert!(contains_address(&list, a(2)));
    assert!(!contains_address(&list, a(4)));
    // An account and a contract with the same identifier are two addresses.
    assert!(!contains_address(&list, Address::contract(2)));
}

#[test]
fn the_first_occurrence_is_removed() {
    let mut list = vec![a(3), a(1), a(3), a(2)];
    assert!(remove_first(&mut list, a(3)));
    assert_eq!(list, vec![a(1), a(3), a(2)]);
    assert!(!remove_first(&mut list, a(9)));
    assert_eq!(list, vec![a(1), a(3), a(2)]);
    assert!(remove_first(&mut list, a(2)));
    assert!(remove_first(&mut list, a(1)));
    assert!(remove_first(&mut list, a(3)));
    assert!(list.is_empty());
    assert!(!remove_first(&mut list, a(3)));
}

#[test]
fn lists_are_compared_and_joined() {
    let within = vec![a(1), a(2), a(3)];
    assert!(all_listed(&vec![a(3), a(1)], &within));
    assert!(all_listed(&Vec::new(), &within));
    assert!(!all_listed(&vec![a(3), a(4)], &within));
    assert!(none_listed(&vec![a(4), a(5)], &within));
    assert!(none_listed(&Vec::new(), &within));
    assert!(!none_listed(&vec![a(4), a(1)], &within));
    assert!(is_distinct(&within));
    assert!(is_distinct(&Vec::new()));
    assert!(!is_distinct(&vec![a(1), a(2), a(1)]));
    assert!(!is_distinct(&vec![a(2), a(2)]));
    assert_eq!(copy_addresses(&within), within);
    assert_eq!(concat_addresses(&within, &vec![a(9), a(1)]), vec![a(1), a(2), a(3), a(9), a(1)]);
    assert_eq!(concat_addresses(&Vec::new(), &Vec::new()), Vec::<Address>::new());
}

#[test]
fn names_are_compared_by_their_text() {
    let within = names(&["Medicine", "Food"]);
    assert!(contains_name(&within, &String::from("Food")));
    assert!(!contains_name(&within, &String::from("food")));
    assert!(!contains_name(&within, &String::from("")));
    assert!(no_name_listed(&names(&["Rent", "Books"]), &within));
    assert!(!no_name_listed(&names(&["Rent", "Food"]), &within));
    assert!(no_name_listed(&Vec::new(), &within));
    assert_eq!(concat_names(&within, &names(&["Rent"])), names(&["Medicine", "Food", "Rent"]));
    assert_eq!(concat_names(&Vec::new(), &within), within);
}

#[test]
fn an_address_map_keeps_one_value_per_key() {
    let mut map: AddressMap<i128> = AddressMap::new();
    assert_eq!(map.len(), 0);
    assert_eq!(map.get(a(1)), None);
    assert!(!map.contains_key(a(1)));
    assert_eq!(map.insert(a(1), 10), None);
    assert_eq!(map.insert(a(2), 20), None);
    assert_eq!(map.insert(a(1), 11), Some(10));
    assert_eq!(map.len(), 2);
    assert_eq!(map.get(a(1)), Some(&11));
    assert_eq!(map.get(a(2)), Some(&20));
    assert_eq!(map.get(a(3)), None);
    assert_eq!(map.position(a(1)), Some(0));
    assert_eq!(map.position(a(2)), Some(1));
    assert_eq!(map.position(a(3)), None);
    // A replaced value keeps its key's place.
    assert_eq!(map.entry(0), (a(1), &11));
    assert_eq!(map.entry(1), (a(2), &20));
}

#[test]
fn an_address_map_is_made_of_distinct_keys() {
    let made = AddressMap::from_entries(vec![(a(1), 'x'), (a(2), 'y')]).unwrap();
    assert_eq!(made.len(), 2);
    assert_eq!(made.get(a(2)), Some(&'y'));
    assert!(AddressMap::from_entries(vec![(a(1), 'x'), (a(2), 'y'), (a(1), 'z')]).is_none());
    assert!(AddressMap::from_entries(vec![(a(1), 'x'), (a(1), 'x')]).is_none());
    assert_eq!(AddressMap::<char>::from_entries(Vec::new()).unwrap().len(), 0);
    assert!(AddressMap::from_entries(vec![(a(1), 'x'), (Address::contract(1), 'x')]).is_some());
}

#[test]
fn a_name_map_keeps_one_value_per_text() {
    let mut map: NameMap<u32> = NameMap::new();
    assert_eq!(map.len(), 0);
    map.insert(String::from("Bob"), 1);
    map.insert(String::from("Alice"), 2);
    map.insert(String::from("Bob"), 3);
    assert_eq!(map.len(), 2);
    assert_eq!(map.get(&String::from("Bob")), Some(&3));
    assert_eq!(map.get(&String::from("Alice")), Some(&2));
    assert_eq!(map.get(&String::from("bob")), None);
    assert!(map.contains_key(&String::from("Alice")));
    assert!(!map.contains_key(&String::from("")));
    assert_eq!(map.position(&String::from("Alice")), Some(1));
    assert_eq!(map.entry(0), (&String::from("Bob"), &3));
    let copy = map.duplicate();
    map.insert(String::from("Bob"), 4);
    assert_eq!(copy.get(&String::from("Bob")), Some(&3));
    assert_eq!(copy.len(), 2);

    let made = NameMap::from_entries(vec![(String::from("x"), 1), (String::from("y"), 2)]).unwrap();
    assert_eq!(made.get(&String::from("y")), Some(&2));
    assert!(NameMap::from_entries(vec![(String::from("x"), 1), (String::from("x"), 2)]).is_none());
}
