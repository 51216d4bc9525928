use vecless::{join_bracketed, List};

fn collect<T: Clone>(list: &List<T>) -> Vec<T> {
    let mut out = Vec::new();
    let mut it = list.iter();
    while let Some(x) = it.next() {
        out.push(x.clone());
    }
    out
}

#[test]
fn empty_list_formats_as_brackets() {
    let list: List<i32> = List::new();
    assert_eq!(list.to_string(), "[]");
    assert!(list.is_empty());
    assert_eq!(list.len(), 0);
}

#[test]
fn add_then_iterate_gives_the_items_in_order() {
    let items = vec![5, 3, 9, 3, 1];
    let list = List::new().add(items.clone());
    assert_eq!(collect(&list), items);
    assert_eq!(list.len(), 5);
}

#[test]
fn add_of_nothing_leaves_the_list() {
    let list = List::new().add(vec![1, 2]).add(Vec::new());
    assert_eq!(list.to_string(), "[1, 2]");
    let empty: List<u8> = List::new().add(Vec::new());
    assert!(empty.is_empty());
}

#[test]
fn add_goes_after_existing_elements() {
    let list = List::new().push(0).add(vec![1, 2]).add(vec![3]);
    assert_eq!(list.to_string(), "[0, 1, 2, 3]");
}

#[test]
fn push_puts_last_first() {
    let list = List::new().push("x").push("y");
    assert_eq!(list.to_string(), "[y, x]");
    assert!(!list.is_empty());
}

#[test]
fn reverse_twice_gives_the_same_list() {
    let list = List::new().add(vec![4, 7, 1, 8]);
    let twice = list.clone().reverse().reverse();
    assert_eq!(collect(&twice), collect(&list));
    assert_eq!(list.clone().reverse().len(), list.len());
}

#[test]
fn reverse_scenario() {
    let list = List::new().add(vec![1, 2, 3]);
    assert_eq!(list.to_string(), "[1, 2, 3]");
    assert_eq!(list.reverse().to_string(), "[3, 2, 1]");
}

#[test]
fn reverse_of_empty_and_single() {
    let empty: List<i32> = List::new();
    assert!(empty.reverse().is_empty());
    assert_eq!(List::new().push(42).reverse().to_string(), "[42]");
}

#[test]
fn append_strings_scenario() {
    let list = List::new()
        .add(vec!["a", "b"])
        .append(List::new().add(vec!["c", "d"]));
    assert_eq!(list.to_string(), "[a, b, c, d]");
    assert_eq!(list.len(), 4);
}

#[test]
fn append_to_empty_gives_other() {
    let b = List::new().add(vec![3, 4]);
    let combined = List::new().append(b.clone());
    assert_eq!(collect(&combined), collect(&b));
    let right_empty = List::new().add(vec![1]).append(List::new());
    assert_eq!(right_empty.to_string(), "[1]");
}

#[test]
fn append_lengths_add_up() {
    let a = List::new().add(vec![1, 2, 3]);
    let b = List::new().add(vec![4, 5]);
    let combined = a.clone().append(b.clone());
    assert_eq!(combined.len(), a.len() + b.len());
    assert_eq!(collect(&combined), vec![1, 2, 3, 4, 5]);
}

#[test]
fn consuming_iteration_matches_borrowing_iteration() {
    let list = List::new().add(vec![10, 20, 30]);
    let borrowed = collect(&list);
    let mut it = list.into_iter();
    let mut owned = Vec::new();
    while let Some(x) = it.next() {
        owned.push(x);
    }
    assert_eq!(owned, borrowed);
    assert_eq!(it.next(), None);
}

#[test]
fn borrowing_iteration_restarts_and_ends() {
    let list = List::new().add(vec![1, 2]);
    let mut first = list.iter();
    assert_eq!(first.next(), Some(&1));
    assert_eq!(first.next(), Some(&2));
    assert_eq!(first.next(), None);
    assert_eq!(first.next(), None);
    let mut again = list.iter();
    assert_eq!(again.next(), Some(&1));
}

#[test]
fn mutable_iteration_changes_are_kept() {
    let mut list = List::new().add(vec![1, 2, 3]);
    let mut it = list.iter_mut();
    while let Some(x) = it.next() {
        *x = *x * 10;
    }
    assert_eq!(list.to_string(), "[10, 20, 30]");
}

#[test]
fn mutable_iteration_stopped_early_keeps_the_rest() {
    let mut list = List::new().add(vec![1, 2, 3]);
    let mut it = list.iter_mut();
    if let Some(x) = it.next() {
        *x = 7;
    }
    assert_eq!(list.to_string(), "[7, 2, 3]");
}

#[test]
fn clone_is_independent() {
    let original = List::new().add(vec![String::from("p"), String::from("q")]);
    let mut copy = original.clone();
    let mut it = copy.iter_mut();
    if let Some(x) = it.next() {
        *x = String::from("z");
    }
    assert_eq!(original.to_string(), "[p, q]");
    assert_eq!(copy.to_string(), "[z, q]");
}

#[test]
fn join_bracketed_cases() {
    assert_eq!(join_bracketed(&Vec::new()), "[]");
    assert_eq!(join_bracketed(&vec![String::from("one")]), "[one]");
    assert_eq!(
        join_bracketed(&vec![String::from("a"), String::new(), String::from("c")]),
        "[a, , c]"
    );
}

#[test]
fn large_list_is_handled() {
    let items: Vec<u32> = (0..10_000).collect();
    let list = List::new().add(items.clone());
    assert_eq!(list.len(), 10_000);
    let reversed = list.reverse();
    let mut it = reversed.iter();
    assert_eq!(it.next(), Some(&9_999));
}
