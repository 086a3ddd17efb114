use match_core::engine::linked_hashmap::{HasId, LinkedHashmap};
use uuid::Uuid;

#[derive(Debug)]
struct Item {
    id: Uuid,
}

impl Item {
    pub fn new(id: Uuid) -> Self {
        Self { id }
    }
}

impl HasId for Item {
    fn key(&self) -> u128 {
        self.id.as_u128()
    }

    fn id(&self) -> u128 {
        self.id.as_u128()
    }
}

#[test]
fn linked_hashmap_creation() {
    let linked: LinkedHashmap<Item> = LinkedHashmap::new();
    assert!(linked.is_empty());
}

#[test]
fn push_pop_elements() {
    let mut linked: LinkedHashmap<Item> = LinkedHashmap::new();
    let item1 = Item::new(Uuid::new_v4());
    let item1_id = item1.id.clone();
    let item2 = Item::new(Uuid::new_v4());

    linked.push(item1);
    linked.push(item2);

    assert_eq!(linked.is_empty(), false);
    assert!(linked.contains(&item1_id.as_u128()));
    assert_eq!(linked.len(), 2);

    let pop_item = linked.pop();

    assert_eq!(&pop_item.unwrap().id, &item1_id);

    linked.pop();

    assert_eq!(linked.len(), 0);
    assert!(linked.is_empty());
}

#[test]
fn remove_elements() {
    let mut linked: LinkedHashmap<Item> = LinkedHashmap::new();
    let item1 = Item::new(Uuid::new_v4());
    let item1_id = item1.id.clone();

    linked.push(item1);

    assert_eq!(linked.is_empty(), false);
    assert!(linked.contains(&item1_id.as_u128()));
    assert_eq!(linked.len(), 1);

    let removed_item = linked.remove(&item1_id.as_u128());

    assert!(linked.is_empty());
    assert_eq!(linked.contains(&removed_item.unwrap().id.as_u128()), false);
    assert_eq!(linked.len(), 0);
}

#[test]
fn peek_and_peek_tail() {
    let mut linked: LinkedHashmap<Item> = LinkedHashmap::new();
    let tail = Item::new(Uuid::new_v4());
    let tail_id = tail.id;
    let head = Item::new(Uuid::new_v4());
    let head_id = head.id;

    linked.push(tail);
    linked.push(head);

    assert!(linked.peek().unwrap().id == tail_id);
    assert_eq!(linked.peek_tail().unwrap().id == tail_id, false);
    assert_eq!(linked.peek().unwrap().id == head_id, false);
    assert!(linked.peek_tail().unwrap().id == head_id);
}

#[test]
fn clear() {
    let mut linked: LinkedHashmap<Item> = LinkedHashmap::new();
    let item1 = Item::new(Uuid::new_v4());
    let item1_id = item1.id.clone();

    linked.push(item1);

    assert_eq!(linked.is_empty(), false);
    assert!(linked.contains(&item1_id.as_u128()));
    assert_eq!(linked.len(), 1);

    linked.clear();

    assert!(linked.is_empty());
    assert_eq!(linked.len(), 0);
}

fn item(n: u128) -> Item {
    Item::new(Uuid::from_u128(n))
}

fn ids(linked: &mut LinkedHashmap<Item>) -> Vec<u128> {
    let mut out = Vec::new();
    while let Some(i) = linked.pop() {
        out.push(i.id.as_u128());
    }
    out
}

#[test]
fn remove_from_the_middle_keeps_order() {
    let mut linked: LinkedHashmap<Item> = LinkedHashmap::new();
    for n in 1..=5 {
        linked.push(item(n));
    }
    assert_eq!(linked.remove(&3).unwrap().id.as_u128(), 3);
    assert!(linked.remove(&3).is_none());
    assert_eq!(linked.len(), 4);
    assert_eq!(ids(&mut linked), vec![1, 2, 4, 5]);
}

#[test]
fn remove_head_and_tail_relinks_ends() {
    let mut linked: LinkedHashmap<Item> = LinkedHashmap::new();
    for n in 1..=3 {
        linked.push(item(n));
    }
    linked.remove(&1);
    assert_eq!(linked.peek().unwrap().id.as_u128(), 2);
    linked.remove(&3);
    assert_eq!(linked.peek_tail().unwrap().id.as_u128(), 2);
    linked.push(item(4));
    assert_eq!(ids(&mut linked), vec![2, 4]);
}

#[test]
fn push_first_prepends_and_duplicates_are_ignored() {
    let mut linked: LinkedHashmap<Item> = LinkedHashmap::new();
    linked.push(item(2));
    linked.push_first(item(1));
    linked.push(item(3));
    linked.push(item(1));
    linked.push_first(item(3));
    assert_eq!(linked.len(), 3);
    assert_eq!(linked.peek().unwrap().id.as_u128(), 1);
    assert_eq!(linked.peek_tail().unwrap().id.as_u128(), 3);
    assert_eq!(ids(&mut linked), vec![1, 2, 3]);
}

#[test]
fn push_then_remove_restores_the_list() {
    let mut linked: LinkedHashmap<Item> = LinkedHashmap::new();
    linked.push(item(10));
    linked.push(item(20));
    linked.push(item(30));
    assert_eq!(linked.remove(&30).unwrap().id.as_u128(), 30);
    assert_eq!(ids(&mut linked), vec![10, 20]);
}

#[test]
fn get_and_get_mut_find_by_id() {
    let mut linked: LinkedHashmap<Item> = LinkedHashmap::new();
    linked.push(item(7));
    linked.push(item(8));
    assert_eq!(linked.get(&8).unwrap().id.as_u128(), 8);
    assert!(linked.get(&9).is_none());
    assert!(linked.get_mut(&9).is_none());
    let found = linked.get_mut(&7).unwrap();
    assert_eq!(found.id.as_u128(), 7);
    assert_eq!(linked.len(), 2);
    let empty: LinkedHashmap<Item> = LinkedHashmap::default();
    assert!(empty.peek().is_none());
    assert!(empty.peek_tail().is_none());
}

#[test]
fn pop_on_empty_gives_none() {
    let mut linked: LinkedHashmap<Item> = LinkedHashmap::new();
    assert!(linked.pop().is_none());
    linked.push(item(1));
    assert!(linked.pop().is_some());
    assert!(linked.pop().is_none());
}

#[test]
fn pop_then_push_first_restores_the_list() {
    let mut linked: LinkedHashmap<Item> = LinkedHashmap::new();
    linked.push(item(1));
    linked.push(item(2));
    linked.push(item(3));
    let first = linked.pop().unwrap();
    assert_eq!(first.key(), 1);
    linked.push_first(first);
    assert_eq!(linked.len(), 3);
    assert_eq!(ids(&mut linked), vec![1, 2, 3]);
}
