use ringbuf::list::LinkedList;

fn collect_all(list: &LinkedList<i32>) -> Vec<i32> {
    let mut result = Vec::new();
    let mut iter = list.iter();
    while let Some(value) = iter.next() {
        result.push(value);
    }
    result
}

#[test]
fn test_new_and_push() {
    let mut list = LinkedList::new();

    list.push(3);
    list.push(2);
    list.push(1);

    let mut iter = list.iter();
    assert_eq!(iter.next(), Some(1));
    assert_eq!(iter.next(), Some(2));
    assert_eq!(iter.next(), Some(3));
    assert_eq!(iter.next(), None);
}

#[test]
fn test_iter_empty_list() {
    let list: LinkedList<i32> = LinkedList::new();
    let mut iter = list.iter();
    assert_eq!(iter.next(), None);
}

#[test]
fn test_insert_after_middle() {
    let mut list = LinkedList::new();
    list.push(3);
    list.push(1);

    list.insert_after(0, 2);
    let result: Vec<i32> = collect_all(&list);

    assert_eq!(result, vec![1, 2, 3]);
}

#[test]
fn test_insert_after_end() {
    let mut list = LinkedList::new();
    list.push(2); // 2
    list.push(1); // 1 -> 2

    list.insert_after(1, 3);
    let result: Vec<i32> = collect_all(&list);

    assert_eq!(result, vec![1, 2, 3]);
}

#[test]
fn test_insert_after_out_of_bounds() {
    let mut list = LinkedList::new();
    list.push(2);
    list.push(1);

    list.insert_after(10, 99);
    let result: Vec<i32> = collect_all(&list);

    assert_eq!(result, vec![1, 2]);
}

#[test]
fn test_insert_after_empty_list() {
    let mut list: LinkedList<i32> = LinkedList::new();

    list.insert_after(0, 1);
    let result: Vec<i32> = collect_all(&list);

    assert_eq!(result, vec![]);
}
