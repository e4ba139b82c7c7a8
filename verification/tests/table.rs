use fos::table::Table;
use std::cell::Cell;

#[test]
fn table_add_count() {
    let mut table = Table::new();

    assert_eq!(table.is_empty(), true);
    assert_eq!(table.len(), 0);

    let first = table.add(5);
    let second = table.add(6);

    assert_eq!(first, 0);
    assert_eq!(second, 1);
    assert_eq!(table.is_empty(), false);
    assert_eq!(table.len(), 2);
}

#[test]
fn table_remove_ok() {
    let mut table = Table::new();

    assert_eq!(table.is_empty(), true);
    assert_eq!(table.len(), 0);

    table.add(5);
    table.add(6);

    let ok_remove = table.remove(1 as usize);
    assert_eq!(ok_remove, Ok(()));
    assert_eq!(table.is_empty(), false);
    assert_eq!(table.len(), 1);

    let ok_remove = table.remove(0 as usize);
    assert_eq!(ok_remove, Ok(()));
    assert_eq!(table.is_empty(), true);
    assert_eq!(table.len(), 0);
}

#[test]
fn table_remove_out_of_bounds() {
    let mut table = Table::new();

    table.add(5);
    table.add(6);

    let err_remove = table.remove(5 as usize);
    assert_eq!(err_remove, Err(()));
    assert_eq!(table.len(), 2);
}

#[test]
fn table_remove_twice() {
    let mut table = Table::new();

    table.add(5);
    table.add(6);

    let ok_remove = table.remove(1 as usize);
    let err_remove = table.remove(1 as usize);
    assert_eq!(ok_remove, Ok(()));
    assert_eq!(err_remove, Err(()));
    assert_eq!(table.len(), 1);
}

#[test]
fn table_filter() {
    let mut table = Table::new();

    table.add(5);
    table.add(6);
    table.add(6);
    table.add(7);

    let size = table.filter(&|element: &i32| -> bool { *element != 6 });

    assert_eq!(size, 2);
    assert_eq!(table.len(), 2);
}

#[test]
fn table_add_between() {
    let mut table = Table::new();

    table.add(5);
    table.add(6);
    table.add(7);

    table.remove(1 as usize).unwrap();

    let next = table.next_free();
    let second = table.add(8);

    assert_eq!(next, 1);
    assert_eq!(second, 1);
    assert_eq!(table.len(), 3);
}

#[test]
fn get_and_find_borrow_the_element() {
    let mut table = Table::new();
    table.add("a");
    table.add("b");
    table.remove(0).unwrap();

    assert_eq!(*table.get(1), "b");
    assert_eq!(table.find(1), Some(&"b"));
    assert_eq!(table.find(0), None);
    assert_eq!(table.find(2), None);
}

#[test]
fn slots_are_never_trimmed() {
    let mut table = Table::new();
    assert_eq!(table.slots(), 0);
    assert_eq!(table.next_free(), 0);

    table.add(1);
    table.add(2);
    table.add(3);
    table.remove(2).unwrap();
    table.remove(1).unwrap();

    assert_eq!(table.slots(), 3);
    assert_eq!(table.len(), 1);
    assert_eq!(table.next_free(), 1);
    assert_eq!(table.add(4), 1);
    assert_eq!(table.next_free(), 2);
    assert_eq!(table.add(5), 2);
    assert_eq!(table.next_free(), 3);
    assert_eq!(table.add(6), 3);
    assert_eq!(table.slots(), 4);
}

#[test]
fn next_free_predicts_every_add() {
    let mut table = Table::new();
    let steps: [(bool, usize); 9] = [
        (true, 0),
        (true, 0),
        (true, 0),
        (false, 1),
        (true, 0),
        (false, 0),
        (false, 2),
        (true, 0),
        (true, 0),
    ];
    let mut live = 0;
    for (add, index) in steps {
        if add {
            let predicted = table.next_free();
            assert_eq!(table.add(7), predicted);
            live += 1;
        } else {
            assert_eq!(table.remove(index), Ok(()));
            live -= 1;
        }
        assert_eq!(table.len(), live);
        assert_eq!(table.is_empty(), live == 0);
    }
    assert_eq!(table.len(), 3);
    assert_eq!(table.slots(), 3);
}

#[test]
fn take_moves_the_element_out() {
    let mut table = Table::new();
    table.add("a".to_string());
    table.add("b".to_string());

    assert_eq!(table.take(0), Some("a".to_string()));
    assert_eq!(table.take(0), None);
    assert_eq!(table.take(5), None);
    assert_eq!(table.len(), 1);

    table.put(0, "c".to_string());
    assert_eq!(table.len(), 2);
    assert_eq!(table.get(0), "c");
    assert_eq!(table.get(1), "b");
}

#[test]
fn exec_runs_the_callback_on_an_occupied_slot() {
    let mut table = Table::new();
    table.add(5);
    table.add(6);
    table.remove(0).unwrap();

    let seen = Cell::new(0);
    assert_eq!(table.exec(1, |element: &i32| seen.set(*element)), true);
    assert_eq!(seen.get(), 6);
    assert_eq!(table.exec(0, |element: &i32| seen.set(*element)), false);
    assert_eq!(table.exec(2, |element: &i32| seen.set(*element)), false);
    assert_eq!(seen.get(), 6);
}

#[test]
fn filter_keeps_the_indices_of_what_stays() {
    let mut table = Table::new();
    table.add(5);
    table.add(6);
    table.add(7);

    assert_eq!(table.filter(|element: &i32| *element != 6), 2);
    assert_eq!(table.find(0), Some(&5));
    assert_eq!(table.find(1), None);
    assert_eq!(table.find(2), Some(&7));
    assert_eq!(table.filter(|_: &i32| false), 0);
    assert_eq!(table.is_empty(), true);
    assert_eq!(table.slots(), 3);
}

#[test]
fn freed_index_is_reused_first() {
    let mut table = Table::new();

    assert_eq!(table.add(5), 0);
    assert_eq!(table.add(6), 1);
    assert_eq!(table.remove(0), Ok(()));
    assert_eq!(table.add(7), 0);
    assert_eq!(table.len(), 2);
    assert_eq!(*table.get(0), 7);
    assert_eq!(*table.get(1), 6);
}
