use std::cell::Cell;
use std::rc::Rc;

use fixmat::ArrayBuilder;

#[test]
fn test_builder_fill_and_build_keeps_order() {
    let mut b = ArrayBuilder::<i32, 4>::new();
    for v in [10, 20, 30, 40] {
        assert_eq!(b.push(v), Ok(()));
    }
    assert_eq!(b.filled(), 4);
    assert_eq!(b.build(), Ok(vec![10, 20, 30, 40]));
}

#[test]
fn test_builder_push_past_capacity_returns_value() {
    let mut b = ArrayBuilder::<String, 2>::new();
    assert_eq!(b.push("a".to_string()), Ok(()));
    assert_eq!(b.push("b".to_string()), Ok(()));
    assert_eq!(b.push("overflow".to_string()), Err("overflow".to_string()));
    assert_eq!(b.filled(), 2);
    assert_eq!(b.build(), Ok(vec!["a".to_string(), "b".to_string()]));
}

#[test]
fn test_builder_incomplete_build_returns_builder() {
    let mut b = ArrayBuilder::<i32, 3>::new();
    assert_eq!(b.push(1), Ok(()));
    assert_eq!(b.push(2), Ok(()));
    let mut again = match b.build() {
        Ok(_) => panic!("an incomplete builder must not build"),
        Err(again) => again,
    };
    assert_eq!(again.filled(), 2);
    assert_eq!(again.push(3), Ok(()));
    assert_eq!(again.build(), Ok(vec![1, 2, 3]));
}

/// A value that counts how many times it is destroyed, for observing the
/// builder's cleanup of partially-filled state.
struct CountsDrops(Rc<Cell<usize>>);

impl Drop for CountsDrops {
    fn drop(&mut self) {
        self.0.set(self.0.get() + 1);
    }
}

#[test]
fn test_builder_drop_destroys_only_live_values() {
    let drops = Rc::new(Cell::new(0));
    {
        let mut b = ArrayBuilder::<CountsDrops, 4>::new();
        assert!(b.push(CountsDrops(drops.clone())).is_ok());
        assert!(b.push(CountsDrops(drops.clone())).is_ok());
        assert_eq!(drops.get(), 0);
    }
    assert_eq!(drops.get(), 2);
}

#[test]
fn test_builder_build_transfers_without_extra_drops() {
    let drops = Rc::new(Cell::new(0));
    {
        let mut b = ArrayBuilder::<CountsDrops, 2>::new();
        assert!(b.push(CountsDrops(drops.clone())).is_ok());
        assert!(b.push(CountsDrops(drops.clone())).is_ok());
        let values = match b.build() {
            Ok(values) => values,
            Err(_) => panic!("a full builder must build"),
        };
        assert_eq!(drops.get(), 0);
        drop(values);
    }
    assert_eq!(drops.get(), 2);
}
