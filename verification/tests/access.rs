use rune_ir::access::{
    Access, AccessError, NotAccessibleMut, NotAccessibleRef, NotAccessibleTake, Snapshot, TAKEN,
};
use rune_ir::shared::{BorrowMut, BorrowRef, Heap};
use rune_ir::value::{IrValue, Payload, Shared, ValueKind};

#[test]
fn snapshot_rendering() {
    assert_eq!(Snapshot(0).to_string(), "fully accessible");
    assert_eq!(Snapshot(1).to_string(), "exclusively accessed");
    assert_eq!(Snapshot(isize::MAX).to_string(), "moved");
    assert_eq!(Snapshot(TAKEN).to_string(), "moved");
    assert_eq!(Snapshot(-1).to_string(), "shared by 1");
    assert_eq!(Snapshot(-10).to_string(), "shared by 10");
    assert_eq!(Snapshot(-1234567).to_string(), "shared by 1234567");
    assert_eq!(Snapshot(2).to_string(), "invalidly marked");
    assert_eq!(Snapshot(isize::MAX - 1).to_string(), "invalidly marked");
    let most = Snapshot(isize::MIN).to_string();
    assert_eq!(most, format!("shared by {}", (isize::MAX as u128) + 1));
}

#[test]
fn error_rendering() {
    assert_eq!(
        NotAccessibleRef(Snapshot(1)).to_string(),
        "cannot read, value is exclusively accessed"
    );
    assert_eq!(NotAccessibleMut(Snapshot(-2)).to_string(), "cannot write, value is shared by 2");
    assert_eq!(NotAccessibleTake(Snapshot(TAKEN)).to_string(), "cannot take, value is moved");
    assert_eq!(
        AccessError::NotAccessibleMut { error: NotAccessibleMut(Snapshot(0)) }.to_string(),
        "cannot write, value is fully accessible"
    );
    assert_eq!(
        AccessError::NotAccessibleRef { error: NotAccessibleRef(Snapshot(TAKEN)) }.to_string(),
        "cannot read, value is moved"
    );
    assert_eq!(
        AccessError::NotAccessibleTake { error: NotAccessibleTake(Snapshot(-1)) }.to_string(),
        "cannot take, value is shared by 1"
    );
    assert_eq!(
        AccessError::UnexpectedType { expected: ValueKind::Object, actual: ValueKind::Tuple }
            .to_string(),
        "expected data of type `object`, but found `tuple`"
    );
    assert_eq!(AccessError::MissingCell { index: 40 }.to_string(), "no cell at index 40");
}

#[test]
fn counter_follows_the_guards() {
    let mut access = Access::new();
    assert!(access.is_shared());
    assert!(access.is_exclusive());
    assert!(!access.is_taken());
    assert_eq!(access.snapshot(), Snapshot(0));

    let a = access.shared().unwrap();
    let b = access.shared().unwrap();
    let c = access.shared().unwrap();
    assert_eq!(access.snapshot(), Snapshot(-3));
    assert!(access.is_shared());
    assert!(!access.is_exclusive());
    assert_eq!(access.exclusive().unwrap_err(), NotAccessibleMut(Snapshot(-3)));
    assert_eq!(access.take().unwrap_err(), NotAccessibleTake(Snapshot(-3)));
    assert_eq!(access.snapshot(), Snapshot(-3));
    access.release_shared(b);
    assert_eq!(access.snapshot(), Snapshot(-2));
    access.release_shared(a);
    access.release_shared(c);
    assert_eq!(access.snapshot(), Snapshot(0));

    let w = access.exclusive().unwrap();
    assert_eq!(access.snapshot(), Snapshot(1));
    assert!(!access.is_shared());
    assert!(!access.is_exclusive());
    assert_eq!(access.exclusive().unwrap_err(), NotAccessibleMut(Snapshot(1)));
    assert_eq!(access.shared().unwrap_err(), NotAccessibleRef(Snapshot(1)));
    assert_eq!(access.take().unwrap_err(), NotAccessibleTake(Snapshot(1)));
    access.release_exclusive(w);
    assert_eq!(access.snapshot(), Snapshot(0));

    let t = access.take().unwrap();
    assert_eq!(access.snapshot(), Snapshot(TAKEN));
    assert!(access.is_taken());
    assert!(!access.is_shared());
    assert!(!access.is_exclusive());
    assert_eq!(access.shared().unwrap_err(), NotAccessibleRef(Snapshot(TAKEN)));
    assert_eq!(access.exclusive().unwrap_err(), NotAccessibleMut(Snapshot(TAKEN)));
    assert_eq!(access.take().unwrap_err(), NotAccessibleTake(Snapshot(TAKEN)));
    access.release_take(t);
    assert_eq!(access.snapshot(), Snapshot(0));
    assert!(access.shared().is_ok());
}

#[test]
fn heap_cells_are_borrowed_by_handle() {
    let mut heap = Heap::new();
    assert_eq!(heap.len(), 0);
    let a = heap.share(Payload::String("a".to_string()));
    let v = heap.share(Payload::Vec(vec![IrValue::Bool(true)]));
    assert_eq!(a, Shared { index: 0 });
    assert_eq!(v, Shared { index: 1 });
    assert_eq!(heap.len(), 2);
    assert_eq!(heap.snapshot(a), Some(Snapshot(0)));
    assert_eq!(heap.snapshot(Shared { index: 2 }), None);

    let first = heap.borrow_ref(a).unwrap();
    let alias = a;
    let second = heap.borrow_ref(alias).unwrap();
    assert_eq!(first.cell, a);
    assert_eq!(heap.snapshot(a), Some(Snapshot(-2)));
    assert_eq!(heap.snapshot(v), Some(Snapshot(0)));
    assert!(matches!(heap.read(&first), Payload::String(s) if s == "a"));
    assert_eq!(
        heap.borrow_mut(a).err(),
        Some(AccessError::NotAccessibleMut { error: NotAccessibleMut(Snapshot(-2)) })
    );
    assert_eq!(
        heap.take(a).err(),
        Some(AccessError::NotAccessibleTake { error: NotAccessibleTake(Snapshot(-2)) })
    );
    heap.release_ref(first);
    heap.release_ref(second);
    assert_eq!(heap.snapshot(a), Some(Snapshot(0)));

    let w = heap.borrow_mut(a).unwrap();
    assert_eq!(
        heap.borrow_mut(a).err(),
        Some(AccessError::NotAccessibleMut { error: NotAccessibleMut(Snapshot(1)) })
    );
    assert_eq!(
        heap.borrow_ref(a).err(),
        Some(AccessError::NotAccessibleRef { error: NotAccessibleRef(Snapshot(1)) })
    );
    assert_eq!(
        heap.read_string(a).err(),
        Some(AccessError::NotAccessibleRef { error: NotAccessibleRef(Snapshot(1)) })
    );
    let previous = heap.write(&w, Payload::String("b".to_string()));
    assert!(matches!(previous, Payload::String(s) if s == "a"));
    heap.release_mut(w);
    assert_eq!(heap.read_string(a).unwrap(), "b");
    assert_eq!(heap.snapshot(a), Some(Snapshot(0)));

    assert_eq!(
        heap.borrow_ref(Shared { index: 9 }).err(),
        Some(AccessError::MissingCell { index: 9 })
    );
    assert_eq!(
        heap.borrow_mut(Shared { index: 9 }).err(),
        Some(AccessError::MissingCell { index: 9 })
    );
    assert_eq!(heap.take(Shared { index: 9 }).err(), Some(AccessError::MissingCell { index: 9 }));
    assert_eq!(
        heap.read_string(v).err(),
        Some(AccessError::UnexpectedType { expected: ValueKind::String, actual: ValueKind::Vec })
    );
    assert_eq!(
        heap.read_items(v, ValueKind::Tuple).err(),
        Some(AccessError::UnexpectedType { expected: ValueKind::Tuple, actual: ValueKind::Vec })
    );
    assert_eq!(
        heap.read_entries(a).err(),
        Some(AccessError::UnexpectedType {
            expected: ValueKind::Object,
            actual: ValueKind::String
        })
    );
    assert_eq!(heap.snapshot(v), Some(Snapshot(0)));
    assert_eq!(heap.read_items(v, ValueKind::Vec).unwrap().len(), 1);
}

#[test]
fn take_moves_the_value_out() {
    let mut heap = Heap::new();
    let a = heap.share(Payload::String("gone".to_string()));
    let (guard, data) = heap.take(a).unwrap();
    assert!(matches!(&data, Payload::String(s) if s == "gone"));
    assert_eq!(heap.snapshot(a), Some(Snapshot(TAKEN)));
    assert_eq!(
        heap.read_string(a).err(),
        Some(AccessError::NotAccessibleRef { error: NotAccessibleRef(Snapshot(TAKEN)) })
    );
    assert_eq!(
        heap.borrow_mut(a).err(),
        Some(AccessError::NotAccessibleMut { error: NotAccessibleMut(Snapshot(TAKEN)) })
    );
    assert_eq!(
        heap.take(a).err(),
        Some(AccessError::NotAccessibleTake { error: NotAccessibleTake(Snapshot(TAKEN)) })
    );
    heap.release_take(guard, Payload::String("back".to_string()));
    assert_eq!(heap.snapshot(a), Some(Snapshot(0)));
    assert_eq!(heap.read_string(a).unwrap(), "back");
}

#[test]
fn try_map_keeps_or_releases_the_borrow() {
    let mut heap = Heap::new();
    let v = heap.share(Payload::Vec(vec![IrValue::Bool(true), IrValue::Bool(false)]));
    let pick = |index: usize| {
        move |data: &Payload| match data {
            Payload::Vec(items) if index < items.len() => Ok(index),
            _ => Err("no such item"),
        }
    };

    let whole = heap.borrow_ref(v).unwrap();
    let item: BorrowRef<usize> = BorrowRef::try_map(whole, &mut heap, pick(1)).unwrap();
    assert_eq!(item.data, 1);
    assert_eq!(item.cell, v);
    assert_eq!(heap.snapshot(v), Some(Snapshot(-1)));
    heap.release_ref(item);
    assert_eq!(heap.snapshot(v), Some(Snapshot(0)));

    let whole = heap.borrow_ref(v).unwrap();
    let failed = BorrowRef::try_map(whole, &mut heap, pick(2));
    assert_eq!(failed.err(), Some("no such item"));
    assert_eq!(heap.snapshot(v), Some(Snapshot(0)));

    let whole = heap.borrow_mut(v).unwrap();
    let item: BorrowMut<usize> = BorrowMut::try_map(whole, &mut heap, pick(0)).unwrap();
    assert_eq!(item.data, 0);
    assert_eq!(heap.snapshot(v), Some(Snapshot(1)));
    heap.release_mut(item);

    let whole = heap.borrow_mut(v).unwrap();
    let failed = BorrowMut::try_map(whole, &mut heap, pick(5));
    assert_eq!(failed.err(), Some("no such item"));
    assert_eq!(heap.snapshot(v), Some(Snapshot(0)));
    assert!(heap.borrow_mut(v).is_ok());
}

#[test]
fn begin_and_end_write() {
    let mut heap = Heap::new();
    let v = heap.share(Payload::Tuple(vec![IrValue::Bool(true)]));
    assert_eq!(
        heap.begin_write(v, ValueKind::Vec).err(),
        Some(AccessError::UnexpectedType { expected: ValueKind::Vec, actual: ValueKind::Tuple })
    );
    assert_eq!(heap.snapshot(v), Some(Snapshot(0)));
    let (borrow, data) = heap.begin_write(v, ValueKind::Tuple).unwrap();
    assert_eq!(heap.snapshot(v), Some(Snapshot(1)));
    let mut items = match data {
        Payload::Tuple(items) => items,
        other => panic!("expected a tuple, got {:?}", other),
    };
    items.push(IrValue::Unit);
    heap.end_write(borrow, Payload::Tuple(items));
    assert_eq!(heap.snapshot(v), Some(Snapshot(0)));
    assert_eq!(heap.read_items(v, ValueKind::Tuple).unwrap().len(), 2);
}
