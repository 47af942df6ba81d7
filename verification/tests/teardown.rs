use malloced::{Effect, Item, Malloced, Pointer, Release, Thin, TypeInfo, TypeTag};

const BASE: usize = 0x20_0000;

fn elem() -> TypeInfo {
    TypeInfo { tag: TypeTag { id: 3 }, size: 16, align: 8 }
}

fn slice(len: usize) -> Malloced<malloced::Slice> {
    Malloced::slice_from_raw_parts(Pointer { addr: BASE, meta: Thin { ty: elem() } }, len)
}

#[test]
fn untouched_iterator_destroys_every_element() {
    let plan = slice(3).into_iter().teardown();
    assert_eq!(plan, Release { first: BASE, count: 3, stride: 16, free: BASE, guarded: true });
    assert_eq!(
        plan.effects(None),
        vec![
            Effect::Destroy { addr: BASE },
            Effect::Destroy { addr: BASE + 16 },
            Effect::Destroy { addr: BASE + 32 },
            Effect::Free { addr: BASE },
        ]
    );
}

#[test]
fn abandoned_prefix_destroys_only_what_was_never_handed_out() {
    let mut iter = slice(5).into_iter();
    assert_eq!(iter.next(), Some(Item::Read { addr: BASE }));
    assert_eq!(iter.next(), Some(Item::Read { addr: BASE + 16 }));
    let plan = iter.teardown();
    assert_eq!(plan, Release { first: BASE + 32, count: 3, stride: 16, free: BASE, guarded: true });
    let log = plan.effects(None);
    assert_eq!(
        log,
        vec![
            Effect::Destroy { addr: BASE + 32 },
            Effect::Destroy { addr: BASE + 48 },
            Effect::Destroy { addr: BASE + 64 },
            Effect::Free { addr: BASE },
        ]
    );
    for handed_out in [BASE, BASE + 16] {
        assert!(!log.contains(&Effect::Destroy { addr: handed_out }));
    }
    for kept in [BASE + 32, BASE + 48, BASE + 64] {
        assert_eq!(log.iter().filter(|e| **e == Effect::Destroy { addr: kept }).count(), 1);
    }
    assert_eq!(log.iter().filter(|e| matches!(e, Effect::Free { .. })).count(), 1);
}

#[test]
fn elements_taken_from_the_back_are_not_destroyed() {
    let mut iter = slice(4).into_iter();
    assert_eq!(iter.next_back(), Some(Item::Read { addr: BASE + 48 }));
    assert_eq!(iter.next(), Some(Item::Read { addr: BASE }));
    assert_eq!(
        iter.teardown().effects(None),
        vec![
            Effect::Destroy { addr: BASE + 16 },
            Effect::Destroy { addr: BASE + 32 },
            Effect::Free { addr: BASE },
        ]
    );
}

#[test]
fn exhausted_iterator_only_frees() {
    let mut iter = slice(2).into_iter();
    iter.next();
    iter.next();
    assert_eq!(iter.next(), None);
    let plan = iter.teardown();
    assert_eq!(plan.count, 0);
    assert_eq!(plan.effects(None), vec![Effect::Free { addr: BASE }]);
}

#[test]
fn failed_destructor_still_frees_the_block() {
    let mut iter = slice(5).into_iter();
    iter.next();
    let plan = iter.teardown();
    assert_eq!(
        plan.effects(Some(2)),
        vec![
            Effect::Destroy { addr: BASE + 16 },
            Effect::Destroy { addr: BASE + 32 },
            Effect::Free { addr: BASE },
            Effect::Fail { addr: BASE + 48 },
        ]
    );
    assert_eq!(
        plan.effects(Some(0)),
        vec![Effect::Free { addr: BASE }, Effect::Fail { addr: BASE + 16 }]
    );
    for fails_at in 0..6 {
        let log = plan.effects(Some(fails_at));
        assert_eq!(log.iter().filter(|e| **e == Effect::Free { addr: BASE }).count(), 1);
        assert_eq!(log.iter().any(|e| matches!(e, Effect::Fail { .. })), fails_at < 4);
    }
    assert_eq!(plan.effects(Some(4)), plan.effects(None));
    assert_eq!(plan.effects(Some(usize::MAX)), plan.effects(None));
}

#[test]
fn free_is_the_last_effect() {
    for taken in 0..4 {
        let mut iter = slice(3).into_iter();
        for _ in 0..taken {
            iter.next();
        }
        let log = iter.teardown().effects(None);
        let (last, before) = log.split_last().unwrap();
        assert_eq!(*last, Effect::Free { addr: BASE });
        assert!(before.iter().all(|e| matches!(e, Effect::Destroy { .. })));
        assert_eq!(before.len(), 3 - taken.min(3));
    }
}

#[test]
fn zero_sized_elements_are_destroyed_at_the_base() {
    let unit = TypeInfo { tag: TypeTag { id: 0 }, size: 0, align: 1 };
    let data = Pointer { addr: BASE, meta: Thin { ty: unit } };
    let mut iter = Malloced::slice_from_raw_parts(data, 3).into_iter();
    iter.next();
    let plan = iter.teardown();
    assert_eq!(plan, Release { first: BASE, count: 2, stride: 0, free: BASE, guarded: true });
    assert_eq!(
        plan.effects(None),
        vec![
            Effect::Destroy { addr: BASE },
            Effect::Destroy { addr: BASE },
            Effect::Free { addr: BASE },
        ]
    );
}
