use malloced::{
    Capability, Dyn, Effect, Malloced, Pinned, Pointer, Release, Slice, Thin, TypeInfo, TypeTag,
};

const BASE: usize = 0x10_0000;

fn widget() -> TypeInfo {
    TypeInfo { tag: TypeTag { id: 7 }, size: 24, align: 8 }
}

fn gadget() -> TypeInfo {
    TypeInfo { tag: TypeTag { id: 8 }, size: 24, align: 8 }
}

fn thin(addr: usize) -> Pointer<Thin> {
    Pointer { addr, meta: Thin { ty: widget() } }
}

#[test]
fn adopting_keeps_the_pointer() {
    let handle = Malloced::from_raw(thin(BASE));
    assert_eq!(Malloced::as_ptr(&handle), thin(BASE));
    let mut handle = handle;
    assert_eq!(Malloced::as_mut_ptr(&mut handle), thin(BASE));
    assert_eq!(Malloced::as_ptr(&handle), thin(BASE));
}

#[test]
fn raw_round_trip_gives_the_same_handle() {
    let handle = Malloced::from_raw(thin(BASE));
    let raw = Malloced::into_raw(handle);
    assert_eq!(raw, thin(BASE));
    let again = Malloced::from_raw(raw);
    assert_eq!(Malloced::as_ptr(&again), thin(BASE));
    assert_eq!(Malloced::into_raw(again), raw);
}

#[test]
fn round_trip_of_a_slice_keeps_its_length() {
    let handle = Malloced::slice_from_raw_parts(thin(BASE), 5);
    let raw = Malloced::into_raw(handle);
    assert_eq!(raw, Pointer { addr: BASE, meta: Slice { elem: widget(), len: 5 } });
    let again = Malloced::from_raw(raw);
    assert_eq!(Malloced::as_ptr(&again), raw);
}

#[test]
fn leak_hands_out_the_pointer_and_plans_nothing() {
    let handle = Malloced::from_raw(thin(BASE));
    let leaked: Pointer<Thin> = Malloced::leak(handle);
    assert_eq!(leaked, thin(BASE));
    let readopted = Malloced::from_raw(leaked);
    let log = Malloced::release(readopted).effects(None);
    assert_eq!(log, vec![Effect::Destroy { addr: BASE }, Effect::Free { addr: BASE }]);
}

#[test]
fn release_destroys_then_frees() {
    let plan = Malloced::release(Malloced::from_raw(thin(BASE)));
    assert_eq!(plan, Release { first: BASE, count: 1, stride: 24, free: BASE, guarded: false });
    assert_eq!(
        plan.effects(None),
        vec![Effect::Destroy { addr: BASE }, Effect::Free { addr: BASE }]
    );
}

#[test]
fn release_of_a_slice_destroys_every_element_first() {
    let handle = Malloced::slice_from_raw_parts(thin(BASE), 3);
    let plan = Malloced::release(handle);
    assert_eq!(plan, Release { first: BASE, count: 3, stride: 24, free: BASE, guarded: false });
    assert_eq!(
        plan.effects(None),
        vec![
            Effect::Destroy { addr: BASE },
            Effect::Destroy { addr: BASE + 24 },
            Effect::Destroy { addr: BASE + 48 },
            Effect::Free { addr: BASE },
        ]
    );
}

#[test]
fn release_of_an_empty_slice_only_frees() {
    let handle = Malloced::slice_from_raw_parts(thin(BASE), 0);
    assert_eq!(Malloced::release(handle).effects(None), vec![Effect::Free { addr: BASE }]);
}

#[test]
fn failed_destructor_of_a_handle_keeps_the_block() {
    let handle = Malloced::slice_from_raw_parts(thin(BASE), 3);
    let plan = Malloced::release(handle);
    assert_eq!(
        plan.effects(Some(1)),
        vec![Effect::Destroy { addr: BASE }, Effect::Fail { addr: BASE + 24 }]
    );
    assert_eq!(plan.effects(Some(0)), vec![Effect::Fail { addr: BASE }]);
    assert_eq!(plan.effects(Some(3)), plan.effects(None));
    assert!(!plan.effects(Some(2)).contains(&Effect::Free { addr: BASE }));
}

#[test]
fn pinning_keeps_the_pointer_and_the_plan() {
    let pinned: Pinned<Thin> = Malloced::into_pin(Malloced::from_raw(thin(BASE)));
    assert_eq!(Pinned::as_ptr(&pinned), thin(BASE));
    let plan = Pinned::release(pinned);
    assert_eq!(plan, Release { first: BASE, count: 1, stride: 24, free: BASE, guarded: false });
}

#[test]
fn conversion_into_a_pinned_handle_pins() {
    let pinned = Pinned::from(Malloced::from_raw(thin(BASE)));
    assert_eq!(Pinned::as_ptr(&pinned), thin(BASE));
    let pinned: Pinned<Slice> = Malloced::slice_from_raw_parts(thin(BASE), 2).into();
    assert_eq!(Pinned::as_ptr(&pinned).meta.len, 2);
    assert_eq!(
        Pinned::release(pinned),
        Release { first: BASE, count: 2, stride: 24, free: BASE, guarded: false }
    );
}

#[test]
fn pointer_casts_keep_the_address() {
    let any = thin(BASE).erased(Capability::Send);
    assert_eq!(any, Pointer { addr: BASE, meta: Dyn { ty: widget(), cap: Capability::Send } });
    assert!(any.is_type(widget().tag));
    assert!(!any.is_type(gadget().tag));
    assert_eq!(any.concrete(), thin(BASE));
    assert_eq!(
        thin(BASE).as_slice(4),
        Pointer { addr: BASE, meta: Slice { elem: widget(), len: 4 } }
    );
}

#[test]
fn handle_that_may_only_be_sent_recovers_its_type() {
    let sendable = Malloced::from_raw(thin(BASE).erased(Capability::Send));
    match sendable.downcast(widget().tag) {
        Ok(typed) => assert_eq!(Malloced::as_ptr(&typed), thin(BASE)),
        Err(_) => panic!("the erased type was not recognised"),
    }
}

#[test]
fn erasing_keeps_address_and_type() {
    let any = Malloced::into_any(Malloced::from_raw(thin(BASE)));
    assert_eq!(
        Malloced::as_ptr(&any),
        Pointer { addr: BASE, meta: Dyn { ty: widget(), cap: Capability::Local } }
    );
    let any = Malloced::into_any_send(Malloced::from_raw(thin(BASE)));
    assert_eq!(
        Malloced::as_ptr(&any),
        Pointer { addr: BASE, meta: Dyn { ty: widget(), cap: Capability::SendSync } }
    );
}

#[test]
fn downcast_to_the_erased_type_succeeds() {
    let any = Malloced::into_any(Malloced::from_raw(thin(BASE)));
    match any.downcast(widget().tag) {
        Ok(typed) => assert_eq!(Malloced::as_ptr(&typed), thin(BASE)),
        Err(_) => panic!("the erased type was not recognised"),
    }
}

#[test]
fn downcast_to_another_type_returns_the_handle() {
    let any = Malloced::into_any_send(Malloced::from_raw(thin(BASE)));
    let before = Malloced::as_ptr(&any);
    match any.downcast(gadget().tag) {
        Ok(_) => panic!("a foreign type was recognised"),
        Err(same) => {
            assert_eq!(Malloced::as_ptr(&same), before);
            // Nothing was consumed: the handle still recovers its own type.
            match same.downcast(widget().tag) {
                Ok(typed) => assert_eq!(Malloced::as_ptr(&typed), thin(BASE)),
                Err(_) => panic!("the erased type was not recognised"),
            }
        }
    }
}

#[test]
fn every_path_frees_once() {
    let count =
        |log: &Vec<Effect>| log.iter().filter(|e| **e == Effect::Free { addr: BASE }).count();

    let dropped = Malloced::release(Malloced::from_raw(thin(BASE))).effects(None);
    assert_eq!(count(&dropped), 1);

    let erased = Malloced::into_any(Malloced::from_raw(thin(BASE)));
    assert_eq!(count(&Malloced::release(erased).effects(None)), 1);

    let erased = Malloced::into_any(Malloced::from_raw(thin(BASE)));
    let recovered = match erased.downcast(widget().tag) {
        Ok(typed) => Malloced::release(typed),
        Err(any) => Malloced::release(any),
    };
    assert_eq!(count(&recovered.effects(None)), 1);

    let erased = Malloced::into_any(Malloced::from_raw(thin(BASE)));
    let refused = match erased.downcast(gadget().tag) {
        Ok(typed) => Malloced::release(typed),
        Err(any) => Malloced::release(any),
    };
    assert_eq!(count(&refused.effects(None)), 1);

    let mut iter = Malloced::slice_from_raw_parts(thin(BASE), 4).into_iter();
    iter.next();
    iter.next_back();
    assert_eq!(count(&iter.teardown().effects(None)), 1);
}

#[test]
fn null_from_the_allocator_gives_no_handle() {
    let null = Pointer { addr: 0, meta: Thin { ty: widget() } };
    assert!(Malloced::from_alloc(null, 3).is_none());
    assert!(Malloced::from_alloc(null, 0).is_none());
}

#[test]
fn request_too_large_to_state_is_not_made() {
    assert_eq!(Malloced::alloc_size(widget(), usize::MAX), None);
    assert_eq!(Malloced::alloc_size(widget(), usize::MAX / 2), None);
}

#[test]
fn allocator_answers_are_aligned_blocks_within_the_address_space() {
    assert!(thin(BASE).answers(72));
    assert!(thin(BASE).answers(0));
    assert!(!thin(BASE + 4).answers(72));
    assert!(thin(BASE).answers(isize::MAX as usize));
    assert!(!thin(BASE).answers(isize::MAX as usize + 1));
    let top = usize::MAX - 7;
    assert!(!thin(top).answers(8));
    assert!(thin(top - 8).answers(8));
    let odd = TypeInfo { tag: TypeTag { id: 5 }, size: 6, align: 4 };
    assert!(!Pointer { addr: BASE, meta: Thin { ty: odd } }.answers(6));
    let unaligned = TypeInfo { tag: TypeTag { id: 5 }, size: 6, align: 0 };
    assert!(!Pointer { addr: BASE, meta: Thin { ty: unaligned } }.answers(6));
}

#[test]
fn request_size_counts_a_byte_for_each_zero_sized_value() {
    let unit = TypeInfo { tag: TypeTag { id: 0 }, size: 0, align: 1 };
    assert_eq!(Malloced::alloc_size(unit, 0), Some(0));
    assert_eq!(Malloced::alloc_size(unit, 5), Some(5));
    assert_eq!(Malloced::alloc_size(unit, usize::MAX), Some(usize::MAX));
    assert_eq!(Malloced::alloc_size(widget(), 0), Some(0));
    assert_eq!(Malloced::alloc_size(widget(), 3), Some(72));
    assert_eq!(Malloced::alloc_size(widget(), usize::MAX / 24), Some(usize::MAX / 24 * 24));
    assert_eq!(Malloced::alloc_size(widget(), usize::MAX / 24 + 1), None);
}

#[test]
fn allocated_slice_spans_the_values() {
    let handle = Malloced::from_alloc(thin(BASE), 3).unwrap();
    assert_eq!(
        Malloced::as_ptr(&handle),
        Pointer { addr: BASE, meta: Slice { elem: widget(), len: 3 } }
    );
}
