use toymachine::device::{run_simulation, Device};
use toymachine::splitter::{Connectable, Splitter};
use toymachine::store::{Store, Stores};
use toymachine::un::U;

#[test]
fn store_keeps_value_and_tick() {
    let mut s = Store::new(U::new(4, 9));
    assert_eq!(s.get().value, 9);
    assert_eq!(s.get_store_tick(), 0);
    s.set(U::new(4, 3), 7);
    assert_eq!(s.get().value, 3);
    assert_eq!(s.get_store_tick(), 7);
}

#[test]
fn splitter_allocates_three_zeroed_stores() {
    let mut stores = Stores::new();
    let sp = Splitter::new(4, 4, &mut stores);
    assert_eq!(sp.get_value_ref(), 0);
    assert_eq!(sp.as_low_end().get_value_ref(), 1);
    assert_eq!(sp.as_high_end().get_value_ref(), 2);
    for id in 0..3 {
        assert_eq!(stores.read(id).value, 0);
        assert_eq!(stores.read_tick(id), 0);
    }
    assert_eq!(stores.read(0).bits, 8);
    assert_eq!(stores.read(1).bits, 4);
    assert_eq!(stores.read(2).bits, 4);
}

#[test]
fn low_write_converges_into_combined() {
    let mut stores = Stores::new();
    let sp = Splitter::new(4, 4, &mut stores);
    let low = sp.as_low_end().get_value_ref();
    stores.write(low, U::new(4, 0xA), 1);
    sp.reconcile(&mut stores, 1);
    // The written value landed in the combined store's low bits, stamped
    // with the current tick; its high bits are unchanged.
    assert_eq!(stores.read(sp.get_value_ref()).value, 0x0A);
    assert_eq!(stores.read_tick(sp.get_value_ref()), 1);
    assert_eq!(stores.read(low).value, 0xA);
    assert_eq!(stores.read_tick(low), 1);
}

#[test]
fn combined_write_propagates_to_both_ends() {
    let mut stores = Stores::new();
    let sp = Splitter::new(4, 4, &mut stores);
    stores.write(sp.get_value_ref(), U::new(8, 0xAB), 1);
    sp.reconcile(&mut stores, 1);
    let low = sp.as_low_end().get_value_ref();
    let high = sp.as_high_end().get_value_ref();
    assert_eq!(stores.read(low).value, 0xB);
    assert_eq!(stores.read_tick(low), 1);
    assert_eq!(stores.read(high).value, 0xA);
    assert_eq!(stores.read_tick(high), 1);
    // The combined store itself is untouched.
    assert_eq!(stores.read(sp.get_value_ref()).value, 0xAB);
    assert_eq!(stores.read_tick(sp.get_value_ref()), 1);
}

#[test]
fn asymmetric_widths_split_at_the_low_width() {
    let mut stores = Stores::new();
    let sp = Splitter::new(4, 8, &mut stores);
    stores.write(sp.get_value_ref(), U::new(12, 0xABC), 1);
    sp.reconcile(&mut stores, 1);
    assert_eq!(stores.read(sp.as_low_end().get_value_ref()).value, 0xC);
    assert_eq!(stores.read(sp.as_high_end().get_value_ref()).value, 0xAB);
}

#[test]
fn reconciling_twice_at_one_tick_changes_nothing() {
    let mut stores = Stores::new();
    let sp = Splitter::new(4, 4, &mut stores);
    let low = sp.as_low_end().get_value_ref();
    let high = sp.as_high_end().get_value_ref();
    stores.write(low, U::new(4, 0xA), 1);
    stores.write(high, U::new(4, 0x3), 1);
    sp.reconcile(&mut stores, 1);
    let after_first: Vec<(u64, u32)> = (0..3).map(|i| (stores.read(i).value, stores.read_tick(i))).collect();
    assert_eq!(after_first[0], (0x3A, 1));
    sp.reconcile(&mut stores, 1);
    let after_second: Vec<(u64, u32)> = (0..3).map(|i| (stores.read(i).value, stores.read_tick(i))).collect();
    assert_eq!(after_first, after_second);
}

#[test]
fn connect_to_joins_two_stores() {
    let mut stores = Stores::new();
    let a = Splitter::new(4, 4, &mut stores);
    let b = Splitter::new(2, 2, &mut stores);
    let mut a_low = a.as_low_end();
    a_low.connect_to(b.get_value_ref());
    assert_eq!(a_low.get_value_ref(), b.get_value_ref());
    let a = a_low.into_splitter();
    // a's low side now reads b's combined store.
    stores.write(b.get_value_ref(), U::new(4, 0x9), 1);
    a.reconcile(&mut stores, 1);
    assert_eq!(stores.read(a.get_value_ref()).value, 0x9);
}

#[test]
fn simulation_ticks_devices_in_order() {
    let mut stores = Stores::new();
    let sp = Splitter::new(4, 4, &mut stores);
    let combined = sp.get_value_ref();
    let low = sp.as_low_end().get_value_ref();
    let high = sp.as_high_end().get_value_ref();
    stores.write(combined, U::new(8, 0xAB), 1);
    let mut devices = vec![sp];
    run_simulation(&mut devices, &mut stores, Some(2));
    assert_eq!(stores.read(low).value, 0xB);
    assert_eq!(stores.read(high).value, 0xA);
    assert_eq!(stores.read(combined).value, 0xAB);
}

#[test]
fn device_trait_tick_reconciles() {
    let mut stores = Stores::new();
    let mut sp = Splitter::new(4, 4, &mut stores);
    let low = sp.as_low_end().get_value_ref();
    stores.write(low, U::new(4, 0x5), 3);
    Device::tick(&mut sp, &mut stores, 3);
    assert_eq!(stores.read(sp.get_value_ref()).value, 0x05);
}
