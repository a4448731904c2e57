use std::collections::HashMap;

use pba_qualifier_exam::{
    declare, how_hard_was_this_section, how_many_hours_did_you_spend_on_this_section, map_of,
    ConstU16, ConstU32, DeclareError, Get, Seven, TypeBinding, ValueType, Visibility,
};

type Foo = ConstU32<10>;
pub type Bar = ConstU32<42>;
pub type Baz = ConstU16<21>;

#[test]
fn map() {
    let macro_generated: HashMap<u32, u32> = map_of(&[(1, 2), (3, 4), (5, 6)]);
    let mut expected = HashMap::<u32, u32>::new();
    expected.insert(1, 2);
    expected.insert(3, 4);
    expected.insert(5, 6);

    assert_eq!(macro_generated, expected);
}

#[test]
fn impl_get() {
    assert_eq!(Foo::get(), 10);
    assert_eq!(Bar::get(), 42);

    let value: u16 = Baz::get();
    assert_eq!(value, 21);
}

#[test]
fn map_lookups_and_absent_key() {
    let m: HashMap<u32, u32> = map_of(&[(1, 2), (3, 4), (5, 6)]);
    assert_eq!(m.get(&1), Some(&2));
    assert_eq!(m.get(&3), Some(&4));
    assert_eq!(m.get(&5), Some(&6));
    assert_eq!(m.get(&7), None);
    assert_eq!(m.len(), 3);
}

#[test]
fn map_duplicate_key_last_wins() {
    let m: HashMap<u32, u32> = map_of(&[(1, 2), (1, 9)]);
    assert_eq!(m.get(&1), Some(&9));
    assert_eq!(m.len(), 1);
}

#[test]
fn map_duplicate_key_between_others() {
    let m: HashMap<u8, &str> = map_of(&[(4, "a"), (2, "b"), (4, "c"), (2, "d"), (9, "e")]);
    assert_eq!(m.get(&4), Some(&"c"));
    assert_eq!(m.get(&2), Some(&"d"));
    assert_eq!(m.get(&9), Some(&"e"));
    assert_eq!(m.len(), 3);
}

#[test]
fn map_empty() {
    let m: HashMap<u32, u32> = map_of(&[]);
    assert!(m.is_empty());
}

#[test]
fn map_built_twice_is_equal() {
    let pairs = [(1u64, 10u64), (2, 20), (1, 30)];
    let first = map_of(&pairs);
    let second = map_of(&pairs);
    assert_eq!(first, second);
    let doubled: Vec<(u64, u64)> = pairs.iter().chain(pairs.iter()).copied().collect();
    assert_eq!(map_of(&doubled), first);
}

#[test]
fn hand_written_marker() {
    assert_eq!(Seven::get(), 7);
}

#[test]
fn markers_repeat_their_value() {
    assert_eq!(Foo::get(), Foo::get());
    assert_eq!(<ConstU32<0> as Get<u32>>::get(), 0);
    assert_eq!(<ConstU32<{ u32::MAX }> as Get<u32>>::get(), u32::MAX);
}

fn binding(visibility: Visibility, name: &str, ty: ValueType, value: u64) -> TypeBinding {
    TypeBinding { visibility, name: name.to_string(), ty, value }
}

fn example_batch() -> Vec<TypeBinding> {
    vec![
        binding(Visibility::Local, "Foo", ValueType::U32, 10),
        binding(Visibility::Exported, "Bar", ValueType::U32, 42),
        binding(Visibility::Exported, "Baz", ValueType::U16, 21),
    ]
}

#[test]
fn declare_example_batch() {
    let declared = declare(&example_batch()).unwrap();
    assert_eq!(declared.len(), 3);
    assert_eq!(declared[0].name, "Foo");
    assert_eq!(declared[0].get(), 10);
    assert!(!declared[0].is_exported());
    assert_eq!(declared[1].name, "Bar");
    assert_eq!(declared[1].get(), 42);
    assert!(declared[1].is_exported());
    assert_eq!(declared[2].name, "Baz");
    assert_eq!(declared[2].ty, ValueType::U16);
    assert_eq!(declared[2].get(), 21);
    assert!(declared[2].is_exported());
}

#[test]
fn declare_order_does_not_matter() {
    let mut batch = example_batch();
    batch.reverse();
    let declared = declare(&batch).unwrap();
    assert_eq!(declared[0].name, "Baz");
    assert_eq!(declared[0].get(), 21);
    assert_eq!(declared[2].name, "Foo");
    assert_eq!(declared[2].get(), 10);
    assert!(!declared[2].is_exported());
}

#[test]
fn declare_empty_batch() {
    let declared = declare(&Vec::new()).unwrap();
    assert!(declared.is_empty());
}

#[test]
fn declare_duplicate_name() {
    let mut batch = example_batch();
    batch.push(binding(Visibility::Local, "Bar", ValueType::U8, 1));
    assert_eq!(declare(&batch).err(), Some(DeclareError::DuplicateName { index: 3 }));
}

#[test]
fn declare_literal_out_of_range() {
    let batch = vec![
        binding(Visibility::Local, "Small", ValueType::U8, 255),
        binding(Visibility::Local, "Big", ValueType::U8, 256),
    ];
    assert_eq!(declare(&batch).err(), Some(DeclareError::LiteralOutOfRange { index: 1 }));
}

#[test]
fn declare_first_fault_wins() {
    let batch = vec![
        binding(Visibility::Local, "A", ValueType::U16, 1),
        binding(Visibility::Local, "A", ValueType::U16, 70_000),
        binding(Visibility::Local, "A", ValueType::U16, 2),
    ];
    assert_eq!(declare(&batch).err(), Some(DeclareError::LiteralOutOfRange { index: 1 }));
}

#[test]
fn declare_largest_values() {
    let batch = vec![
        binding(Visibility::Local, "A", ValueType::U32, u32::MAX as u64),
        binding(Visibility::Local, "B", ValueType::U64, u64::MAX),
    ];
    let declared = declare(&batch).unwrap();
    assert_eq!(declared[0].get(), u32::MAX as u64);
    assert_eq!(declared[1].get(), u64::MAX);
}

#[test]
fn feedback_answers() {
    assert_eq!(how_hard_was_this_section(), 170);
    assert_eq!(how_many_hours_did_you_spend_on_this_section(), 2);
}
