use std::rc::Rc;

use gc::multiplier::{is_one_or_more, is_zero_or_more};
use gc::{BorrowMode, Gc, GcColor, GcContext, GcLeaf, GcObject, GcStore, GrayLink};

struct Number(i64);

impl GcLeaf for Number {}

struct Text(String);

impl GcLeaf for Text {}

struct Node {
    label: Gc<Text>,
    children: Vec<Gc<Node>>,
}

impl GcObject for Node {
    fn trace(&self, context: &mut GcContext) {
        self.label.trace(context);
        for child in self.children.iter() {
            child.trace(context);
        }
    }
}

struct Shared(Rc<u8>);

impl GcLeaf for Shared {}

fn bits(value: f64) -> u64 {
    value.to_bits()
}

fn color<T>(context: &GcContext, gc: &Gc<T>) -> GcColor {
    context.header(gc).flags.color()
}

fn mode<T>(context: &GcContext, gc: &Gc<T>) -> BorrowMode {
    context.header(gc).borrow_state.mode()
}

#[test]
fn new_context_has_an_empty_gray_queue() {
    let context: GcContext = GcContext::new(bits(2.0), bits(0.0));
    assert_eq!(context.gray_queue().primary, None);
    assert_eq!(context.gray_queue().secondary, None);
    assert!(!context.gray_queue().uphold_invariant);
    assert!(context.has_room::<Number>());
}

#[test]
fn allocated_object_is_white_unrooted_and_unused() {
    let mut context = GcContext::new(bits(1.0), bits(1.0));
    let mut store = GcStore::new(&context);
    let gc = context.allocate(&mut store, Number(5));
    assert_eq!(color(&context, &gc), GcColor::White1);
    assert!(!context.header(&gc).root_count.is_rooted());
    assert_eq!(mode(&context, &gc), BorrowMode::Unused);
    assert_eq!(context.header(&gc).gray_link, GrayLink::Queue);
    assert_eq!(context.gray_queue().secondary, None);
}

#[test]
fn all_list_runs_from_newest_to_oldest() {
    let mut context = GcContext::default();
    let mut store = GcStore::new(&context);
    let first = context.allocate(&mut store, Number(1));
    let second = context.allocate(&mut store, Number(2));
    let third = context.allocate(&mut store, Number(3));
    assert_eq!(context.header(&first).next_all, None);
    assert_eq!(context.header(&second).next_all, Some(0));
    assert_eq!(context.header(&third).next_all, Some(1));
}

#[test]
fn allocation_leaves_other_objects_alone() {
    let mut context = GcContext::default();
    let mut store = GcStore::new(&context);
    let first = context.allocate_root(&mut store, Number(1));
    let second = context.allocate(&mut store, Number(2));
    assert!(first.unroot() != second);
    assert_eq!(color(&context, &first.unroot()), GcColor::LightGray);
    assert_eq!(color(&context, &second), GcColor::White1);
    let read = first.read(&mut context);
    assert_eq!(read.deref(&store).0, 1);
    read.drop(&mut context);
    let read = second.read(&mut context);
    assert_eq!(read.deref(&store).0, 2);
    read.drop(&mut context);
    first.drop(&mut context);
}

#[test]
fn rooting_a_white_object_enters_the_secondary_part() {
    let mut context = GcContext::default();
    let mut store = GcStore::new(&context);
    let first = context.allocate(&mut store, Number(1));
    let second = context.allocate(&mut store, Number(2));
    let first_root = first.root(&mut context);
    assert_eq!(color(&context, &first), GcColor::LightGray);
    assert!(context.header(&first).root_count.is_rooted());
    assert_eq!(context.gray_queue().secondary, Some(0));
    assert_eq!(context.header(&first).gray_link, GrayLink::Next(None));
    let second_root = second.root(&mut context);
    assert_eq!(context.gray_queue().secondary, Some(1));
    assert_eq!(context.header(&second).gray_link, GrayLink::Next(Some(0)));
    assert_eq!(context.gray_queue().primary, None);
    first_root.drop(&mut context);
    second_root.drop(&mut context);
}

#[test]
fn roots_are_counted() {
    let mut context = GcContext::default();
    let mut store = GcStore::new(&context);
    let first = context.allocate_root(&mut store, Number(1));
    let gc = first.unroot();
    let second = first.clone(&mut context);
    let third = gc.root(&mut context);
    assert!(first == second && second == third);
    assert_eq!(context.gray_queue().secondary, Some(0));
    assert_eq!(context.header(&gc).gray_link, GrayLink::Next(None));
    first.drop(&mut context);
    assert!(context.header(&gc).root_count.is_rooted());
    second.drop(&mut context);
    assert!(context.header(&gc).root_count.is_rooted());
    third.drop(&mut context);
    assert!(!context.header(&gc).root_count.is_rooted());
    assert_eq!(color(&context, &gc), GcColor::LightGray);
}

#[test]
fn cloned_pointers_are_equal() {
    let mut context = GcContext::default();
    let mut store = GcStore::new(&context);
    let gc = context.allocate(&mut store, Number(1));
    let other = context.allocate(&mut store, Number(1));
    assert!(gc.clone() == gc);
    assert!(gc != other);
}

#[test]
fn pointers_of_two_contexts_differ() {
    let mut one = GcContext::default();
    let mut other = GcContext::default();
    let mut one_store = GcStore::new(&one);
    let mut other_store = GcStore::new(&other);
    let first = one.allocate(&mut one_store, Number(1));
    let second = other.allocate(&mut other_store, Number(1));
    assert!(first != second);
    assert!(one.contains(&first));
    assert!(other.contains(&second));
    assert!(!one.contains(&second));
    assert!(!other.contains(&first));
    assert!(one_store.belongs_to(&one) && !one_store.belongs_to(&other));
    assert!(other_store.belongs_to(&other) && !other_store.belongs_to(&one));
    assert!(one_store.contains(&first));
    assert!(other_store.contains(&second));
    assert!(!one_store.contains(&second));
    assert!(!other_store.contains(&first));
    let root = first.root(&mut one);
    let other_root = second.root(&mut other);
    assert!(root != other_root);
    root.drop(&mut one);
    other_root.drop(&mut other);
}

#[test]
fn pointers_of_a_later_context_differ() {
    let first = {
        let mut context = GcContext::default();
        let mut store = GcStore::new(&context);
        context.allocate(&mut store, Number(1))
    };
    let mut context = GcContext::default();
    let mut store = GcStore::new(&context);
    let second = context.allocate(&mut store, Number(1));
    assert!(first != second);
    assert!(!context.contains(&first));
    assert!(!store.contains(&first));
}

#[test]
fn pointers_stay_good_when_the_context_moves() {
    let mut context = GcContext::default();
    let mut store = GcStore::new(&context);
    let gc = context.allocate(&mut store, Number(4));
    let mut moved = vec![context];
    assert!(moved[0].contains(&gc));
    let read = gc.read(&mut moved[0]);
    assert_eq!(read.deref(&store).0, 4);
    read.drop(&mut moved[0]);
}

#[test]
fn a_context_that_goes_out_of_scope_drops_nothing() {
    let count = Rc::new(0u8);
    {
        let mut context = GcContext::default();
        let mut store = GcStore::new(&context);
        let gc = context.allocate(&mut store, Shared(count.clone()));
        context.allocate(&mut store, Shared(count.clone()));
        assert_eq!(Rc::strong_count(&count), 3);
        let mut write = gc.write(&mut context);
        *write.deref_mut(&mut store) = Shared(Rc::new(1u8));
        write.drop(&mut context);
        assert_eq!(Rc::strong_count(&count), 2);
    }
    assert_eq!(Rc::strong_count(&count), 2);
}

#[test]
fn readers_share() {
    let mut context = GcContext::default();
    let mut store = GcStore::new(&context);
    let gc = context.allocate(&mut store, Number(9));
    let first = gc.read(&mut context);
    let second = gc.read(&mut context);
    assert_eq!(mode(&context, &gc), BorrowMode::Reading);
    assert_eq!(first.deref(&store).0, second.deref(&store).0);
    first.drop(&mut context);
    assert_eq!(mode(&context, &gc), BorrowMode::Reading);
    second.drop(&mut context);
    assert_eq!(mode(&context, &gc), BorrowMode::Unused);
}

#[test]
fn writer_excludes_until_given_back() {
    let mut context = GcContext::default();
    let mut store = GcStore::new(&context);
    let gc = context.allocate(&mut store, Number(9));
    let mut write = gc.write(&mut context);
    assert_eq!(mode(&context, &gc), BorrowMode::Writing);
    assert_eq!(write.deref(&store).0, 9);
    write.deref_mut(&mut store).0 += 1;
    assert_eq!(write.deref(&store).0, 10);
    write.drop(&mut context);
    assert_eq!(mode(&context, &gc), BorrowMode::Unused);
    assert_eq!(color(&context, &gc), GcColor::White1);
}

#[test]
fn write_changes_one_object_alone() {
    let mut context = GcContext::default();
    let mut store = GcStore::new(&context);
    let first = context.allocate(&mut store, Number(1));
    let second = context.allocate(&mut store, Number(2));
    let mut write = first.write(&mut context);
    write.deref_mut(&mut store).0 = 7;
    assert_eq!(mode(&context, &second), BorrowMode::Unused);
    let read = second.read(&mut context);
    assert_eq!(read.deref(&store).0, 2);
    read.drop(&mut context);
    write.drop(&mut context);
}

#[test]
fn tracing_a_white_object_enters_the_primary_part_once() {
    let mut context = GcContext::default();
    let mut store = GcStore::new(&context);
    let first = context.allocate(&mut store, Number(1));
    let second = context.allocate(&mut store, Number(2));
    first.trace(&mut context);
    second.trace(&mut context);
    first.trace(&mut context);
    assert_eq!(color(&context, &first), GcColor::DarkGray);
    assert_eq!(color(&context, &second), GcColor::DarkGray);
    assert_eq!(context.gray_queue().primary, Some(1));
    assert_eq!(context.header(&second).gray_link, GrayLink::Next(Some(0)));
    assert_eq!(context.header(&first).gray_link, GrayLink::Next(None));
    assert_eq!(context.gray_queue().secondary, None);
}

#[test]
fn tracing_a_rooted_object_darkens_it_in_place() {
    let mut context = GcContext::default();
    let mut store = GcStore::new(&context);
    let root = context.allocate_root(&mut store, Number(1));
    root.unroot().trace(&mut context);
    assert_eq!(color(&context, &root.unroot()), GcColor::DarkGray);
    assert_eq!(context.gray_queue().primary, None);
    assert_eq!(context.gray_queue().secondary, Some(0));
    root.drop(&mut context);
}

#[test]
fn object_traces_its_children_in_place() {
    let mut context = GcContext::default();
    let mut texts = GcStore::new(&context);
    let mut nodes = GcStore::new(&context);
    let label = context.allocate(&mut texts, Text(String::from("label")));
    let left = context.allocate(&mut nodes, Node { label, children: Vec::new() });
    let right = context.allocate(&mut nodes, Node { label, children: Vec::new() });
    let aside = context.allocate(&mut nodes, Node { label, children: Vec::new() });
    let parent = context.allocate_root(&mut nodes, Node { label, children: vec![left, right] });
    let read = parent.read(&mut context);
    read.deref(&nodes).trace(&mut context);
    read.drop(&mut context);
    assert_eq!(color(&context, &label), GcColor::DarkGray);
    assert_eq!(color(&context, &left), GcColor::DarkGray);
    assert_eq!(color(&context, &right), GcColor::DarkGray);
    assert_eq!(color(&context, &aside), GcColor::White1);
    assert_eq!(color(&context, &parent.unroot()), GcColor::LightGray);
    assert_eq!(context.gray_queue().primary, Some(2));
    assert_eq!(context.header(&right).gray_link, GrayLink::Next(Some(1)));
    assert_eq!(context.header(&left).gray_link, GrayLink::Next(Some(0)));
    assert_eq!(context.header(&label).gray_link, GrayLink::Next(None));
    parent.drop(&mut context);
}

#[test]
fn object_without_pointers_traces_nothing() {
    let mut context = GcContext::default();
    let mut store = GcStore::new(&context);
    let gc = context.allocate(&mut store, Number(1));
    Number(2).trace(&mut context);
    assert_eq!(color(&context, &gc), GcColor::White1);
    assert_eq!(context.gray_queue().primary, None);
}

#[test]
fn objects_of_several_types_share_a_context() {
    let mut context = GcContext::default();
    let mut numbers = GcStore::new(&context);
    let mut texts = GcStore::new(&context);
    let number = context.allocate_root(&mut numbers, Number(3));
    let text = context.allocate_root(&mut texts, Text(String::from("three")));
    let last = context.allocate(&mut numbers, Number(4));
    assert_eq!(context.gray_queue().secondary, Some(1));
    assert_eq!(context.header(&text.unroot()).gray_link, GrayLink::Next(Some(0)));
    assert_eq!(context.header(&text.unroot()).next_all, Some(0));
    assert_eq!(context.header(&last).next_all, Some(1));
    let read_number = number.read(&mut context);
    let read_text = text.read(&mut context);
    assert_eq!(read_number.deref(&numbers).0, 3);
    assert_eq!(read_text.deref(&texts).0.as_str(), "three");
    read_number.drop(&mut context);
    read_text.drop(&mut context);
    let mut write = text.write(&mut context);
    write.deref_mut(&mut texts).0.push('!');
    write.drop(&mut context);
    let read = text.read(&mut context);
    assert_eq!(read.deref(&texts).0.as_str(), "three!");
    read.drop(&mut context);
    let read = last.read(&mut context);
    assert_eq!(read.deref(&numbers).0, 4);
    read.drop(&mut context);
    number.drop(&mut context);
    text.drop(&mut context);
}

#[test]
fn a_value_is_in_the_store_that_it_was_allocated_in() {
    let mut context = GcContext::default();
    let mut store = GcStore::new(&context);
    let mut other = GcStore::new(&context);
    let gc = context.allocate(&mut store, Number(1));
    let elsewhere = context.allocate(&mut other, Number(2));
    assert!(store.contains(&gc) && !other.contains(&gc));
    assert!(other.contains(&elsewhere) && !store.contains(&elsewhere));
    assert!(context.contains(&gc) && context.contains(&elsewhere));
}

#[test]
fn an_object_with_a_root_takes_more() {
    let mut context = GcContext::default();
    let mut store = GcStore::new(&context);
    let root = context.allocate_root(&mut store, Number(1));
    assert!(!context.header(&root.unroot()).root_count.is_full());
    let another = root.clone(&mut context);
    another.drop(&mut context);
    root.drop(&mut context);
}

#[test]
fn multiplier_bounds_agree_with_the_numbers() {
    let numbers: Vec<f64> = vec![
        0.0,
        -0.0,
        1.0,
        1.5,
        2.0,
        0.5,
        0.9999999999999999,
        1.0000000000000002,
        5e-324,
        -5e-324,
        -1.0,
        f64::MAX,
        f64::MIN,
        f64::INFINITY,
        f64::NEG_INFINITY,
        f64::NAN,
        -f64::NAN,
    ];
    for number in numbers {
        assert_eq!(is_one_or_more(number.to_bits()), number >= 1.0);
        assert_eq!(is_zero_or_more(number.to_bits()), number >= 0.0);
    }
    assert_eq!(gc::multiplier::ONE, bits(1.0));
    assert_eq!(gc::multiplier::ONE_AND_A_HALF, bits(1.5));
}
