use gc::{GcContext, GcLeaf, GcStore};

struct Simple(i64);

impl GcLeaf for Simple {}

#[test]
fn test_simple_allocate() {
    let mut gc_context = GcContext::default();
    let mut store = GcStore::new(&gc_context);
    let r = gc_context.allocate_root(&mut store, Simple(1));
    let read = r.read(&mut gc_context);
    assert_eq!(read.deref(&store).0, 1);
    read.drop(&mut gc_context);
    let mut write = r.write(&mut gc_context);
    write.deref_mut(&mut store).0 = 42;
    write.drop(&mut gc_context);
    let read = r.read(&mut gc_context);
    assert_eq!(read.deref(&store).0, 42);
    read.drop(&mut gc_context);
    r.drop(&mut gc_context);
}
