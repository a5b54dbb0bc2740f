use internment::ArcIntern;
use light_tsdb::interner::{intern, interned_eq};

#[test]
fn t_intern() {
    let hello = intern("hello");
    let hello2 = intern("hello");
    let world = intern("world");

    println!("{}, {}", hello, hello2);
    assert_eq!(hello, hello2);
    assert_ne!(hello, world);
    assert!(interned_eq(&hello, &hello2));
    assert!(!interned_eq(&hello, &world));
    assert_eq!(ArcIntern::<String>::num_objects_interned(), 2);
    assert_eq!(hello.refcount(), 2);
    assert_eq!(world.refcount(), 1);
}
