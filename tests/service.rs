use user_service::book::Book;
use user_service::greeting::{get_user, greet, hello, push_decimal};
use user_service::store::{user_not_found, UserStore};

#[test]
fn greet_is_fixed() {
    assert_eq!(greet(), "Hello, world!");
    assert_eq!(greet(), greet());
}

#[test]
fn greet_ignores_store_state() {
    let mut store = UserStore::new();
    let before = greet();
    store.post_user("Alice".to_string()).unwrap();
    assert_eq!(greet(), before);
    assert_eq!(greet(), "Hello, world!");
}

#[test]
fn hello_greets_by_name() {
    assert_eq!(hello("Alice"), "Hello, Alice!");
    assert_eq!(hello(""), "Hello, !");
    assert_eq!(hello("zoë ß"), "Hello, zoë ß!");
}

#[test]
fn get_user_echoes_id() {
    assert_eq!(get_user(0), "Hello, id 0!");
    assert_eq!(get_user(7), "Hello, id 7!");
    assert_eq!(get_user(42), "Hello, id 42!");
    assert_eq!(get_user(1000), "Hello, id 1000!");
    assert_eq!(get_user(u32::MAX), "Hello, id 4294967295!");
}

#[test]
fn push_decimal_appends_digits() {
    let mut s = "n=".to_string();
    push_decimal(&mut s, 90210);
    assert_eq!(s, "n=90210");
}

#[test]
fn sequential_creates_count_up() {
    let mut store = UserStore::new();
    let a = store.post_user("Alice".to_string()).unwrap();
    assert_eq!(a.id, 1);
    assert_eq!(a.name, "Alice");
    let b = store.post_user("Bob".to_string()).unwrap();
    assert_eq!(b.id, 2);
    assert_eq!(b.name, "Bob");
    let c = store.post_user("Carol".to_string()).unwrap();
    assert_eq!(c.id, 3);
    assert_eq!(store.len(), 3);
}

#[test]
fn fetch_after_create() {
    let mut store = UserStore::new();
    store.post_user("Alice".to_string()).unwrap();
    let u = store.user(1).unwrap();
    assert_eq!(u.name, "Alice");
}

#[test]
fn fetch_absent_is_not_found() {
    let store = UserStore::new();
    assert!(store.user(999).is_none());
    assert!(store.user(0).is_none());
    let mut store = UserStore::new();
    store.post_user("Alice".to_string()).unwrap();
    assert!(store.user(999).is_none());
    assert!(store.user(2).is_none());
    assert_eq!(user_not_found(), "User not found");
}

#[test]
fn many_creates_fill_one_to_n() {
    let mut store = UserStore::new();
    let n: u32 = 50;
    let mut ids = Vec::new();
    for i in 0..n {
        let c = store.post_user(format!("user{}", i)).unwrap();
        ids.push(c.id);
    }
    ids.sort();
    ids.dedup();
    assert_eq!(ids, (1..=n).collect::<Vec<u32>>());
    assert_eq!(store.len(), n);
    for i in 0..n {
        assert_eq!(store.user(i + 1).unwrap().name, format!("user{}", i));
    }
    assert!(store.user(n + 1).is_none());
}

#[test]
fn empty_store_has_no_records() {
    let store = UserStore::new();
    assert_eq!(store.len(), 0);
}

#[test]
fn book_holds_its_fields() {
    let b = Book { id: -3, title: "Dune".to_string(), author: "Herbert".to_string() };
    assert_eq!(b.id, -3);
    assert_eq!(b.title, "Dune");
    assert_eq!(b.author, "Herbert");
}
