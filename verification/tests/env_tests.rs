use rnf::env::Env;

#[test]
fn get_after_define() {
    let mut e: Env<i64> = Env::new();
    assert_eq!(e.get("x"), None);
    assert!(!e.has("x"));
    e.define("x", 1);
    assert_eq!(e.get("x"), Some(1));
    assert!(e.has("x"));
    e.define("x", 2);
    assert_eq!(e.get("x"), Some(2));
}

#[test]
fn define_keeps_other_names() {
    let mut e: Env<i64> = Env::new();
    e.define("a", 1);
    e.define("b", 2);
    assert_eq!(e.get("a"), Some(1));
    assert_eq!(e.get("b"), Some(2));
    assert_eq!(e.get("c"), None);
}

#[test]
fn child_sees_enclosing_scope() {
    let mut g: Env<String> = Env::new();
    g.define("name", "Budi".to_string());
    let c = Env::child(g);
    assert_eq!(c.get("name"), Some("Budi".to_string()));
    assert!(c.has("name"));
    assert!(!c.has("other"));
}

#[test]
fn define_in_child_shadows() {
    let mut g: Env<i64> = Env::new();
    g.define("x", 1);
    let mut c = Env::child(g);
    c.define("x", 5);
    assert_eq!(c.get("x"), Some(5));
}

#[test]
fn set_updates_the_scope_that_binds_the_name() {
    let mut g: Env<i64> = Env::new();
    g.define("x", 1);
    let mut c = Env::child(g);
    c.set("x", 7);
    assert_eq!(c.get("x"), Some(7));
    // A name that no scope binds is bound in the innermost scope.
    c.set("y", 3);
    assert_eq!(c.get("y"), Some(3));
    // After `set` on a name bound in the inner scope, the inner value changes.
    c.define("z", 0);
    c.set("z", 9);
    assert_eq!(c.get("z"), Some(9));
}

#[test]
fn set_in_deep_chain_reaches_the_outermost_binding() {
    let mut g: Env<i64> = Env::new();
    g.define("n", 0);
    let mid = Env::child(g);
    let mut inner = Env::child(mid);
    inner.set("n", 42);
    assert_eq!(inner.get("n"), Some(42));
    inner.set("m", 1);
    assert_eq!(inner.get("m"), Some(1));
}

#[test]
fn cloned_environment_is_independent() {
    let mut e: Env<i64> = Env::new();
    e.define("x", 1);
    let mut c = Env::child(e);
    c.define("y", 2);
    let copy = c.clone();
    c.set("x", 10);
    assert_eq!(copy.get("x"), Some(1));
    assert_eq!(copy.get("y"), Some(2));
    assert_eq!(c.get("x"), Some(10));
}
