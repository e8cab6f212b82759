use disk_usage::greet;

#[test]
fn greet_names_the_guest() {
    assert_eq!(greet("Ann"), "Hello, Ann! You've been greeted from Rust!");
}

#[test]
fn greet_takes_any_text() {
    assert_eq!(greet(""), "Hello, ! You've been greeted from Rust!");
    assert_eq!(greet("世界"), "Hello, 世界! You've been greeted from Rust!");
}
