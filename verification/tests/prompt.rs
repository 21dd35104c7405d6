use fsh::prompt::{decode, prompt, Context};

fn context() -> Context {
    Context {
        user_name: "me".to_string(),
        current_directory: "work".to_string(),
        current_directory_full: "/home/me/work".to_string(),
    }
}

#[test]
fn prompt_replaces_each_placeholder() {
    let c = context();
    assert_eq!(decode("\\u", &c), "me");
    assert_eq!(prompt("\\s", &c), "fsh");
    assert_eq!(prompt("\\S", &c), "FlatShell");
    assert_eq!(prompt("\\v", &c), "0.0.1");
    assert_eq!(prompt("\\w", &c), "work");
    assert_eq!(prompt("\\W", &c), "/home/me/work");
    assert_eq!(prompt("Hello, \\u", &c), "Hello, me");
    assert_eq!(prompt("\\s(\\v) \\u@\\w $ ", &c), "fsh(0.0.1) me@work $ ");
    assert_eq!(prompt("\\u@\\W $ ", &c), "me@/home/me/work $ ");
    assert_eq!(prompt("plain $ ", &c), "plain $ ");
    assert_eq!(prompt("\\", &c), "\\");
    assert_eq!(prompt("\\x\\\\u", &c), "\\x\\me");
    assert_eq!(prompt("", &c), "");
}

#[test]
fn prompt_replaces_in_the_order_of_the_placeholders() {
    let c = Context {
        user_name: "\\s".to_string(),
        current_directory: "\\u".to_string(),
        current_directory_full: "".to_string(),
    };
    assert_eq!(prompt("\\u \\w", &c), "fsh \\u");
}

