use dataflow_control::text::{
    copy_opt_text, enclosed, opt_text_is, opt_text_precedes, same_text, source_is_url,
    text_precedes,
};

#[test]
fn text_order_is_that_of_the_bytes() {
    let texts = ["", "A", "a", "aa", "ab", "b", "z", "é", "€", "🦀"];
    for a in texts {
        for b in texts {
            assert_eq!(text_precedes(a, b), a < b, "{a} {b}");
            assert_eq!(same_text(a, b), a == b);
        }
    }
}

#[test]
fn no_text_comes_first() {
    let none: Option<String> = None;
    let empty = Some(String::new());
    assert!(opt_text_precedes(&none, &empty));
    assert!(!opt_text_precedes(&empty, &none));
    assert!(!opt_text_precedes(&none, &none));
    assert!(opt_text_is(&empty, ""));
    assert!(!opt_text_is(&none, ""));
    assert_eq!(copy_opt_text(&Some("x".to_string())), Some("x".to_string()));
    assert_eq!(copy_opt_text(&none), None);
}

#[test]
fn urls_hold_a_colon_and_two_slashes() {
    assert!(source_is_url("https://example.com/dataflow.yml"));
    assert!(source_is_url("://"));
    assert!(source_is_url("x://"));
    assert!(!source_is_url("dataflow.yml"));
    assert!(!source_is_url(":/"));
    assert!(!source_is_url("C:/dataflow.yml"));
    assert!(!source_is_url(": //"));
    assert!(!source_is_url(""));
}

#[test]
fn text_is_enclosed() {
    assert_eq!(enclosed("a `", "é", "`!"), "a `é`!");
}
