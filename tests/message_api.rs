use std::sync::Arc;
use vsmtp::api::{
    append_header, append_header_str_obj, count_header, get_all_headers, get_all_headers_str,
    get_header, get_header_untouched, has_header, has_header_obj, mail, prepend_header,
    prepend_header_str_obj, prepend_header_str_str, remove_header, rename_header,
    rename_header_obj_obj, set_header, set_header_str_obj,
};
use vsmtp::message::{names_equal, MessageBody};
use vsmtp::object::{is_fqdn, Object, ObjectError};

#[test]
fn test_has_header_success() {
    let mut message = MessageBody::default();

    append_header(&mut message, "X-HEADER-1", "VALUE-1");
    append_header_str_obj(
        &mut message,
        "X-HEADER-2",
        Arc::new(Object::new_fqdn("example.com").unwrap()),
    );

    assert!(has_header(&mut message, "X-HEADER-1"));
    assert!(has_header(&mut message, "X-HEADER-2"));
    assert!(!has_header(&mut message, "X-HEADER-3"));
}

#[test]
fn test_get_header_success() {
    let mut message = MessageBody::default();

    append_header(&mut message, "X-HEADER-1", "VALUE-1");
    append_header_str_obj(
        &mut message,
        "X-HEADER-2",
        Arc::new(Object::new_fqdn("example.com").unwrap()),
    );

    assert_eq!(get_header(&mut message, "X-HEADER-1"), "VALUE-1");
    assert_eq!(get_header(&mut message, "X-HEADER-2"), "example.com");
    assert_eq!(get_header(&mut message, "X-HEADER-3"), "");
}

#[test]
fn test_append_header_success() {
    let mut message = MessageBody::default();

    append_header(&mut message, "X-HEADER-1", "VALUE-1");
    append_header_str_obj(
        &mut message,
        "X-HEADER-2",
        Arc::new(Object::new_fqdn("example.com").unwrap()),
    );

    assert_eq!(message.get_header("X-HEADER-1").unwrap(), "VALUE-1");
    assert_eq!(message.get_header("X-HEADER-2").unwrap(), "example.com");
}

#[test]
fn test_prepend_header_success() {
    let mut message = MessageBody::default();

    prepend_header_str_str(&mut message, "X-HEADER-1", "VALUE-1");
    prepend_header_str_obj(
        &mut message,
        "X-HEADER-2",
        Arc::new(Object::new_fqdn("example.com").unwrap()),
    );

    assert_eq!(message.get_header("X-HEADER-1").unwrap(), "VALUE-1");
    assert_eq!(message.get_header("X-HEADER-2").unwrap(), "example.com");
}

#[test]
fn test_set_header_success() {
    let mut message = MessageBody::default();

    set_header(&mut message, "X-HEADER", "VALUE-1");
    assert_eq!(message.get_header("X-HEADER").unwrap(), "VALUE-1");

    set_header_str_obj(
        &mut message,
        "X-HEADER",
        Arc::new(Object::new_fqdn("example.com").unwrap()),
    );

    assert_eq!(message.get_header("X-HEADER").unwrap(), "example.com");

    assert_eq!(count_header(&mut message, "X-HEADER").unwrap(), 1);
}

#[test]
fn header_names_ignore_case() {
    let mut message = MessageBody::default();
    append_header(&mut message, "Subject", "hi");
    assert!(has_header(&mut message, "SUBJECT"));
    assert_eq!(get_header(&mut message, "subject"), "hi");
    assert!(names_equal("X-Spam", "x-SPAM"));
    assert!(!names_equal("X-Spam", "X-Spam2"));
}

#[test]
fn prepend_puts_header_first() {
    let mut message = MessageBody::default();
    append_header(&mut message, "A", "1");
    prepend_header(&mut message, "B", "2");
    assert_eq!(get_all_headers(&mut message), vec!["B: 2".to_string(), "A: 1".to_string()]);
}

#[test]
fn count_and_list_repeated_headers() {
    let mut message = MessageBody::default();
    append_header(&mut message, "X-My-Header", "foo");
    append_header(&mut message, "x-my-header", "bar");
    append_header(&mut message, "Subject", "test");
    append_header(&mut message, "X-MY-HEADER", "baz");
    assert_eq!(count_header(&mut message, "X-My-Header").unwrap(), 3);
    assert_eq!(count_header(&mut message, "Absent").unwrap(), 0);
    assert_eq!(
        get_all_headers_str(&mut message, "X-My-Header"),
        vec!["foo".to_string(), "bar".to_string(), "baz".to_string()]
    );
    assert_eq!(
        get_header_untouched(&mut message, "x-my-header"),
        vec![
            "X-My-Header:foo".to_string(),
            "x-my-header:bar".to_string(),
            "X-MY-HEADER:baz".to_string()
        ]
    );
}

#[test]
fn set_header_replaces_only_first_or_appends() {
    let mut message = MessageBody::default();
    append_header(&mut message, "A", "1");
    append_header(&mut message, "A", "2");
    set_header(&mut message, "a", "3");
    assert_eq!(get_all_headers_str(&mut message, "A"), vec!["3".to_string(), "2".to_string()]);
    set_header(&mut message, "B", "4");
    assert_eq!(get_all_headers(&mut message).last().unwrap(), "B: 4");
}

#[test]
fn rename_and_remove_header() {
    let mut message = MessageBody::default();
    append_header(&mut message, "Old", "v");
    append_header(&mut message, "Other", "w");
    rename_header(&mut message, "old", "New");
    assert!(!has_header(&mut message, "Old"));
    assert_eq!(get_header(&mut message, "New"), "v");
    rename_header_obj_obj(
        &mut message,
        Arc::new(Object::new_str("Other")),
        Arc::new(Object::new_str("Third")),
    );
    assert_eq!(get_header(&mut message, "Third"), "w");
    assert!(remove_header(&mut message, "new"));
    assert!(!remove_header(&mut message, "new"));
    assert_eq!(get_all_headers(&mut message), vec!["Third: w".to_string()]);
    assert!(has_header_obj(&mut message, Arc::new(Object::new_str("third"))));
}

#[test]
fn mail_renders_headers_and_body() {
    let mut message = MessageBody::default();
    append_header(&mut message, "From", "a@x");
    append_header(&mut message, "Subject", "hi");
    message.body = "Hello world!\r\n".to_string();
    assert_eq!(mail(&mut message), "From: a@x\r\nSubject: hi\r\n\r\nHello world!\r\n");
    assert_eq!(mail(&mut MessageBody::default()), "\r\n");
}

#[test]
fn fqdn_objects_are_checked() {
    assert!(is_fqdn("example.com"));
    assert!(is_fqdn("a-b.example"));
    assert!(!is_fqdn(""));
    assert!(!is_fqdn("-a.com"));
    assert!(!is_fqdn("a..com"));
    assert!(!is_fqdn("a.-b.com"));
    assert!(!is_fqdn("a b.com"));
    assert_eq!(Object::new_fqdn("bad domain").err(), Some(ObjectError::InvalidFqdn));
    assert_eq!(Object::new_fqdn("example.com").unwrap().to_string(), "example.com");
}
