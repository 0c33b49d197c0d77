use slash_router::util::{get_message_ref, parse_message_with_emotes, react_query_id, split_text};

#[test]
fn double_slash_input() {
    let result = parse_message_with_emotes(String::from("Hello //world"));
    assert_eq!(result, String::from("Hello /world"))
}

#[test]
fn newline_input() {
    let result = parse_message_with_emotes(String::from(r#"Hello \world"#));
    assert_eq!(result, String::from("Hello \nworld"))
}

#[test]
fn backslash_input() {
    let result = parse_message_with_emotes(String::from(r#"Hello \\world"#));
    assert_eq!(result, String::from(r#"Hello \world"#))
}

#[test]
fn escapes_mixed_and_plain_text() {
    assert_eq!(parse_message_with_emotes(String::new()), String::new());
    assert_eq!(parse_message_with_emotes(String::from("a/b")), String::from("a/b"));
    assert_eq!(parse_message_with_emotes(String::from("///")), String::from("//"));
    assert_eq!(parse_message_with_emotes(String::from(r#"\\\"#)), String::from("\\\n"));
    assert_eq!(parse_message_with_emotes(String::from("héllo \\ü")), String::from("héllo \nü"));
}

#[test]
fn message_ref_reads_channel_and_message() {
    assert_eq!(get_message_ref("react-query=12-34"), Some((12, 34)));
    assert_eq!(
        get_message_ref("x=673965002805477386-842482646604972082"),
        Some((673965002805477386, 842482646604972082))
    );
    assert_eq!(get_message_ref("a=+12-+34"), Some((12, 34)));
}

#[test]
fn message_ref_rejects_other_shapes() {
    assert_eq!(get_message_ref("react-query"), None);
    assert_eq!(get_message_ref("a=1-2=3"), None);
    assert_eq!(get_message_ref("a=12"), None);
    assert_eq!(get_message_ref("a=x-2"), None);
    assert_eq!(get_message_ref("a=12-34-56"), None);
    assert_eq!(get_message_ref("a=-34"), None);
}

#[test]
fn split_text_keeps_empty_pieces() {
    assert_eq!(split_text("a,,b", ','), vec![String::from("a"), String::new(), String::from("b")]);
    assert_eq!(split_text("", ','), vec![String::new()]);
    assert_eq!(split_text("abc", ','), vec![String::from("abc")]);
}

#[test]
fn react_query_id_points_back_at_its_message() {
    let id = react_query_id(123, 456);
    assert_eq!(id, "react-query=123-456");
    assert_eq!(get_message_ref(&id), Some((123, 456)));
}
