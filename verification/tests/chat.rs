use crust::common::chat::{chat_packet, skip, Chat, ChatBuilder};

fn flags(c: &Chat) -> [bool; 5] {
    [c.bold, c.italic, c.underlined, c.strikethrough, c.obfuscated]
}

#[test]
fn documented_example() {
    let c = ChatBuilder::new("Hello, ")
        .color("blue")
        .append(ChatBuilder::new("World!").bold().italic())
        .finish();
    assert_eq!(c.text, "Hello, ");
    assert_eq!(c.color.as_deref(), Some("blue"));
    assert_eq!(flags(&c), [false; 5]);
    assert_eq!(c.extra.len(), 1);
    assert_eq!(c.extra[0].text, "World!");
    assert_eq!(c.extra[0].color, None);
    assert_eq!(flags(&c.extra[0]), [true, true, false, false, false]);
    assert!(c.extra[0].extra.is_empty());
}

#[test]
fn appended_in_order() {
    let c = ChatBuilder::new("")
        .append(ChatBuilder::new("first child").bold())
        .append(ChatBuilder::new("second child").italic())
        .finish();
    assert_eq!(c.extra.len(), 2);
    assert_eq!(c.extra[0].text, "first child");
    assert_eq!(flags(&c.extra[0]), [true, false, false, false, false]);
    assert_eq!(c.extra[1].text, "second child");
    assert_eq!(flags(&c.extra[1]), [false, true, false, false, false]);
}

#[test]
fn styles_set_once_in_any_order() {
    let a = ChatBuilder::new("x").bold().underlined().bold().finish();
    let b = ChatBuilder::new("x").underlined().bold().finish();
    assert_eq!(flags(&a), [true, false, true, false, false]);
    assert_eq!(flags(&a), flags(&b));
    let all = ChatBuilder::new("x").strikethrough().obfuscated().italic().finish();
    assert_eq!(flags(&all), [false, true, false, true, true]);
}

#[test]
fn space_and_nesting() {
    let c = ChatBuilder::new("a")
        .space()
        .append(ChatBuilder::new("b").append(ChatBuilder::new("c").color("red")))
        .finish();
    assert_eq!(c.extra.len(), 2);
    assert_eq!(c.extra[0].text, " ");
    assert_eq!(c.extra[1].text, "b");
    assert_eq!(c.extra[1].extra[0].text, "c");
    assert_eq!(c.extra[1].extra[0].color.as_deref(), Some("red"));
}

#[test]
fn color_replaced() {
    let c = ChatBuilder::new("x").color("red").color("blue").finish();
    assert_eq!(c.color.as_deref(), Some("blue"));
}

#[test]
fn skip_unset_flags() {
    assert!(skip(&false));
    assert!(!skip(&true));
}

#[test]
fn chat_message_packet() {
    let p = chat_packet(String::from("p"), String::from("{}"));
    assert_eq!(p.pid, "p");
    assert_eq!(p.data, vec![5, 2, 2, b'{', b'}', 0]);
}

#[test]
fn finish_after_a_sequence_of_calls() {
    let b = ChatBuilder::new("t")
        .color("blue")
        .bold()
        .append(ChatBuilder::new("child").italic())
        .color("red")
        .bold()
        .space()
        .underlined();
    let c = b.finish();
    assert_eq!(c.text, "t");
    assert_eq!(c.color.as_deref(), Some("red"));
    assert!(c.bold && c.underlined);
    assert!(!c.italic && !c.strikethrough && !c.obfuscated);
    assert_eq!(c.extra.len(), 2);
    assert_eq!(c.extra[0].text, "child");
    assert!(c.extra[0].italic && !c.extra[0].bold);
    assert_eq!(c.extra[1].text, " ");
    // Finishing again gives the same component.
    let again = b.finish();
    assert_eq!(again.text, c.text);
    assert_eq!(again.extra.len(), c.extra.len());
}
