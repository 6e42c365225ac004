use grass_relay::compose::{grow, grow_for, MessageBuilder};
use grass_relay::model::{Addressee, Entity, EntityKind, Message, Reply, User};
use grass_relay::relay::{compose, rebroadcast};
use grass_relay::resolve::{farm, resolve_addressees, ResolveError};
use grass_relay::trigger::is_trigger;
use grass_relay::units::{slice_units, utf16_len};

fn user(id: u64, first: &str, last: Option<&str>) -> User {
    User {
        id,
        is_bot: false,
        first_name: first.to_string(),
        last_name: last.map(|l| l.to_string()),
        username: None,
    }
}

fn message(text: Option<&str>, from: Option<User>) -> Message {
    Message { text: text.map(|t| t.to_string()), from, reply_to: None, entities: Vec::new() }
}

fn mention(offset: usize, length: usize) -> Entity {
    Entity { kind: EntityKind::Mention, offset, length }
}

fn text_mention(u: User, offset: usize, length: usize) -> Entity {
    Entity { kind: EntityKind::TextMention { user: u }, offset, length }
}

fn link(url: &str, offset: usize, length: usize) -> Entity {
    Entity { kind: EntityKind::TextLink { url: reqwest::Url::parse(url).unwrap() }, offset, length }
}

#[test]
fn each_keyword_triggers() {
    for word in ["草", "cao", "焯", "🌱", "🌿", "☘️", "🍀", "艹"] {
        assert_eq!(is_trigger(word), true, "{}", word);
        let embedded = format!("before {} after", word);
        assert_eq!(is_trigger(&embedded), true, "{}", embedded);
    }
}

#[test]
fn substring_inside_word_triggers() {
    assert_eq!(is_trigger("cacaocao!"), true);
    assert_eq!(is_trigger("xcaox"), true);
    assert_eq!(is_trigger("scaops"), true);
    assert_eq!(is_trigger("a🍀b"), true);
}

#[test]
fn text_without_keyword_does_not_trigger() {
    assert_eq!(is_trigger(""), false);
    assert_eq!(is_trigger("hello world"), false);
    assert_eq!(is_trigger("CAO"), false);
    assert_eq!(is_trigger("ca o"), false);
    assert_eq!(is_trigger("☘"), false);
    assert_eq!(is_trigger("(|)"), false);
}

#[test]
fn utf16_lengths() {
    assert_eq!(utf16_len(""), 0);
    assert_eq!(utf16_len("abc"), 3);
    assert_eq!(utf16_len("草"), 1);
    assert_eq!(utf16_len("🌱"), 2);
    assert_eq!(utf16_len("☘️"), 2);
    assert_eq!(utf16_len("我🌱a"), 4);
}

#[test]
fn slice_hello_bob() {
    assert_eq!(slice_units("hello @bob world", 6, 4), Some("@bob".to_string()));
}

#[test]
fn slice_after_wide_characters() {
    // 你 好 take one unit each, 🌱 takes two, the space one.
    let text = "你好🌱 @bob world";
    assert_eq!(slice_units(text, 5, 4), Some("@bob".to_string()));
    assert_eq!(slice_units(text, 2, 2), Some("🌱".to_string()));
    assert_eq!(slice_units(text, 0, 0), Some(String::new()));
}

#[test]
fn slice_rejects_split_character() {
    let text = "你好🌱 @bob";
    assert_eq!(slice_units(text, 3, 2), None);
    assert_eq!(slice_units(text, 2, 1), None);
}

#[test]
fn slice_rejects_out_of_bounds() {
    assert_eq!(slice_units("abc", 2, 2), None);
    assert_eq!(slice_units("abc", 4, 0), None);
    assert_eq!(slice_units("abc", usize::MAX, 2), None);
    assert_eq!(slice_units("abc", 3, 0), Some(String::new()));
}

#[test]
fn reply_sender_dominates_mentions() {
    let mut m = message(Some("hi @bob cao"), Some(user(1, "Kay", None)));
    m.reply_to = Some(Reply { from: Some(user(2, "Sam", None)) });
    m.entities.push(mention(3, 4));
    m.entities.push(text_mention(user(3, "Ann", None), 0, 2));
    let got = resolve_addressees(&m).unwrap();
    assert_eq!(got, vec![Addressee::Resolved(user(2, "Sam", None))]);
}

#[test]
fn reply_without_sender_falls_through_to_mentions() {
    let mut m = message(Some("hi @bob"), Some(user(1, "Kay", None)));
    m.reply_to = Some(Reply { from: None });
    m.entities.push(mention(3, 4));
    let got = resolve_addressees(&m).unwrap();
    assert_eq!(got, vec![Addressee::Unresolved("@bob".to_string())]);
}

#[test]
fn mentions_keep_source_order() {
    let a = user(10, "Ann", Some("Lee"));
    let c = user(12, "Cid", None);
    let mut m = message(Some("@ann @bob @cid cao"), Some(user(1, "Kay", None)));
    m.entities.push(text_mention(a.clone(), 0, 4));
    m.entities.push(Entity { kind: EntityKind::Other, offset: 0, length: 4 });
    m.entities.push(mention(5, 4));
    m.entities.push(link("https://example.com/", 15, 3));
    m.entities.push(text_mention(c.clone(), 10, 4));
    let got = resolve_addressees(&m).unwrap();
    assert_eq!(
        got,
        vec![
            Addressee::Resolved(a),
            Addressee::Unresolved("@bob".to_string()),
            Addressee::Resolved(c),
        ]
    );
}

#[test]
fn no_mentions_resolve_to_nobody() {
    let mut m = message(Some("cao"), Some(user(1, "Kay", None)));
    assert_eq!(resolve_addressees(&m), Ok(vec![]));
    m.entities.push(Entity { kind: EntityKind::Other, offset: 0, length: 3 });
    assert_eq!(resolve_addressees(&m), Ok(vec![]));
}

#[test]
fn mention_without_text_fails() {
    let mut m = message(None, Some(user(1, "Kay", None)));
    m.entities.push(mention(0, 4));
    assert_eq!(resolve_addressees(&m), Err(ResolveError::MissingText));
}

#[test]
fn mention_outside_text_fails() {
    let mut m = message(Some("hi @bo"), Some(user(1, "Kay", None)));
    m.entities.push(mention(3, 4));
    assert_eq!(resolve_addressees(&m), Err(ResolveError::InvalidSpan { offset: 3, length: 4 }));
}

#[test]
fn mention_splitting_emoji_fails() {
    let mut m = message(Some("🌱@bob"), Some(user(1, "Kay", None)));
    m.entities.push(mention(1, 4));
    assert_eq!(resolve_addressees(&m), Err(ResolveError::InvalidSpan { offset: 1, length: 4 }));
}

#[test]
fn text_mention_needs_no_text() {
    let mut m = message(None, Some(user(1, "Kay", None)));
    m.entities.push(text_mention(user(4, "Dee", None), 0, 3));
    assert_eq!(resolve_addressees(&m), Ok(vec![Addressee::Resolved(user(4, "Dee", None))]));
}

#[test]
fn self_notice_for_alice() {
    let mut b = MessageBuilder::new();
    grow(&mut b, &user(1, "Alice", None));
    let (text, entities) = b.build().unwrap();
    assert_eq!(text, "Alice 种了一棵草。");
    assert!(text.ends_with(" 种了一棵草。"));
    assert!(!text.contains('为'));
    assert!(entities.is_empty());
}

#[test]
fn credit_notice_joins_names() {
    let mut b = MessageBuilder::default();
    let to = vec![
        Addressee::Resolved(user(2, "Sam", Some("Roe"))),
        Addressee::Unresolved("@bob".to_string()),
        Addressee::Resolved(user(3, "李", None)),
    ];
    grow_for(&mut b, &user(1, "Kay", Some("Day")), &to);
    let (text, entities) = b.build().unwrap();
    assert_eq!(text, "Kay Day 为 Sam Roe、@bob、李 种了一棵草。");
    assert!(entities.is_empty());
}

#[test]
fn credit_notice_for_nobody_is_self_notice() {
    let mut b = MessageBuilder::new();
    grow_for(&mut b, &user(1, "Kay", None), &[]);
    assert_eq!(b.build().unwrap().0, "Kay 种了一棵草。");
}

#[test]
fn empty_builder_builds_nothing() {
    assert!(MessageBuilder::new().build().is_none());
    let mut b = MessageBuilder::new();
    b.push_text("");
    assert!(b.build().is_none());
}

#[test]
fn link_span_counts_code_units() {
    let mut b = MessageBuilder::new();
    b.push_text("Li 🌱 ");
    b.push_text_link("🍀草地", reqwest::Url::parse("https://example.com/lawn").unwrap());
    b.push_text("!");
    let (text, entities) = b.build().unwrap();
    assert_eq!(text, "Li 🌱 🍀草地!");
    assert_eq!(entities, vec![link("https://example.com/lawn", 6, 4)]);
    // The characters of the linked text number three, its code units four.
    assert_eq!("🍀草地".chars().count(), 3);
}

#[test]
fn link_span_on_empty_text() {
    let mut b = MessageBuilder::new();
    b.push_text_link("", reqwest::Url::parse("https://example.com/").unwrap());
    assert!(b.build().is_none());
    let mut b = MessageBuilder::new();
    b.push_text_link("草", reqwest::Url::parse("https://example.com/").unwrap());
    assert_eq!(b.build().unwrap().1, vec![link("https://example.com/", 0, 1)]);
}

#[test]
fn farm_without_sender_writes_nothing() {
    let mut b = MessageBuilder::new();
    assert_eq!(farm(&mut b, &message(Some("cao"), None)), Ok(()));
    assert!(b.build().is_none());
}

#[test]
fn farm_failure_writes_nothing() {
    let mut m = message(Some("cao"), Some(user(1, "Kay", None)));
    m.entities.push(mention(2, 5));
    let mut b = MessageBuilder::new();
    b.push_text("x");
    assert_eq!(farm(&mut b, &m), Err(ResolveError::InvalidSpan { offset: 2, length: 5 }));
    assert_eq!(b.build().unwrap().0, "x");
}

#[test]
fn end_to_end_self_notice() {
    let m = message(Some("我 cao"), Some(user(1, "Li", Some("Wei"))));
    assert_eq!(is_trigger("我 cao"), true);
    let (text, entities) = rebroadcast(&m).unwrap().unwrap();
    assert_eq!(text, "Li Wei 种了一棵草。");
    assert!(entities.is_empty());
}

#[test]
fn end_to_end_reply_notice() {
    let mut m = message(Some("草"), Some(user(1, "Kay", None)));
    m.reply_to = Some(Reply { from: Some(user(2, "Sam", None)) });
    let (text, entities) = rebroadcast(&m).unwrap().unwrap();
    assert_eq!(text, "Kay 为 Sam 种了一棵草。");
    assert!(entities.is_empty());
}

#[test]
fn end_to_end_mentions() {
    let mut m = message(Some("🌱 for @bob and @eve"), Some(user(1, "Kay", None)));
    m.entities.push(mention(7, 4));
    m.entities.push(mention(16, 4));
    let (text, _) = rebroadcast(&m).unwrap().unwrap();
    assert_eq!(text, "Kay 为 @bob、@eve 种了一棵草。");
}

#[test]
fn untriggered_or_textless_message_relays_nothing() {
    assert_eq!(rebroadcast(&message(Some("hello"), Some(user(1, "Kay", None)))), Ok(None));
    assert_eq!(rebroadcast(&message(None, Some(user(1, "Kay", None)))), Ok(None));
    assert_eq!(rebroadcast(&message(Some("cao"), None)), Ok(None));
}

#[test]
fn triggered_message_with_bad_mention_fails() {
    let mut m = message(Some("cao"), Some(user(1, "Kay", None)));
    m.entities.push(mention(0, 9));
    assert_eq!(
        rebroadcast(&m),
        Err(ResolveError::InvalidSpan { offset: 0, length: 9 })
    );
}

#[test]
fn compose_ignores_trigger() {
    let m = message(Some("nothing here"), Some(user(1, "Ann", None)));
    assert_eq!(compose(&m).unwrap().unwrap().0, "Ann 种了一棵草。");
}

#[test]
fn user_copy_is_equal() {
    let u = User {
        id: 7,
        is_bot: true,
        first_name: "A".to_string(),
        last_name: Some("B".to_string()),
        username: Some("ab".to_string()),
    };
    assert_eq!(u.copy(), u);
}
