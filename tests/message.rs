use beerbot::config::Config;
use beerbot::message::{picture_message, Gif, Message, MessageBuilder, MessageError, PICTURE_TITLE};

fn config(messages: &[&str], searches: &[&str]) -> Config {
    Config {
        token: "t".to_string(),
        socket_token: None,
        giphy_token: Some("g".to_string()),
        crons: Vec::new(),
        channel_id: "C1".to_string(),
        messages: messages.iter().map(|s| s.to_string()).collect(),
        gif_searches: searches.iter().map(|s| s.to_string()).collect(),
        log: String::new(),
    }
}

#[test]
fn single_message_is_always_chosen() {
    let cfg = config(&["Beer time"], &["beer"]);
    let b = MessageBuilder::new(&cfg);
    for _ in 0..20 {
        assert_eq!(b.get_message(), "Beer time");
        assert_eq!(b.get_search(), "beer");
    }
}

#[test]
fn chosen_message_is_a_configured_one() {
    let cfg = config(&["one", "two", "three"], &["a", "b"]);
    let b = MessageBuilder::new(&cfg);
    for _ in 0..50 {
        assert!(cfg.messages.contains(b.get_message()));
        assert!(cfg.gif_searches.contains(b.get_search()));
    }
}

#[test]
fn text_message_holds_a_configured_line() {
    let cfg = config(&["Cheers"], &[]);
    match MessageBuilder::new(&cfg).text_message() {
        Message::Text { text } => assert_eq!(text, "Cheers"),
        other => panic!("unexpected {:?}", other),
    }
}

#[test]
fn picture_keeps_its_own_description() {
    let gif = Gif {
        url: "https://media.example.com/a.webp".to_string(),
        alt_text: "a cat with a beer".to_string(),
    };
    match picture_message(&"Friday".to_string(), &"beer".to_string(), gif) {
        Ok(Message::Picture { header, image_url, alt_text, title }) => {
            assert_eq!(header, "Friday");
            assert_eq!(image_url, "https://media.example.com/a.webp");
            assert_eq!(alt_text, "a cat with a beer");
            assert_eq!(title, PICTURE_TITLE);
            assert_eq!(title, "Powered By GIPHY");
        }
        other => panic!("unexpected {:?}", other),
    }
}

#[test]
fn picture_without_description_uses_search() {
    let gif = Gif { url: "https://media.example.com/b.webp".to_string(), alt_text: String::new() };
    match picture_message(&"Friday".to_string(), &"beer".to_string(), gif) {
        Ok(Message::Picture { alt_text, .. }) => assert_eq!(alt_text, "beer"),
        other => panic!("unexpected {:?}", other),
    }
}

#[test]
fn picture_with_invalid_url_fails() {
    let gif = Gif { url: "not a url".to_string(), alt_text: "x".to_string() };
    match picture_message(&"Friday".to_string(), &"beer".to_string(), gif) {
        Err(MessageError::InvalidImageUrl { url }) => assert_eq!(url, "not a url"),
        other => panic!("unexpected {:?}", other),
    }
}
