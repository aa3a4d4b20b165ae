use server_probe::decode::{
    decode, extract_chat_text, favicon_url, png_data_url, RawResponse, ServerType, TextNode,
    MAX_TEXT_DEPTH,
};
use server_probe::error::Error;

fn leaf(t: &str) -> TextNode {
    TextNode { text: t.to_string(), children: Vec::new() }
}

fn raw(description: TextNode, favicon: Option<Vec<u8>>, sample: Option<Vec<String>>) -> RawResponse {
    RawResponse {
        description,
        version: "1.20.4".to_string(),
        online_players: 3,
        max_players: 20,
        sample,
        favicon,
    }
}

#[test]
fn text_is_flattened_in_order() {
    let n = TextNode { text: "Hello ".to_string(), children: vec![leaf("World")] };
    assert_eq!(extract_chat_text(&n), Ok("Hello World".to_string()));
}

#[test]
fn text_is_flattened_pre_order() {
    let inner = TextNode { text: "b".to_string(), children: vec![leaf("c"), leaf("d")] };
    let n = TextNode { text: "a".to_string(), children: vec![inner, leaf("e")] };
    assert_eq!(extract_chat_text(&n), Ok("abcde".to_string()));
}

fn nested(levels: usize) -> TextNode {
    let mut n = leaf("x");
    for _ in 1..levels {
        n = TextNode { text: String::new(), children: vec![n] };
    }
    n
}

#[test]
fn nesting_up_to_the_bound_is_accepted() {
    assert_eq!(extract_chat_text(&nested(MAX_TEXT_DEPTH)), Ok("x".to_string()));
}

#[test]
fn nesting_past_the_bound_fails() {
    assert!(matches!(extract_chat_text(&nested(MAX_TEXT_DEPTH + 1)), Err(Error::ProtocolFailed(_))));
}

#[test]
fn icon_is_a_png_data_reference() {
    let url = favicon_url(&Some(vec![1u8, 2, 3])).unwrap();
    assert!(url.starts_with("data:image/png;base64,"));
    assert_eq!(url, "data:image/png;base64,AQID");
}

#[test]
fn empty_or_absent_icon_gives_no_reference() {
    assert_eq!(favicon_url(&Some(Vec::new())), None);
    assert_eq!(favicon_url(&None), None);
}

#[test]
fn data_reference_prefix() {
    assert_eq!(png_data_url("QQ=="), "data:image/png;base64,QQ==");
}

#[test]
fn decode_fills_every_field() {
    let r = raw(
        TextNode { text: "Hello ".to_string(), children: vec![leaf("World")] },
        Some(vec![b'M']),
        Some(vec!["alice".to_string(), "bob".to_string()]),
    );
    let m = decode(r, 42, ServerType::Java).unwrap();
    assert_eq!(m.name, "1.20.4");
    assert_eq!(m.motd, "Hello World");
    assert_eq!(m.version, "1.20.4");
    assert_eq!(m.player_count, 3);
    assert_eq!(m.max_players, 20);
    assert_eq!(m.players, vec!["alice".to_string(), "bob".to_string()]);
    assert_eq!(m.favicon_url, Some("data:image/png;base64,TQ==".to_string()));
    assert!(m.is_online);
    assert_eq!(m.latency, 42);
    assert_eq!(m.server_type, ServerType::Java);
}

#[test]
fn decode_without_sample_or_icon() {
    let m = decode(raw(leaf("motd"), None, None), 0, ServerType::Bedrock).unwrap();
    assert!(m.players.is_empty());
    assert_eq!(m.favicon_url, None);
    assert_eq!(m.server_type, ServerType::Bedrock);
}

#[test]
fn decode_rejects_over_deep_description() {
    let r = raw(nested(MAX_TEXT_DEPTH + 1), None, None);
    assert!(matches!(decode(r, 0, ServerType::Java), Err(Error::ProtocolFailed(_))));
}
