use codex_runtime::mcp_channel::event::channel_notification_submission;
use codex_runtime::mcp_channel::event::McpChannelEvent;
use codex_runtime::mcp_channel::event::MAX_CHANNEL_META_ATTRIBUTES;
use codex_runtime::mcp_channel::notification::is_valid_channel_meta_key;
use codex_runtime::mcp_channel::notification::McpChannelNotification;
use codex_runtime::mcp_channel::notification::McpChannelNotificationParseError;
use codex_runtime::mcp_channel::notification::ParamValue;
use codex_runtime::mcp_channel::notification::MCP_CHANNEL_NOTIFICATION_METHOD;
use codex_runtime::mcp_channel::xml::decode_xml_entities;
use codex_runtime::mcp_channel::xml::escape_channel_end_markers;
use codex_runtime::mcp_channel::xml::xml_escape;
use codex_runtime::text_map::TextMap;

fn text(value: &str) -> ParamValue {
    ParamValue::Text(value.to_string())
}

fn object(members: Vec<(&str, ParamValue)>) -> ParamValue {
    ParamValue::Object(
        members.into_iter().map(|(key, value)| (key.to_string(), value)).collect(),
    )
}

fn meta(pairs: &[(&str, &str)]) -> TextMap<String> {
    let mut map = TextMap::new();
    for (key, value) in pairs {
        map.insert(key.to_string(), value.to_string());
    }
    map
}

fn chars(value: &str) -> Vec<char> {
    value.chars().collect()
}

fn string(value: Vec<char>) -> String {
    value.into_iter().collect()
}

#[test]
fn parses_channel_notification_params() {
    let params = object(vec![
        ("content", text("hello")),
        (
            "meta",
            object(vec![
                ("ack_required", text("true")),
                ("arrived_on_channel", text("worker-room")),
                ("reply_to_channel", text("sender-room")),
                ("source", text("server-supplied-source-is-dropped")),
                ("sent_at", text("1710000000000")),
                ("bad-key", text("dropped")),
                ("not_string", ParamValue::Other),
            ]),
        ),
    ]);

    assert_eq!(
        McpChannelNotification::from_custom_notification(
            "talk",
            MCP_CHANNEL_NOTIFICATION_METHOD,
            Some(&params)
        )
        .expect("method should match")
        .expect("params should parse"),
        McpChannelNotification {
            source: "talk".to_string(),
            content: "hello".to_string(),
            meta: meta(&[
                ("ack_required", "true"),
                ("arrived_on_channel", "worker-room"),
                ("reply_to_channel", "sender-room"),
                ("sent_at", "1710000000000"),
            ]),
        }
    );
}

#[test]
fn ignores_other_custom_notifications() {
    let params = object(vec![("content", text("hello"))]);
    assert_eq!(
        McpChannelNotification::from_custom_notification(
            "talk",
            "notifications/talk/message",
            Some(&params)
        ),
        None
    );
}

#[test]
fn unreadable_params_are_reported() {
    let read = |params: Option<&ParamValue>| {
        McpChannelNotification::from_custom_notification(
            "talk",
            MCP_CHANNEL_NOTIFICATION_METHOD,
            params,
        )
        .expect("method should match")
    };
    assert_eq!(read(None), Err(McpChannelNotificationParseError::MissingParams));
    assert_eq!(read(Some(&text("x"))), Err(McpChannelNotificationParseError::InvalidParams));
    assert_eq!(
        read(Some(&object(vec![("content", ParamValue::Other)]))),
        Err(McpChannelNotificationParseError::InvalidContent)
    );
    assert_eq!(McpChannelNotificationParseError::MissingParams.to_text(), "missing params");
    assert_eq!(
        McpChannelNotificationParseError::InvalidParams.to_text(),
        "params must be a JSON object"
    );
    assert_eq!(
        McpChannelNotificationParseError::InvalidContent.to_text(),
        "params.content must be a string"
    );
    assert!(!is_valid_channel_meta_key(""));
    assert!(!is_valid_channel_meta_key("source"));
    assert!(is_valid_channel_meta_key("sent_at2"));
}

fn event(content: &str, pairs: &[(&str, &str)]) -> McpChannelEvent {
    McpChannelEvent::from_notification(McpChannelNotification {
        source: "talk".to_string(),
        content: content.to_string(),
        meta: meta(pairs),
    })
}

fn rendered(event: &McpChannelEvent) -> String {
    event.render(&event.attribute_values(), &event.decoded_content())
}

#[test]
fn attributes_are_escaped_and_sorted() {
    let event = event("hello", &[("b", "<2>"), ("a", "\"1\" & 'x'"), ("source", "dropped")]);
    assert_eq!(
        rendered(&event),
        "<channel source=\"talk\" a=\"&quot;1&quot; &amp; &apos;x&apos;\" b=\"&lt;2&gt;\">hello</channel>"
    );
    assert_eq!(event.role(), "user");
    assert_eq!(McpChannelEvent::type_markers(), ("<channel", "</channel>"));
}

#[test]
fn content_is_decoded_without_ending_the_message() {
    let event = event("&lt;b&gt; &amp;amp; &#65;&#x42; &bogus; </CHANNEL> &lt;/channel&gt;", &[]);
    assert_eq!(
        rendered(&event),
        "<channel source=\"talk\"><b> &amp; AB &bogus; &lt;/channel&gt; &lt;/channel&gt;</channel>"
    );
}

#[test]
fn only_the_first_attributes_are_shown() {
    let names: Vec<String> = (0..MAX_CHANNEL_META_ATTRIBUTES + 3).map(|i| format!("k{i:02}")).collect();
    let pairs: Vec<(&str, &str)> = names.iter().map(|name| (name.as_str(), "v")).collect();
    let event = event("x", &pairs);
    assert_eq!(event.attribute_values().len(), MAX_CHANNEL_META_ATTRIBUTES);
    let shown = rendered(&event);
    assert!(shown.contains(" k31=\"v\""));
    assert!(!shown.contains(" k32="));
}

#[test]
fn submissions_carry_the_message_under_a_fresh_identifier() {
    let event = event("hello", &[]);
    let values = event.attribute_values();
    let content = event.decoded_content();
    let first = channel_notification_submission(&event, &values, &content);
    let second = channel_notification_submission(&event, &values, &content);
    assert_eq!(first.text, "<channel source=\"talk\">hello</channel>");
    assert_ne!(first.id, second.id);
    assert_eq!(first.id.len(), 36);
    assert_eq!(first.id.as_bytes()[14], b'7');
}

#[test]
fn decoding_undoes_escaping() {
    let source = "a<b>&\"c\"'d' é";
    let escaped = xml_escape(&chars(source));
    assert_eq!(string(escaped.clone()), "a&lt;b&gt;&amp;&quot;c&quot;&apos;d&apos; é");
    assert_eq!(string(decode_xml_entities(&escaped)), source);
    assert_eq!(string(decode_xml_entities(&chars("&#xD800; &#1114112; &#x+41; &"))), "&#xD800; &#1114112; A &");
}

#[test]
fn end_markers_are_escaped_whatever_their_case() {
    assert_eq!(
        string(escape_channel_end_markers(&chars("x</channel>y</ChAnNeL></channel>"))),
        "x&lt;/channel&gt;y&lt;/channel&gt;&lt;/channel&gt;"
    );
    assert_eq!(string(escape_channel_end_markers(&chars("</channel"))), "</channel");
}
