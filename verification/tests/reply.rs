use veridion::server::{apply_redaction, extract_output_text, Json};

fn s(text: &str) -> Json {
    Json::Str(text.to_string())
}

fn obj(members: Vec<(&str, Json)>) -> Json {
    Json::Object(members.into_iter().map(|(k, v)| (k.to_string(), v)).collect())
}

fn reply(content: &str) -> Json {
    obj(vec![(
        "choices",
        Json::Array(vec![obj(vec![(
            "message",
            obj(vec![("role", s("assistant")), ("content", s(content))]),
        )])]),
    )])
}

#[test]
fn extracts_first_choice_content() {
    let value = reply("Contact us at security@example.com");
    assert_eq!(extract_output_text(&value), Some("Contact us at security@example.com".to_string()));
}

#[test]
fn skips_choices_without_text_and_falls_back_to_content() {
    let value = obj(vec![
        ("choices", Json::Array(vec![obj(vec![("message", obj(vec![("content", Json::Null)]))]), s("x")])),
        ("content", s("top level")),
    ]);
    assert_eq!(extract_output_text(&value), Some("top level".to_string()));
    let second = obj(vec![(
        "choices",
        Json::Array(vec![
            obj(vec![("index", Json::Number("0".to_string()))]),
            obj(vec![("message", obj(vec![("content", s("second"))]))]),
        ]),
    )]);
    assert_eq!(extract_output_text(&second), Some("second".to_string()));
    assert_eq!(extract_output_text(&s("bare")), None);
    assert_eq!(extract_output_text(&obj(vec![("content", Json::Bool(true))])), None);
}

#[test]
fn redaction_replaces_message_content() {
    let redacted = apply_redaction(reply("Contact us at security@example.com"));
    assert_eq!(redacted, reply("[redacted by veridion]"));
    assert_eq!(extract_output_text(&redacted), Some("[redacted by veridion]".to_string()));
}

#[test]
fn redaction_of_other_shapes() {
    assert_eq!(apply_redaction(s("secret")), s("[redacted by veridion]"));
    assert_eq!(apply_redaction(Json::Number("42".to_string())), Json::Number("42".to_string()));
    let top = apply_redaction(obj(vec![("content", s("x")), ("id", s("abc"))]));
    assert_eq!(top, obj(vec![("content", s("[redacted by veridion]")), ("id", s("abc"))]));
    let odd = apply_redaction(obj(vec![("choices", s("not a list"))]));
    assert_eq!(odd, obj(vec![("choices", s("not a list"))]));
}
