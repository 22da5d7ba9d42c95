use adaptogen::json::JsonValue;
use adaptogen::normalized::ContentBlock;
use adaptogen::normalized::ContentFrame;
use adaptogen::parser::ModelResponseParser;
use adaptogen::parser::ParseError;
use adaptogen::parser::models_contain;
use adaptogen::raw::parse_json;
use adaptogen::registry::ParserRegistry;

fn get_str(v: &JsonValue, key: &str) -> Option<String> {
    match v.get(key) {
        Some(JsonValue::Str(s)) => Some(s.clone()),
        _ => None,
    }
}

// The translators these scenarios need, behind one type.
enum ScenarioParser {
    // Maps `text` entries of a `content` array.
    Nova,
    // Splits a `<think>...</think>` prefix off the first choice's message.
    ThinkSplit,
    // Requires `id` and yields an empty frame.
    StrictId,
    // Claims one model identifier and answers with a fixed frame id.
    Label(&'static str, &'static str),
}

impl ModelResponseParser for ScenarioParser {
    fn supported_models(&self) -> Vec<String> {
        match self {
            ScenarioParser::Nova => vec!["nova".to_string()],
            ScenarioParser::ThinkSplit => vec!["qwen".to_string()],
            ScenarioParser::StrictId => vec!["strict".to_string()],
            ScenarioParser::Label(model, _) => vec![model.to_string()],
        }
    }

    fn parse(&self, raw_response: &str) -> Result<ContentFrame, ParseError> {
        let json = parse_json(raw_response)?;
        let id_field = get_str(&json, "id");
        let model =
            get_str(&json, "model").ok_or_else(|| ParseError::MissingField("model".to_string()))?;
        match self {
            ScenarioParser::Nova => {
                let id = id_field.ok_or_else(|| ParseError::MissingField("id".to_string()))?;
                let mut blocks = Vec::new();
                if let Some(JsonValue::Arr(content_blocks)) = json.get("content") {
                    for block in content_blocks {
                        if get_str(block, "type").as_deref() == Some("text") {
                            if let Some(text) = get_str(block, "text") {
                                blocks.push(ContentBlock::Text { text });
                            }
                        }
                    }
                }
                Ok(ContentFrame { id, model, blocks })
            }
            ScenarioParser::ThinkSplit => {
                let id = id_field.ok_or_else(|| ParseError::MissingField("id".to_string()))?;
                let mut blocks = Vec::new();
                if let Some(JsonValue::Arr(choices)) = json.get("choices") {
                    if let Some(first_choice) = choices.first() {
                        if let Some(message) = first_choice.get("message") {
                            if let Some(content) = get_str(message, "content") {
                                match (content.starts_with("<think>"), content.find("</think>")) {
                                    (true, Some(end)) => {
                                        blocks.push(ContentBlock::Thinking {
                                            thinking: Some(content[7..end].to_string()),
                                            signature: None,
                                        });
                                        let text = content[end + 8..].to_string();
                                        if !text.is_empty() {
                                            blocks.push(ContentBlock::Text { text });
                                        }
                                    }
                                    _ => blocks.push(ContentBlock::Text { text: content }),
                                }
                            }
                        }
                    }
                }
                Ok(ContentFrame { id, model, blocks })
            }
            ScenarioParser::StrictId => {
                let id = id_field.ok_or_else(|| ParseError::MissingField("id".to_string()))?;
                Ok(ContentFrame {
                    id,
                    model,
                    blocks: vec![],
                })
            }
            ScenarioParser::Label(_, label) => Ok(ContentFrame {
                id: label.to_string(),
                model,
                blocks: vec![],
            }),
        }
    }

    fn can_handle(&self, model: &str) -> bool {
        models_contain(&self.supported_models(), model)
    }
}

#[test]
fn test_nova_text_scenario() {
    let mut registry = ParserRegistry::new();
    registry.register_parser(ScenarioParser::Nova);

    let response = r#"{"id":"x1","model":"nova","content":[{"type":"text","text":"hi"}]}"#;
    let frame = registry.parse(response).unwrap();

    assert_eq!(frame.id, "x1");
    assert_eq!(frame.model, "nova");
    assert_eq!(
        frame.blocks,
        vec![ContentBlock::Text {
            text: "hi".to_string()
        }]
    );
}

#[test]
fn test_qwen_think_scenario() {
    let mut registry = ParserRegistry::new();
    registry.register_parser(ScenarioParser::ThinkSplit);

    let response =
        r#"{"id":"x2","model":"qwen","choices":[{"message":{"content":"<think>reasoning</think>answer"}}]}"#;
    let frame = registry.parse(response).unwrap();

    assert_eq!(frame.id, "x2");
    assert_eq!(frame.model, "qwen");
    assert_eq!(
        frame.blocks,
        vec![
            ContentBlock::Thinking {
                thinking: Some("reasoning".to_string()),
                signature: None,
            },
            ContentBlock::Text {
                text: "answer".to_string()
            },
        ]
    );
}

#[test]
fn test_missing_id_scenario() {
    let mut registry = ParserRegistry::new();
    registry.register_parser(ScenarioParser::StrictId);

    let response = r#"{"model":"strict","content":[]}"#;
    match registry.parse(response) {
        Err(ParseError::MissingField(field)) => assert_eq!(field, "id"),
        _ => panic!("Expected MissingField error"),
    }
}

#[test]
fn test_missing_model_any_registration() {
    let no_model = r#"{"id":"123","content":"test"}"#;

    let empty: ParserRegistry<ScenarioParser> = ParserRegistry::new();
    match empty.parse(no_model) {
        Err(ParseError::MissingField(field)) => assert_eq!(field, "model"),
        _ => panic!("Expected MissingField error"),
    }

    let mut full = ParserRegistry::new();
    full.register_parser(ScenarioParser::Nova);
    full.register_parser(ScenarioParser::ThinkSplit);
    match full.parse(no_model) {
        Err(ParseError::MissingField(field)) => assert_eq!(field, "model"),
        _ => panic!("Expected MissingField error"),
    }
}

#[test]
fn test_ghost_model_passthrough() {
    let mut registry = ParserRegistry::new();
    registry.register_parser(ScenarioParser::Nova);
    registry.register_parser(ScenarioParser::ThinkSplit);

    let response = r#"{"id":"g","model":"ghost-model"}"#;
    match registry.parse(response) {
        Err(ParseError::UnsupportedModel(model)) => assert_eq!(model, "ghost-model"),
        _ => panic!("Expected UnsupportedModel error"),
    }
}

#[test]
fn test_first_match_priority() {
    let mut registry = ParserRegistry::new();
    registry.register_parser(ScenarioParser::Label("m", "first"));
    registry.register_parser(ScenarioParser::Label("m", "second"));

    let response = r#"{"id":"p","model":"m"}"#;
    let frame = registry.parse(response).unwrap();
    assert_eq!(frame.id, "first");

    // Registered the other way round, the other translator wins.
    let mut swapped = ParserRegistry::new();
    swapped.register_parser(ScenarioParser::Label("m", "second"));
    swapped.register_parser(ScenarioParser::Label("m", "first"));
    let frame = swapped.parse(response).unwrap();
    assert_eq!(frame.id, "second");
}

#[test]
fn test_dispatch_deterministic() {
    let mut registry = ParserRegistry::new();
    registry.register_parser(ScenarioParser::Nova);
    registry.register_parser(ScenarioParser::ThinkSplit);

    let response = r#"{"id":"x1","model":"nova","content":[{"type":"text","text":"hi"}]}"#;
    let first = registry.parse(response).unwrap();
    let second = registry.parse(response).unwrap();
    assert_eq!(first, second);

    let unsupported = r#"{"id":"x1","model":"ghost-model"}"#;
    let first = registry.parse(unsupported);
    let second = registry.parse(unsupported);
    match (first, second) {
        (Err(ParseError::UnsupportedModel(a)), Err(ParseError::UnsupportedModel(b))) => {
            assert_eq!(a, b)
        }
        _ => panic!("Expected UnsupportedModel error"),
    }
}
