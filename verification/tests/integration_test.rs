use adaptogen::json::JsonValue;
use adaptogen::normalized::ContentBlock;
use adaptogen::normalized::ContentFrame;
use adaptogen::parser::ModelResponseParser;
use adaptogen::parser::ParseError;
use adaptogen::parser::models_contain;
use adaptogen::raw::parse_json;
use adaptogen::registry::ParserRegistry;

fn get_str(v: &JsonValue, key: &str) -> Option<String> {
    match v.get(key) {
        Some(JsonValue::Str(s)) => Some(s.clone()),
        _ => None,
    }
}

// Custom parsers for testing, behind one type so both fit one registry.
enum TestParser {
    Nova,
    Qwen,
}

impl TestParser {
    fn parse_nova(&self, raw_response: &str) -> Result<ContentFrame, ParseError> {
        let json = parse_json(raw_response)?;

        let id = get_str(&json, "id").ok_or_else(|| ParseError::MissingField("id".to_string()))?;
        let model =
            get_str(&json, "model").ok_or_else(|| ParseError::MissingField("model".to_string()))?;

        let mut blocks = Vec::new();

        if let Some(JsonValue::Arr(content_blocks)) = json.get("content") {
            for block in content_blocks {
                if let Some(block_type) = get_str(block, "type") {
                    if block_type == "text" {
                        if let Some(text) = get_str(block, "text") {
                            blocks.push(ContentBlock::Text { text });
                        }
                    }
                    // Other block types are ignored.
                }
            }
        }

        Ok(ContentFrame { id, model, blocks })
    }

    fn parse_qwen(&self, raw_response: &str) -> Result<ContentFrame, ParseError> {
        let json = parse_json(raw_response)?;

        let id = get_str(&json, "id").ok_or_else(|| ParseError::MissingField("id".to_string()))?;
        let model =
            get_str(&json, "model").ok_or_else(|| ParseError::MissingField("model".to_string()))?;

        let mut blocks = Vec::new();

        if let Some(JsonValue::Arr(choices)) = json.get("choices") {
            if let Some(first_choice) = choices.first() {
                if let Some(message) = first_choice.get("message") {
                    if let Some(content) = get_str(message, "content") {
                        blocks.push(ContentBlock::Text { text: content });
                    }
                }
            }
        }

        Ok(ContentFrame { id, model, blocks })
    }
}

impl ModelResponseParser for TestParser {
    fn supported_models(&self) -> Vec<String> {
        match self {
            TestParser::Nova => vec!["nova".to_string()],
            TestParser::Qwen => vec!["qwen".to_string()],
        }
    }

    fn parse(&self, raw_response: &str) -> Result<ContentFrame, ParseError> {
        match self {
            TestParser::Nova => self.parse_nova(raw_response),
            TestParser::Qwen => self.parse_qwen(raw_response),
        }
    }

    fn can_handle(&self, model: &str) -> bool {
        models_contain(&self.supported_models(), model)
    }
}

#[test]
fn test_registry_with_multiple_parsers() {
    // Create registry with both parsers.
    let mut registry = ParserRegistry::new();
    registry.register_parser(TestParser::Nova);
    registry.register_parser(TestParser::Qwen);

    // Nova response.
    let nova_response = r#"{
        "id": "nova-123",
        "model": "nova",
        "content": [
            {"type": "text", "text": "Hello from Nova!"}
        ]
    }"#;

    // Parse Nova response.
    let result = registry.parse(nova_response);
    assert!(result.is_ok());

    let frame = result.unwrap();
    assert_eq!(frame.id, "nova-123");
    assert_eq!(frame.model, "nova");
    assert_eq!(frame.blocks.len(), 1);

    if let ContentBlock::Text { text } = &frame.blocks[0] {
        assert_eq!(text, "Hello from Nova!");
    } else {
        panic!("Expected Text block");
    }

    // Qwen response.
    let qwen_response = r#"{
        "id": "qwen-456",
        "model": "qwen",
        "choices": [
            {
                "message": {
                    "content": "Hello from Qwen!"
                }
            }
        ]
    }"#;

    // Parse Qwen response.
    let result = registry.parse(qwen_response);
    assert!(result.is_ok());

    let frame = result.unwrap();
    assert_eq!(frame.id, "qwen-456");
    assert_eq!(frame.model, "qwen");
    assert_eq!(frame.blocks.len(), 1);

    if let ContentBlock::Text { text } = &frame.blocks[0] {
        assert_eq!(text, "Hello from Qwen!");
    } else {
        panic!("Expected Text block");
    }
}

#[test]
fn test_unsupported_model() {
    let mut registry = ParserRegistry::new();
    registry.register_parser(TestParser::Nova);
    registry.register_parser(TestParser::Qwen);

    let unknown_response = r#"{
        "id": "unknown-789",
        "model": "unknown-model",
        "content": "Hello!"
    }"#;

    let result = registry.parse(unknown_response);
    assert!(result.is_err());

    match result.unwrap_err() {
        ParseError::UnsupportedModel(model) => assert_eq!(model, "unknown-model"),
        _ => panic!("Expected UnsupportedModel error"),
    }
}
