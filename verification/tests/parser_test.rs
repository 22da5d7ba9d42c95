use adaptogen::normalized::ContentBlock;
use adaptogen::normalized::ContentFrame;
use adaptogen::parser::ModelResponseParser;
use adaptogen::parser::ParseError;
use adaptogen::parser::models_contain;

// Mock implementation of ModelResponseParser for testing.
struct MockParser {
    supported: Vec<String>,
}

impl ModelResponseParser for MockParser {
    fn supported_models(&self) -> Vec<String> {
        self.supported.clone()
    }

    fn parse(&self, raw_response: &str) -> Result<ContentFrame, ParseError> {
        // Simple check to validate it gets the expected input.
        if !raw_response.contains("mock") {
            return Err(ParseError::Other("Expected mock in response".to_string()));
        }

        Ok(ContentFrame {
            id: "mock_id".to_string(),
            model: "mock_model".to_string(),
            blocks: vec![ContentBlock::Text {
                text: "Mocked response".to_string(),
            }],
        })
    }

    fn can_handle(&self, model: &str) -> bool {
        models_contain(&self.supported_models(), model)
    }
}

#[test]
fn test_can_handle() {
    let parser = MockParser {
        supported: vec!["model1".to_string(), "model2".to_string()],
    };

    assert!(parser.can_handle("model1"));
    assert!(parser.can_handle("model2"));
    assert!(!parser.can_handle("model3"));
}

#[test]
fn parser_test_parse_success() {
    let parser = MockParser {
        supported: vec!["mock_model".to_string()],
    };

    let result = parser.parse("mock response data");
    assert!(result.is_ok());

    let frame = result.unwrap();
    assert_eq!(frame.id, "mock_id");
    assert_eq!(frame.model, "mock_model");
    assert_eq!(frame.blocks.len(), 1);
}

#[test]
fn test_parse_error() {
    let parser = MockParser {
        supported: vec!["mock_model".to_string()],
    };

    let result = parser.parse("not containing expected keyword");
    assert!(result.is_err());

    match result.unwrap_err() {
        ParseError::Other(msg) => assert_eq!(msg, "Expected mock in response"),
        _ => panic!("Expected Other error variant"),
    }
}

#[test]
fn test_can_handle_empty_list() {
    let parser = MockParser { supported: vec![] };
    assert!(!parser.can_handle("anything"));
    assert!(!parser.can_handle(""));
}
