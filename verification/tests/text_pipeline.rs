use rsvp_parser::has_text_layer;
use rsvp_parser::parse_text;
use rsvp_parser::tokenize;
use rsvp_parser::ParseError;
use rsvp_parser::READABILITY_THRESHOLD;

fn strings(words: &[&str]) -> Vec<String> {
    words.iter().map(|w| w.to_string()).collect()
}

#[test]
fn scenario_eleven_token_text() {
    match parse_text("Hello world this is a test of the rsvp reader today") {
        Ok(r) => {
            assert_eq!(
                r.words,
                strings(&[
                    "Hello", "world", "this", "is", "a", "test", "of", "the", "rsvp", "reader",
                    "today"
                ])
            );
            assert!(r.title.is_none());
        }
        Err(_) => panic!("eleven tokens must be accepted"),
    }
}

#[test]
fn scenario_two_token_text() {
    assert!(matches!(
        parse_text("scanned image"),
        Err(ParseError::ScannedDocumentError)
    ));
}

#[test]
fn scenario_exactly_ten_tokens() {
    match parse_text("one two three four five six seven eight nine ten") {
        Ok(r) => {
            assert_eq!(r.words.len(), 10);
            assert_eq!(r.words[0], "one");
            assert_eq!(r.words[9], "ten");
            assert!(r.title.is_none());
        }
        Err(_) => panic!("exactly ten tokens must be accepted"),
    }
}

#[test]
fn nine_tokens_rejected() {
    assert!(matches!(
        parse_text("one two three four five six seven eight nine"),
        Err(ParseError::ScannedDocumentError)
    ));
}

#[test]
fn empty_text_rejected() {
    assert!(matches!(
        parse_text(""),
        Err(ParseError::ScannedDocumentError)
    ));
}

#[test]
fn whitespace_only_text_rejected() {
    assert!(matches!(
        parse_text("  \t\n  \r\n   "),
        Err(ParseError::ScannedDocumentError)
    ));
}

#[test]
fn long_text_keeps_every_token_in_order() {
    let text = "alpha beta gamma delta epsilon zeta eta theta iota kappa lambda mu";
    let r = match parse_text(text) {
        Ok(r) => r,
        Err(_) => panic!("twelve tokens must be accepted"),
    };
    assert_eq!(
        r.words,
        strings(&[
            "alpha", "beta", "gamma", "delta", "epsilon", "zeta", "eta", "theta", "iota", "kappa",
            "lambda", "mu"
        ])
    );
}

#[test]
fn tokenize_splits_on_whitespace_runs() {
    assert_eq!(
        tokenize("  foo\t\tbar\n\nbaz  qux "),
        strings(&["foo", "bar", "baz", "qux"])
    );
}

#[test]
fn tokenize_never_yields_empty_tokens() {
    for text in ["", " ", "\t\n", "  a  ", "a", " a b  c   d    e "] {
        for tok in tokenize(text) {
            assert!(!tok.is_empty());
        }
    }
}

#[test]
fn tokenize_preserves_case_and_punctuation() {
    assert_eq!(
        tokenize("Hello, World! (really)"),
        strings(&["Hello,", "World!", "(really)"])
    );
}

#[test]
fn tokenize_keeps_duplicates() {
    assert_eq!(tokenize("the the the"), strings(&["the", "the", "the"]));
}

#[test]
fn tokenize_unicode_whitespace() {
    assert_eq!(
        tokenize("a\u{00A0}b\u{2003}c\u{3000}d"),
        strings(&["a", "b", "c", "d"])
    );
}

#[test]
fn has_text_layer_boundary() {
    let nine = strings(&["a", "b", "c", "d", "e", "f", "g", "h", "i"]);
    let mut ten = nine.clone();
    ten.push("j".to_string());
    assert!(!has_text_layer(&nine));
    assert!(has_text_layer(&ten));
}

#[test]
fn readability_threshold_value() {
    assert_eq!(READABILITY_THRESHOLD, 10);
}

#[test]
fn scanned_error_message_is_actionable() {
    let msg = ParseError::ScannedDocumentError.message();
    assert_eq!(
        msg,
        "No readable text found. This PDF may be scanned or image-based. Try a different PDF or paste the text instead."
    );
}

#[test]
fn decode_error_message_carries_summary() {
    let msg = ParseError::DecodeError("PDF error: bad trailer".to_string()).message();
    assert_eq!(msg, "PDF error: bad trailer");
}
