use waifu_bot::ai::chat::{error_for_status, ApiError, ApiResponse, ChatResult, History};
use waifu_bot::ai::image::{GeneratedImage, ImageError};

fn turn(user: &str, reply: &str) -> Vec<String> {
    vec![user.to_string(), reply.to_string()]
}

fn history(turns: &[(&str, &str)]) -> History {
    History {
        internal: turns.iter().map(|(u, r)| turn(u, r)).collect(),
        visible: turns.iter().map(|(u, r)| turn(u, r)).collect(),
    }
}

#[test]
fn undo_takes_the_last_turn_off() {
    let mut h = history(&[("hi", "hello"), ("how are you", "fine"), ("bye", "see you")]);
    let rest = h.undo();
    assert_eq!(h.internal, vec![turn("hi", "hello"), turn("how are you", "fine")]);
    assert_eq!(h.visible, vec![turn("hi", "hello"), turn("how are you", "fine")]);
    assert_eq!(rest.internal, h.internal);
    assert_eq!(rest.visible, h.visible);
}

#[test]
fn undo_of_lists_of_different_length() {
    let mut h = History { internal: vec![turn("a", "b")], visible: Vec::new() };
    let rest = h.undo();
    assert!(h.internal.is_empty() && h.visible.is_empty());
    assert!(rest.internal.is_empty() && rest.visible.is_empty());
}

#[test]
fn undo_of_an_empty_conversation() {
    let mut h = history(&[]);
    let rest = h.undo();
    assert!(h.internal.is_empty() && h.visible.is_empty());
    assert!(rest.internal.is_empty() && rest.visible.is_empty());
}

#[test]
fn last_is_the_reply_of_the_last_turn() {
    assert_eq!(history(&[("hi", "hello"), ("bye", "see you")]).last(), Some("see you".to_string()));
    assert_eq!(history(&[("hi", "hello")]).last(), Some("hello".to_string()));
    let long = History {
        internal: vec![vec!["u".to_string(), "r".to_string(), "more".to_string()]],
        visible: Vec::new(),
    };
    assert_eq!(long.last(), Some("r".to_string()));
}

#[test]
fn last_of_an_empty_conversation() {
    assert_eq!(history(&[]).last(), None);
    let only_visible = History { internal: Vec::new(), visible: vec![turn("a", "b")] };
    assert_eq!(only_visible.last(), None);
}

#[test]
fn undo_then_last() {
    let mut h = history(&[("hi", "hello"), ("bye", "see you")]);
    assert_eq!(h.undo().last(), Some("hello".to_string()));
}

#[test]
fn answers_hold_histories() {
    let response = ApiResponse { results: vec![ChatResult { history: history(&[("a", "b")]) }] };
    assert_eq!(response.results[0].history.clone().last(), Some("b".to_string()));
}

#[test]
fn errors_by_status() {
    assert_eq!(error_for_status(401), ApiError::SeverStarting);
    assert_eq!(error_for_status(404), ApiError::ServerNotUp);
    assert_eq!(error_for_status(200), ApiError::ImageServerNotUp);
    for status in [0u16, 100, 201, 400, 403, 500, 503, 65535] {
        assert_eq!(error_for_status(status), ApiError::Unknown);
    }
}

#[test]
fn first_picture_is_decoded() {
    let answer = GeneratedImage::new(vec!["aGVsbG8=".to_string(), "!!".to_string()]);
    assert_eq!(answer.first_image(), Ok(b"hello".to_vec()));
    let empty = GeneratedImage::new(vec![String::new()]);
    assert_eq!(empty.first_image(), Ok(Vec::new()));
    let bytes = GeneratedImage::new(vec!["AAEC/w==".to_string()]);
    assert_eq!(bytes.first_image(), Ok(vec![0u8, 1, 2, 255]));
}

#[test]
fn answer_without_a_picture() {
    assert_eq!(GeneratedImage::new(Vec::new()).first_image(), Err(ImageError::NoImage));
}

#[test]
fn picture_that_is_no_base64() {
    let answer = GeneratedImage::new(vec!["not base64!".to_string()]);
    assert_eq!(answer.first_image(), Err(ImageError::NotBase64));
    let short = GeneratedImage::new(vec!["aGVsbG8".to_string()]);
    assert_eq!(short.first_image(), Err(ImageError::NotBase64));
}
