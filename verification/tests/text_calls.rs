use key_gateway::error::InputError;
use key_gateway::text::{key_type, TextCall, TextStep};

fn started_text(text: &str) -> TextCall {
    let mut call = key_type(String::from(text));
    assert_eq!(call.advance(true), TextStep::Acquire);
    call
}

#[test]
fn a_text_is_handed_out_whole_and_once() {
    let mut call = key_type(String::from("hello world"));
    assert_eq!(call.advance(true), TextStep::Acquire);
    assert_eq!(call.advance(true), TextStep::Inject(String::from("hello world")));
    assert_eq!(call.advance(true), TextStep::Finish(Ok(())));
}

#[test]
fn a_text_of_many_code_points_is_handed_out_unchanged() {
    let text = "Gr\u{fc}\u{df}e, \u{4e16}\u{754c}! \u{1f600}\n\ttab";
    let mut call = started_text(text);
    assert_eq!(call.advance(true), TextStep::Inject(String::from(text)));
    assert_eq!(call.advance(true), TextStep::Finish(Ok(())));
}

#[test]
fn a_text_of_one_space_is_still_a_text() {
    let mut call = started_text(" ");
    assert_eq!(call.advance(true), TextStep::Inject(String::from(" ")));
    assert_eq!(call.advance(true), TextStep::Finish(Ok(())));
}

#[test]
fn an_empty_text_succeeds_without_an_injection() {
    let mut call = key_type(String::new());
    assert_eq!(call.advance(true), TextStep::Acquire);
    assert_eq!(call.advance(true), TextStep::Finish(Ok(())));
}

#[test]
fn an_empty_text_succeeds_whatever_is_reported() {
    let mut call = key_type(String::new());
    assert_eq!(call.advance(false), TextStep::Acquire);
    assert_eq!(call.advance(false), TextStep::Finish(Ok(())));
    assert_eq!(call.advance(false), TextStep::Finish(Ok(())));
}

#[test]
fn a_refused_text_fails_the_call() {
    let mut call = started_text("abc");
    assert_eq!(call.advance(true), TextStep::Inject(String::from("abc")));
    assert_eq!(call.advance(false), TextStep::Finish(Err(InputError::InjectionFailure)));
}

#[test]
fn a_refused_text_is_not_handed_out_again() {
    let mut call = started_text("abc");
    assert_eq!(call.advance(true), TextStep::Inject(String::from("abc")));
    assert_eq!(call.advance(false), TextStep::Finish(Err(InputError::InjectionFailure)));
    assert_eq!(call.advance(true), TextStep::Finish(Err(InputError::InjectionFailure)));
}

#[test]
fn a_typed_text_is_not_handed_out_again() {
    let mut call = started_text("abc");
    assert_eq!(call.advance(false), TextStep::Inject(String::from("abc")));
    assert_eq!(call.advance(true), TextStep::Finish(Ok(())));
    assert_eq!(call.advance(false), TextStep::Finish(Ok(())));
    assert_eq!(call.advance(true), TextStep::Finish(Ok(())));
}
