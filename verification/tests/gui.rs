use zalgo_codec::gui::{
    toast, update, Effect, GuiButton, TimedAction, ToplevelMessage, UserAction, ZalgoCodecGui,
};
use zalgo_codec::{zalgo_encode, zalgo_wrap_python};

fn window_with_input(text: &str) -> ZalgoCodecGui {
    let mut state = ZalgoCodecGui::default();
    let effect = update(
        &mut state,
        ToplevelMessage::User(UserAction::EditedInputText(text.to_owned())),
    );
    assert!(matches!(effect, Effect::Nothing));
    state
}

fn press(state: &mut ZalgoCodecGui, button: GuiButton) -> Effect {
    update(state, ToplevelMessage::User(UserAction::Pressed(button)))
}

#[test]
fn a_new_window_is_empty() {
    let state = ZalgoCodecGui::default();
    assert_eq!(state.input_field, "");
    assert_eq!(state.output_field, "");
    assert!(state.notifications.is_empty());
    assert_eq!(toast(&state), "");
}

#[test]
fn editing_changes_the_input_field_only() {
    let state = window_with_input("Zalgo");
    assert_eq!(state.input_field, "Zalgo");
    assert_eq!(state.output_field, "");
    assert!(state.notifications.is_empty());
}

#[test]
fn a_result_goes_to_the_output_field() {
    let mut state = window_with_input("Zalgo");
    let effect = update(&mut state, ToplevelMessage::CodecFinished("done".to_owned()));
    assert!(matches!(effect, Effect::Nothing));
    assert_eq!(state.output_field, "done");
    assert_eq!(state.input_field, "Zalgo");
}

#[test]
fn encode_button_reports_the_encoded_text() {
    let mut state = window_with_input("Zalgo");
    match press(&mut state, GuiButton::Encode) {
        Effect::Dispatch(ToplevelMessage::CodecFinished(text)) => {
            assert_eq!(text, zalgo_encode("Zalgo").unwrap());
        }
        other => panic!("unexpected effect {other:?}"),
    }
    assert_eq!(state.input_field, "Zalgo");
    assert_eq!(state.output_field, "");
}

#[test]
fn encode_button_reports_the_error() {
    let mut state = window_with_input("Zalgo\r");
    match press(&mut state, GuiButton::Encode) {
        Effect::Dispatch(ToplevelMessage::PushNotification(text)) => {
            assert_eq!(
                text,
                "can not encode '\\r' character at string index 5, on line 1 at column 6"
            );
        }
        other => panic!("unexpected effect {other:?}"),
    }
}

#[test]
fn wrap_button_reports_the_wrapped_text() {
    let mut state = window_with_input("print(1)\n");
    match press(&mut state, GuiButton::Wrap) {
        Effect::Dispatch(ToplevelMessage::CodecFinished(text)) => {
            assert_eq!(text, zalgo_wrap_python("print(1)\n").unwrap());
        }
        other => panic!("unexpected effect {other:?}"),
    }
    let mut state = window_with_input("print(\t1)");
    assert!(matches!(
        press(&mut state, GuiButton::Wrap),
        Effect::Dispatch(ToplevelMessage::PushNotification(_))
    ));
}

#[test]
fn decode_button_reports_the_decoded_text() {
    let mut state = window_with_input(&zalgo_encode("Zalgo").unwrap());
    match press(&mut state, GuiButton::Decode) {
        Effect::Dispatch(ToplevelMessage::CodecFinished(text)) => assert_eq!(text, "Zalgo"),
        other => panic!("unexpected effect {other:?}"),
    }
}

#[test]
fn decode_button_reports_an_empty_input() {
    let mut state = ZalgoCodecGui::default();
    match press(&mut state, GuiButton::Decode) {
        Effect::Dispatch(ToplevelMessage::PushNotification(text)) => {
            assert_eq!(text, "the input string was empty");
        }
        other => panic!("unexpected effect {other:?}"),
    }
}

#[test]
fn decode_button_reports_the_error() {
    let mut state = window_with_input("Ea ");
    match press(&mut state, GuiButton::Decode) {
        Effect::Dispatch(ToplevelMessage::PushNotification(text)) => {
            assert_eq!(
                text,
                "could not decode the string because decoding resulted in invalid utf8: invalid utf-8 sequence of 1 bytes from index 0"
            );
        }
        other => panic!("unexpected effect {other:?}"),
    }
}

#[test]
fn unwrap_button_reports_the_wrapped_program() {
    let mut state = window_with_input(&zalgo_wrap_python("print(1)\n").unwrap());
    match press(&mut state, GuiButton::Unwrap) {
        Effect::Dispatch(ToplevelMessage::CodecFinished(text)) => assert_eq!(text, "print(1)\n"),
        other => panic!("unexpected effect {other:?}"),
    }
    let mut state = window_with_input("too short");
    match press(&mut state, GuiButton::Unwrap) {
        Effect::Dispatch(ToplevelMessage::PushNotification(text)) => {
            assert_eq!(text, "could not decode the string because the string was empty");
        }
        other => panic!("unexpected effect {other:?}"),
    }
}

#[test]
fn copy_and_save_hand_out_the_output_field() {
    let mut state = window_with_input("in");
    update(&mut state, ToplevelMessage::CodecFinished("out".to_owned()));
    match press(&mut state, GuiButton::Copy) {
        Effect::Copy(text) => assert_eq!(text, "out"),
        other => panic!("unexpected effect {other:?}"),
    }
    match press(&mut state, GuiButton::SaveAs) {
        Effect::SaveAs(text) => assert_eq!(text, "out"),
        other => panic!("unexpected effect {other:?}"),
    }
    assert_eq!(state.output_field, "out");
}

#[test]
fn notifications_come_and_go() {
    let mut state = ZalgoCodecGui::default();
    let effect = update(&mut state, ToplevelMessage::PushNotification("first".to_owned()));
    assert!(matches!(effect, Effect::Wait(TimedAction::PopNotification)));
    update(&mut state, ToplevelMessage::PushNotification("second".to_owned()));
    assert_eq!(state.notifications, vec!["first", "second"]);
    assert_eq!(toast(&state), "\nsecond\nfirst");
    let effect = update(
        &mut state,
        ToplevelMessage::TimerFinished(TimedAction::PopNotification),
    );
    assert!(matches!(effect, Effect::Nothing));
    assert_eq!(state.notifications, vec!["first"]);
    assert_eq!(toast(&state), "\nfirst");
    update(&mut state, ToplevelMessage::TimerFinished(TimedAction::PopNotification));
    update(&mut state, ToplevelMessage::TimerFinished(TimedAction::PopNotification));
    assert!(state.notifications.is_empty());
    assert_eq!(toast(&state), "");
}
