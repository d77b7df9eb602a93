//! What the graphical front end decides: the state behind the window, and
//! what each message does to it. Drawing the window, the clipboard, the file
//! dialog and the clock are left to the program that shows the window.

use crate::codec::{
    is_decode_result, is_encode_result, python_payload, python_wrapper, zalgo_decode, zalgo_encode,
    zalgo_unwrap_python, zalgo_wrap_python,
};
use crate::error::{DecodeError, EncodeError};
use crate::messages::{decode_error_text, encode_error_text};
use crate::model::{encoded_chars, is_encodable_text};
use vstd::prelude::*;
use vstd::string::StringExecFns;
use vstd::utf8::encode_utf8;

verus! {

/// The buttons of the window.
#[derive(Debug, Clone, Copy, PartialEq, Eq)]
pub enum GuiButton {
    Encode,
    Decode,
    Wrap,
    Unwrap,
    Copy,
    SaveAs,
}

/// What the user can do.
#[derive(Debug, Clone, PartialEq, Eq)]
pub enum UserAction {
    /// The text in the input field was changed to the given text.
    EditedInputText(String),
    /// The given button was pressed.
    Pressed(GuiButton),
}

/// What happens when a timer runs out.
#[derive(Debug, Clone, Copy, PartialEq, Eq)]
pub enum TimedAction {
    /// The oldest notification that is still shown goes away.
    PopNotification,
}

/// The messages that the window handles.
#[derive(Debug, Clone)]
pub enum ToplevelMessage {
    /// The codec has produced the given result.
    CodecFinished(String),
    /// A timer has run out.
    TimerFinished(TimedAction),
    /// The given notification is to be shown.
    PushNotification(String),
    /// The user did something.
    User(UserAction),
}

/// What is to be done after a message has been handled.
#[derive(Debug, Clone)]
pub enum Effect {
    /// Nothing.
    Nothing,
    /// Wait for five seconds and then handle the timer's message.
    Wait(TimedAction),
    /// Handle the given message next.
    Dispatch(ToplevelMessage),
    /// Put the given text on the clipboard, and show a notification if that
    /// fails.
    Copy(String),
    /// Ask where to save the given text and save it there, and show a
    /// notification if that fails.
    SaveAs(String),
}

/// The state behind the window.
#[derive(Debug)]
pub struct ZalgoCodecGui {
    /// The text in the input field.
    pub input_field: String,
    /// The last result of the codec.
    pub output_field: String,
    /// The notifications that are shown, the newest last.
    pub notifications: Vec<String>,
}

impl Default for ZalgoCodecGui {
    /// The state of a window that has just been opened: both fields are
    /// empty and no notification is shown.
    fn default() -> (state: Self)
        ensures
            state.input_field@.len() == 0,
            state.output_field@.len() == 0,
            state.notifications@.len() == 0,
    {
        ZalgoCodecGui {
            input_field: String::new(),
            output_field: String::new(),
            notifications: Vec::new(),
        }
    }
}

/// The texts of the notifications, the newest last.
pub open spec fn notification_texts(notifications: Vec<String>) -> Seq<Seq<char>> {
    Seq::new(notifications@.len(), |i: int| notifications@[i]@)
}

/// Whether `message` reports what encoding `input` gives: the encoded text,
/// wrapped in the Python decoder where `wrap` is set, or the message of the
/// error as a notification.
pub open spec fn reports_encoding(input: Seq<char>, wrap: bool, message: ToplevelMessage) -> bool {
    match message {
        ToplevelMessage::CodecFinished(text) => {
            &&& is_encodable_text(encode_utf8(input))
            &&& text@ == if wrap {
                python_wrapper(encoded_chars(encode_utf8(input)))
            } else {
                encoded_chars(encode_utf8(input))
            }
        },
        ToplevelMessage::PushNotification(text) => exists|e: EncodeError|
            #[trigger] is_encode_result(input, Err::<Seq<char>, EncodeError>(e)) && text@
                == encode_error_text(e@),
        _ => false,
    }
}

/// Whether `message` reports what decoding `input` gives: the decoded text,
/// or the message of the error as a notification.
pub open spec fn reports_decoding(input: Seq<char>, message: ToplevelMessage) -> bool {
    match message {
        ToplevelMessage::CodecFinished(text) => is_decode_result(
            input,
            Ok::<Seq<char>, DecodeError>(text@),
        ),
        ToplevelMessage::PushNotification(text) => exists|e: DecodeError|
            #[trigger] is_decode_result(input, Err::<Seq<char>, DecodeError>(e)) && text@
                == decode_error_text(e@),
        _ => false,
    }
}

/// Whether `effect` is what follows the press of `button` with the given
/// texts in the input and the output field.
pub open spec fn follows_press(
    button: GuiButton,
    input: Seq<char>,
    output: Seq<char>,
    effect: Effect,
) -> bool {
    match button {
        GuiButton::Encode => effect matches Effect::Dispatch(message) && reports_encoding(
            input,
            false,
            message,
        ),
        GuiButton::Wrap => effect matches Effect::Dispatch(message) && reports_encoding(
            input,
            true,
            message,
        ),
        GuiButton::Decode => effect matches Effect::Dispatch(message) && if input.len() == 0 {
            message matches ToplevelMessage::PushNotification(text) && text@
                == "the input string was empty"@
        } else {
            reports_decoding(input, message)
        },
        GuiButton::Unwrap => effect matches Effect::Dispatch(message) && reports_decoding(
            python_payload(input),
            message,
        ),
        GuiButton::Copy => effect matches Effect::Copy(text) && text@ == output,
        GuiButton::SaveAs => effect matches Effect::SaveAs(text) && text@ == output,
    }
}

/// Turns the result of encoding into the message that reports it.
fn report_encoding(input: &str, wrap: bool) -> (message: ToplevelMessage)
    ensures
        reports_encoding(input@, wrap, message),
{
    let result = if wrap {
        zalgo_wrap_python(input)
    } else {
        zalgo_encode(input)
    };
    match result {
        Ok(text) => {
            ToplevelMessage::CodecFinished(text)
        },
        Err(e) => {
            let text = e.to_string();
            assert(is_encode_result(input@, Err::<Seq<char>, EncodeError>(e)));
            ToplevelMessage::PushNotification(text)
        },
    }
}

/// Turns the result of decoding into the message that reports it.
fn report_decoding(result: Result<String, DecodeError>, Ghost(input): Ghost<Seq<char>>) -> (message:
    ToplevelMessage)
    requires
        is_decode_result(
            input,
            match result {
                Ok(s) => Ok(s@),
                Err(e) => Err(e),
            },
        ),
    ensures
        reports_decoding(input, message),
{
    match result {
        Ok(text) => ToplevelMessage::CodecFinished(text),
        Err(e) => {
            let text = e.to_string();
            assert(is_decode_result(input, Err::<Seq<char>, DecodeError>(e)));
            ToplevelMessage::PushNotification(text)
        },
    }
}

/// Handles one message: changes the state and says what is to be done next.
///
/// A result of the codec goes to the output field. A notification is put on
/// the list, and a timer takes the oldest one off again. A change of the
/// input goes to the input field. A press of a button runs the codec on the
/// input field, or hands the output field to the clipboard or to a file.
pub fn update(state: &mut ZalgoCodecGui, message: ToplevelMessage) -> (effect: Effect)
    ensures
        match message {
            ToplevelMessage::CodecFinished(result) => {
                &&& final(state).output_field@ == result@
                &&& final(state).input_field@ == old(state).input_field@
                &&& notification_texts(final(state).notifications) == notification_texts(
                    old(state).notifications,
                )
                &&& effect is Nothing
            },
            ToplevelMessage::PushNotification(notification) => {
                &&& final(state).output_field@ == old(state).output_field@
                &&& final(state).input_field@ == old(state).input_field@
                &&& notification_texts(final(state).notifications) == notification_texts(
                    old(state).notifications,
                ).push(notification@)
                &&& effect == Effect::Wait(TimedAction::PopNotification)
            },
            ToplevelMessage::TimerFinished(TimedAction::PopNotification) => {
                &&& final(state).output_field@ == old(state).output_field@
                &&& final(state).input_field@ == old(state).input_field@
                &&& notification_texts(final(state).notifications) == if old(
                    state,
                ).notifications@.len() > 0 {
                    notification_texts(old(state).notifications).drop_last()
                } else {
                    notification_texts(old(state).notifications)
                }
                &&& effect is Nothing
            },
            ToplevelMessage::User(UserAction::EditedInputText(text)) => {
                &&& final(state).output_field@ == old(state).output_field@
                &&& final(state).input_field@ == text@
                &&& notification_texts(final(state).notifications) == notification_texts(
                    old(state).notifications,
                )
                &&& effect is Nothing
            },
            ToplevelMessage::User(UserAction::Pressed(button)) => {
                &&& final(state).output_field@ == old(state).output_field@
                &&& final(state).input_field@ == old(state).input_field@
                &&& notification_texts(final(state).notifications) == notification_texts(
                    old(state).notifications,
                )
                &&& follows_press(
                    button,
                    old(state).input_field@,
                    old(state).output_field@,
                    effect,
                )
            },
        },
{
    match message {
        ToplevelMessage::CodecFinished(result) => {
            state.output_field = result;
            Effect::Nothing
        },
        ToplevelMessage::PushNotification(notification) => {
            state.notifications.push(notification);
            assert(notification_texts(state.notifications) =~= notification_texts(
                old(state).notifications,
            ).push(notification@));
            Effect::Wait(TimedAction::PopNotification)
        },
        ToplevelMessage::TimerFinished(action) => {
            match action {
                TimedAction::PopNotification => {
                    state.notifications.pop();
                    proof {
                        if old(state).notifications@.len() > 0 {
                            assert(notification_texts(state.notifications) =~= notification_texts(
                                old(state).notifications,
                            ).drop_last());
                        }
                    }
                },
            }
            Effect::Nothing
        },
        ToplevelMessage::User(action) => match action {
            UserAction::EditedInputText(text) => {
                state.input_field = text;
                Effect::Nothing
            },
            UserAction::Pressed(GuiButton::Encode) => Effect::Dispatch(
                report_encoding(state.input_field.as_str(), false),
            ),
            UserAction::Pressed(GuiButton::Wrap) => Effect::Dispatch(
                report_encoding(state.input_field.as_str(), true),
            ),
            UserAction::Pressed(GuiButton::Decode) => {
                let input = state.input_field.as_str();
                if input.is_empty() {
                    Effect::Dispatch(
                        ToplevelMessage::PushNotification("the input string was empty".to_owned()),
                    )
                } else {
                    Effect::Dispatch(report_decoding(zalgo_decode(input), Ghost(input@)))
                }
            },
            UserAction::Pressed(GuiButton::Unwrap) => {
                let input = state.input_field.as_str();
                Effect::Dispatch(
                    report_decoding(zalgo_unwrap_python(input), Ghost(python_payload(input@))),
                )
            },
            UserAction::Pressed(GuiButton::Copy) => Effect::Copy(state.output_field.clone()),
            UserAction::Pressed(GuiButton::SaveAs) => Effect::SaveAs(state.output_field.clone()),
        },
    }
}

/// The text that shows the notifications: each on a line of its own, the
/// newest first.
pub open spec fn toast_text(notifications: Seq<Seq<char>>) -> Seq<char>
    decreases notifications.len(),
{
    if notifications.len() == 0 {
        Seq::empty()
    } else {
        toast_text(notifications.drop_last()) + seq!['\n'] + notifications.last()
    }
}

/// Writes the text that shows the notifications of `state`.
pub fn toast(state: &ZalgoCodecGui) -> (text: String)
    ensures
        text@ == toast_text(notification_texts(state.notifications).reverse()),
{
    let mut text = String::new();
    let mut left: usize = state.notifications.len();
    let ghost shown = notification_texts(state.notifications).reverse();
    assert(shown.take(0) =~= Seq::<Seq<char>>::empty());
    while left > 0
        invariant
            left <= state.notifications@.len(),
            shown == notification_texts(state.notifications).reverse(),
            text@ == toast_text(shown.take(state.notifications@.len() - left)),
        decreases left,
    {
        left -= 1;
        text.append("\n");
        text.append(state.notifications[left].as_str());
        proof {
            reveal_strlit("\n");
            let done = state.notifications@.len() - left;
            assert(shown.take(done).drop_last() =~= shown.take(done - 1));
            assert(shown.take(done).last() == state.notifications@[left as int]@);
            assert("\n"@ =~= seq!['\n']);
        }
    }
    assert(shown.take(state.notifications@.len() as int) =~= shown);
    text
}

} // verus!
