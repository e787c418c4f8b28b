//! Module containing logic for storing what the user has typed in so far,
//! and for deciding when a login is attempted and whether it succeeded.
//!
//! The check of a password is not made here. When Enter is pressed,
//! [`Input::key`] hands out the credentials to be checked, and the verdict
//! comes back through [`Input::verdict`].

use vstd::prelude::*;

use crate::color::Color;

verus! {

/// Keysym of the backspace key.
pub const XKB_KEY_BACKSPACE: u32 = 0xff08;

/// Keysym of the return key.
pub const XKB_KEY_RETURN: u32 = 0xff0d;

/// Keysym of the enter key of the keypad.
pub const XKB_KEY_KP_ENTER: u32 = 0xff8d;

/// Whether a key went down or up.
#[derive(Clone, Copy, Debug, PartialEq, Eq, Structural)]
pub enum KeyState {
    /// The key went up.
    Released,
    /// The key went down.
    Pressed,
}

/// A user name and the password typed for it, to be checked by the
/// authentication service.
pub struct Credentials {
    pub username: String,
    pub password: String,
}

/// The states of a login.
#[derive(Clone, Copy, Debug, PartialEq, Eq, Structural)]
pub enum AuthPhase {
    /// Nothing is typed.
    Empty,
    /// Part of a password is typed.
    Accumulating,
    /// A password was handed out and its verdict has not come back.
    Submitting,
    /// The user is logged in, and stays so.
    Terminal,
}

/// What the user has typed so far, and how the login stands.
pub struct Input {
    /// Buffer of what the user has input so far.
    buffer: String,
    /// Username, given by the system at startup.
    username: String,
    /// Boolean value saying if the user has logged in yet or not.
    logged_in: bool,
    /// Number of failed login attempts.
    failed: u32,
    /// Whether credentials were handed out whose verdict is still awaited.
    submitting: bool,
    /// The new color, if a new one needs to be generated.
    pub new_color: Option<Color>,
}

/// What an [`Input`] holds.
pub struct InputView {
    /// The characters typed so far, in their order.
    pub buffer: Seq<char>,
    /// Name of the user who logs in.
    pub username: Seq<char>,
    /// Whether the user has logged in.
    pub logged_in: bool,
    /// Number of failed login attempts.
    pub failed: nat,
    /// Whether credentials were handed out whose verdict is still awaited.
    pub submitting: bool,
    /// The feedback colour that has not been shown yet.
    pub new_color: Option<Color>,
}

/// The low byte of a character's code point.
pub open spec fn low_byte(c: char) -> int {
    c as int % 0x100
}

/// The sum, over the characters typed, of the low byte divided by `divisor`.
pub open spec fn folded(buffer: Seq<char>, divisor: int) -> int
    decreases buffer.len(),
{
    if buffer.len() == 0 {
        0
    } else {
        folded(buffer.drop_last(), divisor) + low_byte(buffer.last()) / divisor
    }
}

/// The colour shown for what is typed: red is the sum of the low bytes of
/// the characters, green the sum of their thirds and blue the sum of their
/// halves, each sum taken modulo 256.
pub open spec fn feedback_color(buffer: Seq<char>) -> Color {
    Color::solid(
        (folded(buffer, 1) % 0x100) as u8,
        (folded(buffer, 3) % 0x100) as u8,
        (folded(buffer, 2) % 0x100) as u8,
    )
}

/// Whether a keysym submits the password.
pub open spec fn is_enter(keysym: u32) -> bool {
    keysym == XKB_KEY_RETURN || keysym == XKB_KEY_KP_ENTER
}

impl InputView {
    /// The input of a user before anything is typed.
    pub open spec fn fresh(username: Seq<char>) -> InputView {
        InputView {
            buffer: Seq::empty(),
            username,
            logged_in: false,
            failed: 0,
            submitting: false,
            new_color: None,
        }
    }

    /// The state of the login.
    pub open spec fn phase(self) -> AuthPhase {
        if self.logged_in {
            AuthPhase::Terminal
        } else if self.submitting {
            AuthPhase::Submitting
        } else if self.buffer.len() == 0 {
            AuthPhase::Empty
        } else {
            AuthPhase::Accumulating
        }
    }

    /// Key events are heeded unless a verdict is awaited. A login does not
    /// end them: keys are handled after it as before.
    pub open spec fn heeds_keys(self) -> bool {
        !self.submitting
    }

    /// Whether this key event hands out credentials.
    pub open spec fn submits(self, keysym: u32, state: KeyState) -> bool {
        state == KeyState::Pressed && self.heeds_keys() && is_enter(keysym)
    }

    /// The state after a key event that carries the composed text `text`.
    /// Only presses count. Enter empties the buffer and awaits the verdict;
    /// backspace removes the last character, if there is one; any other key
    /// appends its text, if it has any, and sets the feedback colour of the
    /// new buffer.
    pub open spec fn after_key(self, keysym: u32, state: KeyState, text: Option<Seq<char>>) -> InputView {
        if state != KeyState::Pressed || !self.heeds_keys() {
            self
        } else if is_enter(keysym) {
            InputView { buffer: Seq::empty(), submitting: true, ..self }
        } else if keysym == XKB_KEY_BACKSPACE {
            if self.buffer.len() == 0 {
                self
            } else {
                InputView { buffer: self.buffer.drop_last(), ..self }
            }
        } else {
            match text {
                Some(text) => InputView {
                    buffer: self.buffer + text,
                    new_color: Some(feedback_color(self.buffer + text)),
                    ..self
                },
                None => self,
            }
        }
    }

    /// The state after the verdict on the credentials handed out. Success
    /// logs the user in; failure is counted and the login starts over.
    /// Without credentials handed out a verdict changes nothing.
    pub open spec fn after_verdict(self, accepted: bool) -> InputView {
        if !self.submitting {
            self
        } else if accepted {
            InputView { logged_in: true, submitting: false, ..self }
        } else {
            InputView { failed: self.failed + 1, submitting: false, ..self }
        }
    }
}

/// Once the user is logged in, no key event and no verdict logs the user out
/// again.
pub proof fn lemma_login_is_final(
    state: InputView,
    keysym: u32,
    key_state: KeyState,
    text: Option<Seq<char>>,
    accepted: bool,
)
    requires
        state.logged_in,
    ensures
        state.after_key(keysym, key_state, text).logged_in,
        state.after_key(keysym, key_state, text).phase() == AuthPhase::Terminal,
        state.after_verdict(accepted).logged_in,
        state.after_verdict(accepted).phase() == AuthPhase::Terminal,
{
}

impl View for Input {
    type V = InputView;

    closed spec fn view(&self) -> InputView {
        InputView {
            buffer: self.buffer@,
            username: self.username@,
            logged_in: self.logged_in,
            failed: self.failed as nat,
            submitting: self.submitting,
            new_color: self.new_color,
        }
    }
}

/// Removes the last character of `text` with `String::pop`. Nothing is
/// proved of the call; the contract claims what std documents: the last
/// character is removed and returned, and an empty string is left as it is
/// and gives `None`.
#[verifier::external_body]
fn pop_char(text: &mut String) -> (last: Option<char>)
    ensures
        old(text)@.len() == 0 ==> last is None && final(text)@ == old(text)@,
        old(text)@.len() > 0 ==> last == Some(old(text)@.last()) && final(text)@ == old(
            text,
        )@.drop_last(),
{
    text.pop()
}

impl Input {
    /// The input of the user `username`, with nothing typed and nobody
    /// logged in.
    pub fn new(username: String) -> (input: Self)
        ensures
            input@ == InputView::fresh(username@),
    {
        Input {
            buffer: String::new(),
            username,
            logged_in: false,
            failed: 0,
            submitting: false,
            new_color: None,
        }
    }

    /// Determines if the user has succesfully logged in yet.
    pub fn is_logged_in(&self) -> (logged_in: bool)
        ensures
            logged_in == self@.logged_in,
    {
        self.logged_in
    }

    /// Number of failed login attempts.
    pub fn failed_attempts(&self) -> (failed: u32)
        ensures
            failed == self@.failed,
    {
        self.failed
    }

    /// The colour that has not been shown yet.
    pub fn pending_color(&self) -> (color: Option<Color>)
        ensures
            color == self@.new_color,
    {
        self.new_color
    }

    /// Hands out the colour that has not been shown yet, once.
    pub fn take_pending_color(&mut self) -> (color: Option<Color>)
        ensures
            color == old(self)@.new_color,
            final(self)@ == (InputView { new_color: None, ..old(self)@ }),
    {
        self.new_color.take()
    }

    /// Update the color of the screen: sets the pending colour to the
    /// feedback colour of what is typed.
    pub fn update_screen_color(&mut self)
        ensures
            final(self)@ == (InputView {
                new_color: Some(feedback_color(old(self)@.buffer)),
                ..old(self)@
            }),
    {
        let text = self.buffer.as_str();
        let len: usize = text.unicode_len();
        let (mut r, mut g, mut b) = (0u8, 0u8, 0u8);
        let mut i: usize = 0;
        while i < len
            invariant
                text@ == self.buffer@,
                len == text@.len(),
                i <= len,
                r == folded(text@.take(i as int), 1) % 0x100,
                g == folded(text@.take(i as int), 3) % 0x100,
                b == folded(text@.take(i as int), 2) % 0x100,
            decreases len - i,
        {
            let chr = text.get_char(i);
            let code: u32 = chr as u32;
            assert(code & 0xff == code % 0x100) by (bit_vector);
            let val: u8 = (code & 0xff) as u8;
            proof {
                let next = text@.take(i + 1);
                assert(next.drop_last() =~= text@.take(i as int));
                assert(next.last() == chr);
                assert(val == low_byte(chr));
            }
            r = r.wrapping_add(val);
            b = b.wrapping_add(val / 2);
            g = g.wrapping_add(val / 3);
            i += 1;
        }
        assert(text@.take(len as int) =~= text@);
        let color = Color::from_u8s(r, g, b);
        self.new_color = Some(color);
    }

    /// Handles a key event with the composed text that it carries, and
    /// hands out the credentials to be checked when it submits the password.
    pub fn key(&mut self, keysym: u32, state: KeyState, text: Option<String>) -> (submit: Option<
        Credentials,
    >)
        ensures
            final(self)@ == old(self)@.after_key(
                keysym,
                state,
                match text {
                    Some(text) => Some(text@),
                    None => None,
                },
            ),
            submit is Some <==> old(self)@.submits(keysym, state),
            submit matches Some(credentials) ==> credentials.username@ == old(self)@.username
                && credentials.password@ == old(self)@.buffer,
    {
        if let KeyState::Pressed = state {
            if self.submitting {
                return None;
            }
            if keysym == XKB_KEY_RETURN || keysym == XKB_KEY_KP_ENTER {
                let mut password = String::new();
                core::mem::swap(&mut self.buffer, &mut password);
                self.submitting = true;
                return Some(Credentials { username: self.username.clone(), password });
            } else if keysym == XKB_KEY_BACKSPACE {
                pop_char(&mut self.buffer);
            } else {
                if let Some(text) = text {
                    self.buffer.append(text.as_str());
                    self.update_screen_color();
                }
            }
        }
        None
    }

    /// Takes the verdict of the authentication service on the credentials
    /// that the last Enter handed out.
    pub fn verdict(&mut self, accepted: bool)
        requires
            old(self)@.submitting && !accepted ==> old(self)@.failed < u32::MAX,
        ensures
            final(self)@ == old(self)@.after_verdict(accepted),
    {
        if self.submitting {
            self.submitting = false;
            if accepted {
                self.logged_in = true;
            } else {
                self.failed += 1;
            }
        }
    }
}

} // verus!
