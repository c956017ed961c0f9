//! What the pages share: how a server's answer reads, the notices and error
//! texts shown after a request, the password length rule, and the starfield
//! that the sign-in pages draw behind their forms.

use vstd::prelude::*;
use crate::text::{owned, concat, chars_of};

verus! {

/// The answer to a request whose reply reports `success` and, where it did
/// not succeed, may give a `message`.
#[derive(Debug, Clone)]
pub enum Outcome {
    /// The server answered: its `success` flag (false where absent or not a
    /// boolean) and its `message` where it is text.
    Answered { success: bool, message: Option<String> },
    /// The request failed, with the error's text.
    Failed(String),
}

/// The answer's message, or `default` where it has none.
pub open spec fn message_or(message: Option<String>, default: Seq<char>) -> Seq<char> {
    match message {
        Some(m) => m@,
        None => default,
    }
}

pub fn message_or_default(message: Option<String>, default: &str) -> (r: String)
    ensures
        r@ == message_or(message, default@),
{
    match message {
        Some(m) => m,
        None => owned(default),
    }
}

/// The text shown when a request failed: `Грешка: {error}`.
pub open spec fn failure_text(error: Seq<char>) -> Seq<char> {
    "Грешка: "@ + error
}

pub fn failure_message(error: &str) -> (r: String)
    ensures
        r@ == failure_text(error@),
{
    concat("Грешка: ", error)
}

/// A password is too short when it has fewer than 8 characters, as the
/// pages tell the user ("at least 8 characters").
pub open spec fn too_short(password: Seq<char>) -> bool {
    password.len() < 8
}

/// Whether a password is too short.
pub fn is_too_short(password: &str) -> (r: bool)
    ensures
        r == too_short(password@),
{
    let cs = chars_of(password);
    cs.len() < 8
}

/// A message for the page: good news or an error.
#[derive(Debug, Clone)]
pub enum Notice {
    Success(String),
    Error(String),
}

/// The messages of a refused save, joined with `, `.
pub open spec fn joined(messages: Seq<String>) -> Seq<char>
    decreases messages.len(),
{
    if messages.len() == 0 {
        Seq::empty()
    } else if messages.len() == 1 {
        messages[0]@
    } else {
        joined(messages.drop_last()) + ", "@ + messages.last()@
    }
}

/// The error of a refused save: `Грешка: ` and the messages of its errors
/// joined with `, `, or `fallback` where the answer lists no errors.
pub fn save_refusal(messages: &Option<Vec<String>>, fallback: &str) -> (r: String)
    ensures
        r@ == "Грешка: "@ + (match messages {
            Some(ms) => joined(ms@),
            None => fallback@,
        }),
{
    match messages {
        Some(ms) => {
            let mut body = String::new();
            let mut i: usize = 0;
            while i < ms.len()
                invariant
                    i <= ms.len(),
                    body@ == joined(ms@.take(i as int)),
                decreases ms.len() - i,
            {
                assert(ms@.take(i + 1).drop_last() =~= ms@.take(i as int));
                if i > 0 {
                    body.append(", ");
                } else {
                    assert(ms@.take(0) =~= Seq::<String>::empty());
                }
                body.append(ms[i].as_str());
                assert(ms@.take(i + 1).last() == ms@[i as int]);
                i = i + 1;
            }
            assert(ms@.take(ms.len() as int) =~= ms@);
            concat("Грешка: ", body.as_str())
        },
        None => concat("Грешка: ", fallback),
    }
}

// ---------------------------------------------------------------------------
// The starfield
// ---------------------------------------------------------------------------

/// Star `i` of the starfield, in whole numbers: its size in pixels, its
/// colour, its place across and down in tenths of a percent, and the steps of
/// its twinkle's delay (0.35 s each) and length (2.5 s and 0.6 s a step).
#[derive(Debug, Clone, Copy)]
pub struct Star {
    pub size: u32,
    pub color: &'static str,
    pub left_permille: u32,
    pub top_permille: u32,
    pub delay_step: u32,
    pub duration_step: u32,
}

pub open spec fn star_size(i: u32) -> u32 {
    if i % 10 == 0 { 3 } else if i % 10 == 1 || i % 10 == 2 { 2 } else { 1 }
}

pub open spec fn star_color(i: u32) -> Seq<char> {
    if i % 20 == 0 { "#aaccff"@ } else if i % 20 == 7 { "#ffeedd"@ } else if i % 20 == 14 { "#ffddaa"@ } else { "#ffffff"@ }
}

pub fn star(i: u32) -> (s: Star)
    ensures
        s.size == star_size(i),
        s.color@ == star_color(i),
        s.left_permille == (i * 7919) % 0x1_0000_0000 % 1000,
        s.top_permille == (i * 6271) % 0x1_0000_0000 % 1000,
        s.delay_step == i % 8,
        s.duration_step == i % 5,
{
    let size: u32 = if i % 10 == 0 { 3 } else if i % 10 == 1 || i % 10 == 2 { 2 } else { 1 };
    let color = if i % 20 == 0 { "#aaccff" } else if i % 20 == 7 { "#ffeedd" } else if i % 20 == 14 { "#ffddaa" } else { "#ffffff" };
    let across = i.wrapping_mul(7919);
    let down = i.wrapping_mul(6271);
    Star {
        size,
        color,
        left_permille: across % 1000,
        top_permille: down % 1000,
        delay_step: i % 8,
        duration_step: i % 5,
    }
}

} // verus!
