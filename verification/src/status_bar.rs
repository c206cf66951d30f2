//! What the chat window's status bar shows of a session's statistics: which
//! counters appear, and at which scale a token count is written.

use vstd::prelude::*;
use crate::text::{decimal, push_decimal, push_str, string_of};

verus! {

/// Which token counters the status bar shows.
#[derive(Clone, Copy, PartialEq, Eq, Debug, Structural)]
pub struct StatusSections {
    /// `N tokens`, the session's total.
    pub tokens: bool,
    /// `I in / O out`.
    pub in_out: bool,
    /// `cache R r / W w`.
    pub cache: bool,
}

/// The counters shown for the given token counts: each appears only when
/// there is something to show.
pub fn status_sections(total: usize, input: usize, output: usize, cache_read: usize, cache_write: usize) -> (r: StatusSections)
    ensures
        r.tokens == (total > 0),
        r.in_out == (input > 0 || output > 0),
        r.cache == (cache_read > 0 || cache_write > 0),
{
    StatusSections { tokens: total > 0, in_out: input > 0 || output > 0, cache: cache_read > 0 || cache_write > 0 }
}

/// The scale a token count is written at.
#[derive(Clone, Copy, PartialEq, Eq, Debug, Structural)]
pub enum TokenScale {
    /// In millions with one decimal, `1.2M`.
    Millions,
    /// In thousands with one decimal, `3.4k`.
    Thousands,
    /// The plain number.
    Units,
}

/// The scale of a token count: millions from 1,000,000, thousands from
/// 1,000, the plain number below.
pub fn token_scale(n: usize) -> (r: TokenScale)
    ensures
        r == if n >= 1_000_000 {
            TokenScale::Millions
        } else if n >= 1_000 {
            TokenScale::Thousands
        } else {
            TokenScale::Units
        },
{
    if n >= 1_000_000 {
        TokenScale::Millions
    } else if n >= 1_000 {
        TokenScale::Thousands
    } else {
        TokenScale::Units
    }
}

/// The message counter: `N messages`.
pub fn messages_label(n: usize) -> (r: String)
    ensures
        r@ == decimal(n as nat) + " messages"@,
{
    let mut out: Vec<char> = Vec::new();
    push_decimal(&mut out, n as u128);
    push_str(&mut out, " messages");
    string_of(out.as_slice())
}

} // verus!
