use vstd::prelude::*;

use crate::address::{address_check, count_bytes};
use crate::text::{trimmed, trimnw};

verus! {

/// The uppercase form of `s` that `str::to_uppercase` gives.
pub uninterp spec fn uppercase_of(s: Seq<char>) -> Seq<char>;

/// Whether every character of `s` is ASCII.
pub open spec fn is_ascii_text(s: Seq<char>) -> bool {
    forall|i: int| 0 <= i < s.len() ==> (#[trigger] s[i] as u32) < 0x80
}

/// The ASCII uppercase form of `c`: `a`-`z` become `A`-`Z`, other characters
/// stay.
pub open spec fn ascii_upper_char(c: char) -> char {
    if 'a' <= c <= 'z' {
        ((c as u32) - 32) as char
    } else {
        c
    }
}

/// `s` with each ASCII lowercase letter made uppercase.
pub open spec fn ascii_uppercase(s: Seq<char>) -> Seq<char> {
    Seq::new(s.len(), |i: int| ascii_upper_char(s[i]))
}

/// `str::to_uppercase`: the text with each character replaced by its Unicode
/// uppercase mapping. Claimed of it: its result is a function of the text
/// alone, named `uppercase_of`; for ASCII text, where the Unicode mapping is
/// the ASCII one, it is each letter `a`-`z` made `A`-`Z` and every other
/// character kept. Beyond ASCII the mapping is not written out.
#[verifier::external_body]
fn uppercase(s: &str) -> (r: String)
    ensures
        r@ == uppercase_of(s@),
        is_ascii_text(s@) ==> r@ == ascii_uppercase(s@),
{
    s.to_uppercase()
}

/// The question asked when no token list file is given.
pub fn opening_question() -> (r: String)
    ensures
        r@ == opening_question_text(),
{
    String::from_str(
        "I see that you haven't attached a .lst file. Would you like to trade a single address? Type 'Y' for Yes and 'N' for No.",
    )
}

/// The text of the opening question.
pub open spec fn opening_question_text() -> Seq<char> {
    "I see that you haven't attached a .lst file. Would you like to trade a single address? Type 'Y' for Yes and 'N' for No."@
}

/// The reply that a line read from the terminal stands for: `N` when nothing
/// could be read (there is no terminal), otherwise the line trimmed of white
/// space and NUL characters.
pub fn reply_from_line(bytes_read: usize, line: &str) -> (r: String)
    ensures
        r@ == (if bytes_read == 0 {
            "N"@
        } else {
            trimmed(line@)
        }),
{
    if bytes_read == 0 {
        String::from_str("N")
    } else {
        String::from_str(trimnw(line))
    }
}

/// Where the prompt for a single address stands.
#[derive(PartialEq, Eq, Structural, Clone, Copy, Debug)]
pub enum PromptState {
    /// Waiting for `Y` (trade one address) or `N` (trade none).
    Choosing,
    /// Waiting for the address to trade.
    AwaitingAddress,
}

/// What the prompt does with a reply.
#[derive(Debug)]
pub enum PromptStep {
    /// Show `message` and read another reply in state `next`.
    Ask { next: PromptState, message: String },
    /// Stop asking: these are the addresses to trade.
    Done { addresses: Vec<String> },
}

/// The message that asks for the address.
pub open spec fn address_request_text() -> Seq<char> {
    "Please enter the token address."@
}

/// The message for a reply that is neither yes nor no.
pub open spec fn not_understood_text() -> Seq<char> {
    "I can't understand your input. Please try again."@
}

/// What follows the message of a rejected address.
pub open spec fn address_hint_text() -> Seq<char> {
    " Solana addresses are fixed to be 32 bytes long. /\n                                         Please try again."@
}

/// Whether `r` is what the prompt does with a yes-or-no reply whose uppercase
/// form is `upper`.
pub open spec fn is_choice_step(r: PromptStep, upper: Seq<char>) -> bool {
    if upper == "Y"@ {
        r matches PromptStep::Ask { next, message } && next == PromptState::AwaitingAddress
            && message@ == address_request_text()
    } else if upper == "N"@ {
        r matches PromptStep::Done { addresses } && addresses@.len() == 0
    } else {
        r matches PromptStep::Ask { next, message } && next == PromptState::Choosing && message@
            == not_understood_text()
    }
}

/// Whether `r` is what the prompt does with the address reply `reply`.
pub open spec fn is_address_step(r: PromptStep, reply: Seq<char>) -> bool {
    match address_check(reply) {
        Ok(a) => r matches PromptStep::Done { addresses } && addresses@.len() == 1
            && addresses@[0]@ == a,
        Err(m) => r matches PromptStep::Ask { next, message } && next
            == PromptState::AwaitingAddress && message@ == m + address_hint_text(),
    }
}

/// Decides on a yes-or-no reply, given its uppercase form.
pub fn choice_step(upper: &str) -> (r: PromptStep)
    ensures
        is_choice_step(r, upper@),
{
    let upper = String::from_str(upper);
    if upper == String::from_str("Y") {
        PromptStep::Ask {
            next: PromptState::AwaitingAddress,
            message: String::from_str("Please enter the token address."),
        }
    } else if upper == String::from_str("N") {
        PromptStep::Done { addresses: Vec::new() }
    } else {
        PromptStep::Ask {
            next: PromptState::Choosing,
            message: String::from_str("I can't understand your input. Please try again."),
        }
    }
}

/// Decides on a reply that should be an address.
pub fn address_step(reply: String) -> (r: PromptStep)
    ensures
        is_address_step(r, reply@),
{
    match count_bytes(reply) {
        Ok(a) => {
            let mut addresses = Vec::new();
            addresses.push(a);
            PromptStep::Done { addresses }
        },
        Err(m) => {
            let mut message = m;
            message.append(" Solana addresses are fixed to be 32 bytes long. /\n                                         Please try again.");
            PromptStep::Ask { next: PromptState::AwaitingAddress, message }
        },
    }
}

/// What the prompt does with `reply` in state `state`: a yes-or-no reply is
/// compared in uppercase, an address reply is checked by `count_bytes`.
pub fn prompt_step(state: PromptState, reply: String) -> (r: PromptStep)
    ensures
        state == PromptState::Choosing ==> is_choice_step(r, uppercase_of(reply@)),
        state == PromptState::Choosing && is_ascii_text(reply@) ==> is_choice_step(
            r,
            ascii_uppercase(reply@),
        ),
        state == PromptState::AwaitingAddress ==> is_address_step(r, reply@),
{
    match state {
        PromptState::Choosing => {
            let upper = uppercase(reply.as_str());
            choice_step(upper.as_str())
        },
        PromptState::AwaitingAddress => address_step(reply),
    }
}


/// A one-letter answer of either case counts: `y` or `Y` reads as yes and
/// `n` or `N` as no, when the prompt compares replies in uppercase.
pub proof fn answers_of_either_case(reply: Seq<char>)
    ensures
        (reply == seq!['y'] || reply == seq!['Y']) ==> is_ascii_text(reply) && ascii_uppercase(reply)
            == "Y"@,
        (reply == seq!['n'] || reply == seq!['N']) ==> is_ascii_text(reply) && ascii_uppercase(reply)
            == "N"@,
{
    reveal_strlit("Y");
    reveal_strlit("N");
    assert(ascii_uppercase(reply).len() == reply.len());
    if reply == seq!['y'] || reply == seq!['Y'] {
        assert(ascii_uppercase(reply) =~= seq!['Y']);
    }
    if reply == seq!['n'] || reply == seq!['N'] {
        assert(ascii_uppercase(reply) =~= seq!['N']);
    }
}

} // verus!
