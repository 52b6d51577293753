//! What can go wrong while a program is loaded or run.

use vstd::prelude::*;
use vstd::string::{to_string_from_display_ensures, StringExecFns};

verus! {

/// The error type of the standard library's input and output operations. The interpreter never
/// looks inside such a value; it only carries one from the caller's streams to the caller.
#[verifier::external_type_specification]
#[verifier::external_body]
pub struct ExIoError(std::io::Error);

/// The single error that ends a failing load or run.
#[derive(Debug)]
pub enum BrainfuckError {
    /// A byte that is not an instruction. Loading and running treat such bytes as comments,
    /// so neither reports this.
    InvalidCommand(char),
    /// A loop marker without a partner, with its position in the program.
    UnmatchedBracket(usize),
    /// The data pointer was asked to move left of the first cell.
    MemoryUnderflow,
    /// Reading the input stream or writing the output stream failed.
    IoError(std::io::Error),
}

/// The character that is written for the decimal digit `digit`.
pub open spec fn digit_char(digit: nat) -> char {
    (0x30 + digit) as char
}

/// The decimal numeral of `number`, without leading zeros.
pub open spec fn decimal(number: nat) -> Seq<char>
    decreases number,
{
    if number < 10 {
        seq![digit_char(number)]
    } else {
        decimal(number / 10).push(digit_char(number % 10))
    }
}

/// The string that holds the one character `character`.
///
/// Calls `String::from` of the standard library on a `char`, which allocates a string from a
/// single character. The contract claims just that: the result has that character and no
/// other.
#[verifier::external_body]
fn char_to_string(character: char) -> (text: String)
    ensures
        text@ == seq![character],
{
    String::from(character)
}

/// Appends the decimal numeral of `number` to `text`.
fn append_decimal(text: &mut String, number: usize)
    ensures
        final(text)@ == old(text)@ + decimal(number as nat),
    decreases number,
{
    if number >= 10 {
        append_decimal(text, number / 10);
    }
    let digit: u8 = (number % 10) as u8;
    let piece = char_to_string((0x30u8 + digit) as char);
    text.append(piece.as_str());
    proof {
        assert((0x30u8 + digit) as char == digit_char((number % 10) as nat));
        assert(text@ =~= old(text)@ + decimal(number as nat));
    }
}

impl BrainfuckError {
    /// Whether `text` describes this error:
    /// `Invalid command: ` and the character,
    /// `Unmatched bracket at position ` and the position in decimal,
    /// `Memory pointer underflow`, or
    /// `IO error: ` and the stream error as the standard library displays it.
    pub open spec fn described_by(&self, text: Seq<char>) -> bool {
        match self {
            BrainfuckError::InvalidCommand(character) => text == "Invalid command: "@
                + seq![*character],
            BrainfuckError::UnmatchedBracket(position) => text
                == "Unmatched bracket at position "@ + decimal(*position as nat),
            BrainfuckError::MemoryUnderflow => text == "Memory pointer underflow"@,
            BrainfuckError::IoError(error) => exists|detail: String|
                to_string_from_display_ensures(error, detail) && text == "IO error: "@
                    + detail@,
        }
    }

    /// The text that describes this error to a user.
    pub fn message(&self) -> (text: String)
        ensures
            self.described_by(text@),
    {
        match self {
            BrainfuckError::InvalidCommand(character) => {
                let mut text = String::from_str("Invalid command: ");
                let piece = char_to_string(*character);
                text.append(piece.as_str());
                text
            },
            BrainfuckError::UnmatchedBracket(position) => {
                let mut text = String::from_str("Unmatched bracket at position ");
                append_decimal(&mut text, *position);
                text
            },
            BrainfuckError::MemoryUnderflow => String::from_str("Memory pointer underflow"),
            BrainfuckError::IoError(error) => {
                let mut text = String::from_str("IO error: ");
                let detail = error.to_string();
                text.append(detail.as_str());
                text
            },
        }
    }
}

} // verus!
