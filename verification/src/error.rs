//! What can go wrong: the bus fails, or a window does not fit the screen.

use vstd::prelude::*;
use vstd::std_specs::convert::FromSpecImpl;
use vstd::string::StringExecFns;
use crate::text::{append_decimal, decimal};

verus! {

/// Why an operation of the driver failed.
#[derive(Debug)]
pub enum TftError {
    /// An SPI write failed; the bus's own error is inside, unchanged.
    Spi(rppal::spi::Error),
    /// An end of an address window lies outside the screen: `given` is the
    /// coordinate, `max` the width or height that it had to stay below.
    Size { given: u16, max: u16 },
}

impl From<rppal::spi::Error> for TftError {
    fn from(err: rppal::spi::Error) -> (e: TftError) {
        TftError::Spi(err)
    }
}

impl FromSpecImpl<rppal::spi::Error> for TftError {
    open spec fn obeys_from_spec() -> bool {
        true
    }

    open spec fn from_spec(err: rppal::spi::Error) -> TftError {
        TftError::Spi(err)
    }
}

/// The text of a window end that lies outside the screen.
pub open spec fn size_text(given: u16, max: u16) -> Seq<char> {
    "Given size: "@ + decimal(given as nat) + ", Max size: "@ + decimal(max as nat)
}

/// How the text of a bus failure begins; the bus's own words follow.
pub open spec fn spi_text_prefix() -> Seq<char> {
    "SPI Error: "@
}

/// The text that `rppal` gives for an SPI error: `to_string` on
/// `rppal::spi::Error`, which goes through the crate's `Display` impl for
/// it. Nothing is claimed of the text.
#[verifier::external_body]
fn spi_error_text(err: &rppal::spi::Error) -> (text: String) {
    err.to_string()
}

impl TftError {
    /// The error in words. A window end outside the screen reads
    /// `"Given size: G, Max size: M"`; a bus failure reads `"SPI Error: "`
    /// and then what the bus says of it.
    pub fn to_string(&self) -> (text: String)
        ensures
            match *self {
                TftError::Size { given, max } => text@ == size_text(given, max),
                TftError::Spi(_) => text@.len() >= spi_text_prefix().len() && text@.take(
                    spi_text_prefix().len() as int,
                ) == spi_text_prefix(),
            },
    {
        match self {
            TftError::Size { given, max } => {
                let mut text = String::from_str("Given size: ");
                append_decimal(&mut text, *given);
                text.append(", Max size: ");
                append_decimal(&mut text, *max);
                assert(text@ =~= size_text(*given, *max));
                text
            },
            TftError::Spi(err) => {
                let mut text = String::from_str("SPI Error: ");
                let said = spi_error_text(err);
                text.append(said.as_str());
                assert(text@.take(spi_text_prefix().len() as int) =~= spi_text_prefix());
                text
            },
        }
    }
}

} // verus!
