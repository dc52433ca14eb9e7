use vstd::prelude::*;

verus! {

/// Error-correction strength of a symbol.
#[derive(Debug, Clone, Copy, PartialEq, Eq, Structural)]
pub enum ErrorLevel {
    /// approx. 7% of the codewords can be restored
    L,
    /// approx. 15% of the codewords can be restored
    M,
    /// approx. 25% of the codewords can be restored
    Q,
    /// approx. 30% of the codewords can be restored
    H,
}

/// What is to be encoded, and how.
#[derive(Debug, Clone)]
pub struct Settings {
    /// the text to be encoded into the symbol
    pub information: String,
    /// the error-correction level of the symbol
    pub error_level: ErrorLevel,
    /// whether the caller wants the intermediate states reported
    pub debugging: bool,
}

impl Settings {
    /// The bytes of the text.
    pub open spec fn text(&self) -> Seq<u8> {
        vstd::utf8::encode_utf8(self.information@)
    }
}

impl ErrorLevel {
    /// The letter of the level, in lower case.
    pub fn to_string(&self) -> (letter: String)
        ensures
            letter@ == (match self {
                ErrorLevel::L => "l"@,
                ErrorLevel::M => "m"@,
                ErrorLevel::Q => "q"@,
                ErrorLevel::H => "h"@,
            }),
    {
        match self {
            ErrorLevel::L => "l".to_owned(),
            ErrorLevel::M => "m".to_owned(),
            ErrorLevel::Q => "q".to_owned(),
            ErrorLevel::H => "h".to_owned(),
        }
    }

    /// The two format-information bits that stand for this level.
    pub open spec fn spec_format_bits(self) -> u8 {
        match self {
            ErrorLevel::L => 1u8,
            ErrorLevel::M => 0u8,
            ErrorLevel::Q => 3u8,
            ErrorLevel::H => 2u8,
        }
    }

    /// Returns the two format-information bits that stand for this level.
    pub fn format_bits(&self) -> (bits: u8)
        ensures
            bits == self.spec_format_bits(),
            bits < 4,
    {
        match self {
            ErrorLevel::L => 1u8,
            ErrorLevel::M => 0u8,
            ErrorLevel::Q => 3u8,
            ErrorLevel::H => 2u8,
        }
    }
}

} // verus!
