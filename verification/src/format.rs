//! The output format selector.

use vstd::prelude::*;

verus! {

/// The two output formats a report can be rendered in.
#[allow(non_camel_case_types)]
#[derive(Clone, Copy, Debug, PartialEq, Eq, Structural)]
pub enum Format {
    text,
    json,
}

/// The token that selects the terminal report.
pub open spec fn text_token() -> Seq<char> {
    seq!['t', 'e', 'x', 't']
}

/// The token that selects the JSON document.
pub open spec fn json_token() -> Seq<char> {
    seq!['j', 's', 'o', 'n']
}

/// The format a token selects, if it selects one. Tokens are case-sensitive.
pub open spec fn parse_format(token: Seq<char>) -> Option<Format> {
    if token == text_token() {
        Some(Format::text)
    } else if token == json_token() {
        Some(Format::json)
    } else {
        None
    }
}

impl Format {
    /// Parses a format token: `"text"` and `"json"` are accepted, anything
    /// else is a parse error.
    pub fn from_str(input: &str) -> (parsed: Result<Format, ()>)
        ensures
            parsed == match parse_format(input@) {
                Some(format) => Ok::<Format, ()>(format),
                None => Err::<Format, ()>(()),
            },
    {
        proof {
            reveal_strlit("text");
            reveal_strlit("json");
            assert("text"@ =~= text_token());
            assert("json"@ =~= json_token());
        }
        let token = input.to_owned();
        if token == "text".to_owned() {
            Ok(Format::text)
        } else if token == "json".to_owned() {
            Ok(Format::json)
        } else {
            Err(())
        }
    }
}

impl std::str::FromStr for Format {
    type Err = ();

    /// Parses a format token as `Format::from_str` does.
    fn from_str(input: &str) -> (parsed: Result<Format, ()>)
        ensures
            parsed == match parse_format(input@) {
                Some(format) => Ok::<Format, ()>(format),
                None => Err::<Format, ()>(()),
            },
    {
        Format::from_str(input)
    }
}

} // verus!
