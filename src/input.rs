use vstd::prelude::*;

use crate::escape::{decimal, unsigned_text};

verus! {

/// Whether `token` is a Rust literal, as `litrs` reads it.
pub uninterp spec fn is_rust_literal(token: Seq<char>) -> bool;

/// The value of `token` where it is a string literal, as `litrs` reads it.
pub uninterp spec fn string_literal_value(token: Seq<char>) -> Option<Seq<char>>;

/// Relies on `litrs::Literal::parse`: an error where the text is no Rust
/// literal; else the value of a string literal, or `None` for a literal of
/// another kind.
#[verifier::external_body]
fn parse_literal(token: &str) -> (r: Result<Option<String>, String>)
    ensures
        match r {
            Ok(Some(value)) => is_rust_literal(token@) && string_literal_value(token@) == Some(
                value@,
            ),
            Ok(None) => is_rust_literal(token@) && string_literal_value(token@) is None,
            Err(_) => !is_rust_literal(token@) && string_literal_value(token@) is None,
        },
{
    match litrs::Literal::parse(token) {
        Ok(litrs::Literal::String(lit)) => Ok(Some(lit.value().to_owned())),
        Ok(_) => Ok(None),
        Err(e) => Err(e.to_string()),
    }
}

/// The diagnostic for an input of more than one token.
pub open spec fn count_message(n: nat) -> Seq<char> {
    "expected a single input, but found "@ + decimal(n)
}

/// The diagnostic for a literal that is not a string.
pub open spec fn kind_message(token: Seq<char>) -> Seq<char> {
    "expected string literal, but found literal '"@ + token + "'"@
}

/// Reads the template source from the tokens given to the template macro:
/// none stands for the empty template; otherwise there must be exactly one,
/// a string literal, whose value is the source.
pub fn validate_input(tokens: &Vec<String>) -> (r: Result<String, String>)
    ensures
        tokens@.len() == 0 ==> (r matches Ok(s) && s@.len() == 0),
        tokens@.len() > 1 ==> (r matches Err(m) && m@ == count_message(tokens@.len())),
        tokens@.len() == 1 ==> match r {
            Ok(s) => string_literal_value(tokens@[0]@) == Some(s@),
            Err(m) => string_literal_value(tokens@[0]@) is None && (is_rust_literal(tokens@[0]@)
                ==> m@ == kind_message(tokens@[0]@)),
        },
{
    if tokens.len() == 0 {
        return Ok(String::new());
    }
    if tokens.len() > 1 {
        let mut m = String::new();
        m.append("expected a single input, but found ");
        m.append(unsigned_text(tokens.len() as u64).as_str());
        return Err(m);
    }
    let token = tokens[0].as_str();
    match parse_literal(token) {
        Ok(Some(value)) => Ok(value),
        Ok(None) => {
            let mut m = String::new();
            m.append("expected string literal, but found literal '");
            m.append(token);
            m.append("'");
            Err(m)
        },
        Err(e) => Err(e),
    }
}

} // verus!
