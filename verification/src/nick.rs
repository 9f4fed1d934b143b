//! Optional display nicknames and their validation.

use vstd::prelude::*;

verus! {

/// A nickname must be shorter than this many characters.
pub const NICK_MAX_LEN: usize = 32;

/// A nickname must be longer than this many characters.
pub const NICK_MIN_LEN: usize = 0;

/// A participant's optional display nickname.
#[derive(Debug)]
pub enum Nick {
    Named(String),
    Anon,
}

/// The nickname as an optional character sequence.
pub open spec fn nick_chars(n: Nick) -> Option<Seq<char>> {
    match n {
        Nick::Named(s) => Some(s@),
        Nick::Anon => None,
    }
}

/// Rejected nickname: empty, or not shorter than [`NICK_MAX_LEN`] characters.
#[derive(Clone, Copy, PartialEq, Eq, Structural, Debug)]
pub struct NickError;

impl Nick {
    /// Validates a display name: accepted exactly when it holds between
    /// 1 and `NICK_MAX_LEN - 1` characters, and then carried unchanged.
    pub fn new(name: String) -> (r: Result<Nick, NickError>)
        ensures
            r is Ok <==> NICK_MIN_LEN < name@.len() < NICK_MAX_LEN,
            r matches Ok(n) ==> nick_chars(n) == Some(name@),
    {
        let chars = name.as_str().unicode_len();
        if chars > NICK_MIN_LEN && chars < NICK_MAX_LEN {
            Ok(Nick::Named(name))
        } else {
            Err(NickError)
        }
    }

    /// The nickname's text, if any.
    pub fn text(&self) -> (r: Option<&String>)
        ensures
            match r {
                Some(s) => nick_chars(*self) == Some(s@),
                None => nick_chars(*self) is None,
            },
    {
        match self {
            Nick::Named(s) => Some(s),
            Nick::Anon => None,
        }
    }
}

} // verus!
