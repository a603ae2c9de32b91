//! The texts of the messages shown to the user.
use vstd::prelude::*;
use crate::text::{chars_of, push_all, string_of};

verus! {

/// The mark before a message of success.
pub open spec fn success_mark() -> Seq<char> {
    seq!['\u{2714}', ' ']
}

/// The mark before a message of failure.
pub open spec fn failure_mark() -> Seq<char> {
    seq!['\u{2718}', ' ']
}

/// The text of a message: a check mark before a message of success, a cross before one of
/// failure.
pub open spec fn spec_message_text(message: Result<Seq<char>, Seq<char>>) -> Seq<char> {
    match message {
        Ok(m) => success_mark() + m,
        Err(m) => failure_mark() + m,
    }
}

/// The text shown for `message`.
pub fn message_text(message: &Result<String, String>) -> (out: String)
    ensures
        out@ == spec_message_text(
            match message {
                Ok(m) => Ok(m@),
                Err(m) => Err(m@),
            },
        ),
{
    let mut out: Vec<char> = Vec::new();
    match message {
        Ok(m) => {
            out.push('\u{2714}');
            out.push(' ');
            push_all(&mut out, &chars_of(m.as_str()));
        },
        Err(m) => {
            out.push('\u{2718}');
            out.push(' ');
            push_all(&mut out, &chars_of(m.as_str()));
        },
    }
    assert(out@ =~= spec_message_text(
        match message {
            Ok(m) => Ok(m@),
            Err(m) => Err(m@),
        },
    ));
    string_of(&out)
}

} // verus!
