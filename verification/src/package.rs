//! The last stage: from what the generator wrote to the text of the expansion.
//!
//! The generator writes into a set of files, of which the first one is the
//! expansion. Behind its text goes one dependency marker for every file that
//! was read while the interfaces were resolved: a constant that nothing uses,
//! made of the file's contents, so that the build notices when the file
//! changes.

use vstd::prelude::*;
use vstd::string::*;
use vstd::utf8::{decode_utf8, valid_utf8};
use crate::error::{Error, ErrorView, GenerationError};

verus! {

/// What the resolved interfaces are to the generated code.
#[derive(Clone, Copy, Debug, PartialEq, Eq, Structural)]
pub enum Direction {
    /// Capabilities that the generated code uses.
    Import,
    /// Capabilities that the generated code provides.
    Export,
}

/// The generator's two slots, imports first: the interfaces go into the one
/// that the direction names, and the other stays empty.
pub open spec fn slotted<I>(direction: Direction, interfaces: Seq<I>) -> (Seq<I>, Seq<I>) {
    match direction {
        Direction::Import => (interfaces, Seq::empty()),
        Direction::Export => (Seq::empty(), interfaces),
    }
}

/// Puts the interfaces into the slot that the direction names.
pub fn slots<I>(direction: Direction, interfaces: Vec<I>) -> (r: (Vec<I>, Vec<I>))
    ensures
        (r.0@, r.1@) == slotted(direction, interfaces@),
{
    match direction {
        Direction::Import => (interfaces, Vec::new()),
        Direction::Export => (Vec::new(), interfaces),
    }
}

/// The dependency marker for the file at `path`.
pub open spec fn marker(path: Seq<char>) -> Seq<char> {
    "const _: &str = include_str!(r#\""@ + path + "\"#);\n"@
}

/// The markers for `files`, one behind the other in the order of the files. A
/// file that occurs twice gets two markers.
pub open spec fn markers(files: Seq<Seq<char>>) -> Seq<char>
    decreases files.len(),
{
    if files.len() == 0 {
        Seq::empty()
    } else {
        markers(files.drop_last()) + marker(files.last())
    }
}

/// The expansion for what the generator wrote and the files that were read:
/// the text of the first output file, then the markers.
pub open spec fn packaged(outputs: Seq<Seq<u8>>, files: Seq<Seq<char>>) -> Result<Seq<char>, ErrorView> {
    if outputs.len() == 0 {
        Err(ErrorView::NoOutput)
    } else if !valid_utf8(outputs[0]) {
        Err(ErrorView::NotText)
    } else {
        Ok(decode_utf8(outputs[0]) + markers(files))
    }
}

/// The mathematical value of what [`package`] returns.
pub open spec fn text_outcome(r: Result<String, Error>) -> Result<Seq<char>, ErrorView> {
    match r {
        Ok(text) => Ok(text@),
        Err(e) => Err(e@),
    }
}

/// `String::from_utf8`, with its error dropped: the bytes as a string where
/// they are well-formed UTF-8, the string then holding the characters that the
/// bytes encode, and `None` where they are not.
#[verifier::external_body]
fn text_from_utf8(bytes: Vec<u8>) -> (text: Option<String>)
    ensures
        text is Some <==> valid_utf8(bytes@),
        text matches Some(s) ==> s@ == decode_utf8(bytes@),
{
    match String::from_utf8(bytes) {
        Ok(text) => Some(text),
        Err(_) => None,
    }
}

/// Appends the dependency marker for the file at `path`.
pub fn push_marker(text: &mut String, path: &str)
    ensures
        final(text)@ == old(text)@ + marker(path@),
{
    let ghost before = text@;
    text.append("const _: &str = include_str!(r#\"");
    text.append(path);
    text.append("\"#);\n");
    assert(text@ =~= before + marker(path@));
}

/// Makes the expansion: decodes the first output file and appends one marker
/// for each of `files`.
pub fn package(outputs: Vec<Vec<u8>>, files: &Vec<String>) -> (r: Result<String, Error>)
    ensures
        text_outcome(r) == packaged(outputs.deep_view(), files.deep_view()),
{
    let mut outputs = outputs;
    if outputs.len() == 0 {
        return Err(Error::Generation(GenerationError::NoOutput));
    }
    let ghost first = outputs.deep_view()[0];
    let bytes = outputs.swap_remove(0);
    assert(bytes@ =~= first);
    let mut text = match text_from_utf8(bytes) {
        Some(text) => text,
        None => {
            return Err(Error::Generation(GenerationError::NotText));
        },
    };
    let ghost generated = text@;
    let mut i: usize = 0;
    assert(files.deep_view().take(0) =~= Seq::<Seq<char>>::empty());
    assert(text@ =~= generated + markers(files.deep_view().take(0)));
    while i < files.len()
        invariant
            i <= files.len(),
            text@ == generated + markers(files.deep_view().take(i as int)),
        decreases files.len() - i,
    {
        let ghost so_far = text@;
        push_marker(&mut text, files[i].as_str());
        proof {
            let all = files.deep_view();
            assert(all.take(i + 1).drop_last() =~= all.take(i as int));
            assert(all.take(i + 1).last() == files[i as int]@);
            assert(text@ =~= generated + markers(all.take(i + 1)));
        }
        i = i + 1;
    }
    assert(files.deep_view().take(i as int) =~= files.deep_view());
    Ok(text)
}

} // verus!
