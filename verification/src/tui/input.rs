//! Editing a line of text: the buffer of a popup field. The edits are those
//! of `tui_input`, applied with the cursor at the end of the line.

use tui_input::Input;
use tui_input::InputRequest;
use vstd::prelude::*;

verus! {

/// One edit of a line of text.
#[derive(Debug, Clone, Copy)]
pub enum Edit {
    /// Put a character at the end.
    Insert(char),
    /// Take away what stands last: one character as the user sees it, which
    /// may be made of several.
    DeletePrevious,
}

/// What `tui_input` leaves of a text when it deletes before a cursor that
/// stands at the end.
pub uninterp spec fn input_after_delete(text: Seq<char>) -> Seq<char>;

/// The text after an edit.
pub open spec fn edited(text: Seq<char>, edit: Edit) -> Seq<char> {
    match edit {
        Edit::Insert(c) => text.push(c),
        Edit::DeletePrevious => input_after_delete(text),
    }
}

/// `Input::handle` on an input that holds `value` with the cursor at its end:
/// inserting a character appends it; deleting leaves a beginning of the text,
/// shorter than the text unless that is empty. How much goes is the crate's to
/// say: this library names what is left and does not restate it.
#[verifier::external_body]
fn input_handle(value: &str, edit: Edit) -> (r: String)
    ensures
        match edit {
            Edit::Insert(c) => r@ == value@.push(c),
            Edit::DeletePrevious => {
                &&& r@ == input_after_delete(value@)
                &&& r@.is_prefix_of(value@)
                &&& value@.len() > 0 ==> r@.len() < value@.len()
            },
        },
{
    let mut input = Input::new(value.to_string());
    input.handle(
        match edit {
            Edit::Insert(c) => InputRequest::InsertChar(c),
            Edit::DeletePrevious => InputRequest::DeletePrevChar,
        },
    );
    input.value().to_string()
}

/// The text `value` after `edit`. Deleting takes from the end: the result is
/// a beginning of `value`, and shorter than it unless `value` is empty.
pub fn apply_edit(value: &str, edit: Edit) -> (r: String)
    ensures
        r@ == edited(value@, edit),
        edit is DeletePrevious ==> r@.is_prefix_of(value@),
        edit is DeletePrevious && value@.len() > 0 ==> r@.len() < value@.len(),
{
    input_handle(value, edit)
}

} // verus!
