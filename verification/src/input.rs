//! The editable text fields: a text and a cursor, kept by `tui_input`.

use vstd::prelude::*;
use tui_input::{Input, InputRequest};

verus! {

/// The text buffer of `tui_input`.
#[verifier::external_type_specification]
#[verifier::external_body]
pub struct ExInput(tui_input::Input);

/// The characters that a field holds.
pub uninterp spec fn input_text(input: Input) -> Seq<char>;

/// The number of characters that stand before the cursor of a field.
pub uninterp spec fn input_cursor(input: Input) -> nat;

/// The number of characters of the grapheme cluster next to the cursor:
/// the one that starts at the cursor where `forward` holds, else the one
/// that ends there; zero where the text ends on that side.
pub uninterp spec fn grapheme_size(text: Seq<char>, cursor: nat, forward: bool) -> nat;

/// A cursor-aware edit of a text field.
#[derive(Debug, Copy, Clone, PartialEq, Eq, Structural)]
pub enum EditOp {
    /// Insert a character at the cursor and step behind it.
    Insert(char),
    /// Delete the grapheme before the cursor.
    DeletePrev,
    /// Delete the grapheme at the cursor.
    DeleteNext,
    /// Step one grapheme to the left.
    Left,
    /// Step one grapheme to the right.
    Right,
    /// Go to the start of the text.
    Home,
    /// Go to the end of the text.
    End,
}

/// A field as the contracts see it.
pub struct Field {
    pub text: Seq<char>,
    pub cursor: nat,
}

/// The field that an input holds.
pub open spec fn field_of(input: Input) -> Field {
    Field { text: input_text(input), cursor: input_cursor(input) }
}

/// The field after an edit, given the sizes of the graphemes next to the
/// cursor. Deleting and stepping go by whole graphemes; at an end of the
/// text, where the size is zero, they change nothing.
pub open spec fn edited_by(f: Field, op: EditOp, before: nat, after: nat) -> Field {
    match op {
        EditOp::Insert(c) => Field { text: f.text.insert(f.cursor as int, c), cursor: f.cursor + 1 },
        EditOp::DeletePrev => Field {
            text: f.text.subrange(0, f.cursor - before) + f.text.subrange(
                f.cursor as int,
                f.text.len() as int,
            ),
            cursor: (f.cursor - before) as nat,
        },
        EditOp::DeleteNext => Field {
            text: f.text.subrange(0, f.cursor as int) + f.text.subrange(
                (f.cursor + after) as int,
                f.text.len() as int,
            ),
            cursor: f.cursor,
        },
        EditOp::Left => Field { text: f.text, cursor: (f.cursor - before) as nat },
        EditOp::Right => Field { text: f.text, cursor: f.cursor + after },
        EditOp::Home => Field { text: f.text, cursor: 0 },
        EditOp::End => Field { text: f.text, cursor: f.text.len() },
    }
}

/// The field after an edit.
pub open spec fn edited(f: Field, op: EditOp) -> Field {
    edited_by(
        f,
        op,
        grapheme_size(f.text, f.cursor, false),
        grapheme_size(f.text, f.cursor, true),
    )
}

/// Whether the cursor stands inside the text or at its end.
pub open spec fn field_ok(f: Field) -> bool {
    f.cursor <= f.text.len()
}

/// `Input::default`: an empty field.
#[verifier::external_body]
pub(crate) fn input_new() -> (input: Input)
    ensures
        input_text(input) == Seq::<char>::empty(),
        input_cursor(input) == 0,
{
    Input::default()
}

/// `Input::value`: the text of the field.
pub assume_specification<'a>[ Input::value ](input: &'a Input) -> (text: &'a str)
    ensures
        text@ == input_text(*input),
;

/// `Input::cursor`: the number of characters before the cursor, never more
/// than the text holds.
pub assume_specification[ Input::cursor ](input: &Input) -> (cursor: usize)
    ensures
        cursor == input_cursor(*input),
        cursor <= input_text(*input).len(),
;

/// `Input::handle` for the requests that edit at the cursor. Inserting puts
/// the character at the cursor and moves the cursor behind it; `Home` and
/// `End` move the cursor to an end of the text; the other requests delete or
/// step over the grapheme next to the cursor, which is never larger than the
/// text on that side of the cursor.
#[verifier::external_body]
pub(crate) fn input_handle(input: &mut Input, op: EditOp)
    ensures
        field_of(*final(input)) == edited_by(
            field_of(*old(input)),
            op,
            grapheme_size(input_text(*old(input)), input_cursor(*old(input)), false),
            grapheme_size(input_text(*old(input)), input_cursor(*old(input)), true),
        ),
        grapheme_size(input_text(*old(input)), input_cursor(*old(input)), false) <= input_cursor(
            *old(input),
        ),
        input_cursor(*old(input)) + grapheme_size(
            input_text(*old(input)),
            input_cursor(*old(input)),
            true,
        ) <= input_text(*old(input)).len(),
        input_cursor(*old(input)) <= input_text(*old(input)).len(),
{
    input.handle(
        match op {
            EditOp::Insert(c) => InputRequest::InsertChar(c),
            EditOp::DeletePrev => InputRequest::DeletePrevChar,
            EditOp::DeleteNext => InputRequest::DeleteNextChar,
            EditOp::Left => InputRequest::GoToPrevChar,
            EditOp::Right => InputRequest::GoToNextChar,
            EditOp::Home => InputRequest::GoToStart,
            EditOp::End => InputRequest::GoToEnd,
        },
    );
}

/// An edit keeps the cursor inside the text.
pub proof fn lemma_edited_ok(f: Field, op: EditOp, before: nat, after: nat)
    requires
        field_ok(f),
        before <= f.cursor,
        f.cursor + after <= f.text.len(),
    ensures
        field_ok(edited_by(f, op, before, after)),
{
}

/// Types the text into the field at the cursor, character by character.
pub fn input_type(input: &mut Input, text: &str)
    ensures
        input_text(*final(input)) == input_text(*old(input)).subrange(
            0,
            input_cursor(*old(input)) as int,
        ) + text@ + input_text(*old(input)).subrange(
            input_cursor(*old(input)) as int,
            input_text(*old(input)).len() as int,
        ),
        input_cursor(*final(input)) == input_cursor(*old(input)) + text@.len(),
{
    let ghost start = field_of(*input);
    let at = input.cursor();
    let chars = crate::text::chars_of(text);
    let mut i: usize = 0;
    assert(start.text.subrange(0, start.cursor as int) + chars@.take(0) + start.text.subrange(
        start.cursor as int,
        start.text.len() as int,
    ) =~= start.text);
    while i < chars.len()
        invariant
            i <= chars.len(),
            start.cursor <= start.text.len(),
            input_text(*input) == start.text.subrange(0, start.cursor as int) + chars@.take(
                i as int,
            ) + start.text.subrange(start.cursor as int, start.text.len() as int),
            input_cursor(*input) == start.cursor + i,
        decreases chars.len() - i,
    {
        let ghost before = input_text(*input);
        input_handle(input, EditOp::Insert(chars[i]));
        i += 1;
        assert(input_text(*input) =~= start.text.subrange(0, start.cursor as int) + chars@.take(
            i as int,
        ) + start.text.subrange(start.cursor as int, start.text.len() as int)) by {
            assert(input_text(*input) == before.insert(start.cursor + i - 1, chars@[i - 1]));
        }
    }
    assert(chars@.take(i as int) =~= chars@);
}

} // verus!
