//! The typed editors of leaf rows: which editor a leaf gets, what an edit
//! makes of the leaf, and how a row is labelled.

use vstd::prelude::*;
use vstd::string::*;
use crate::json_backend::{fixed_point, read_number};
use crate::value::{path_view, Json, Number, Path, Value};

verus! {

/// The upper end of the slider that edits a number; its lower end is 0.
pub const SLIDER_MAX: i64 = 200;

/// The editor that a leaf row shows.
#[derive(Debug, PartialEq)]
pub enum Editor {
    /// A line of text, holding the string.
    Text(String),
    /// A checkbox, holding the boolean.
    Checkbox(bool),
    /// A slider from 0 to [`SLIDER_MAX`], holding its position.
    Slider(i64),
    /// No editor: the leaf is null or an array.
    Unsupported,
}

/// What the user did to a row's editor.
#[derive(Debug, PartialEq)]
pub enum Edit {
    /// The line of text now reads this.
    Text(String),
    /// The checkbox now shows this.
    Toggle(bool),
    /// The slider now stands here.
    Slide(i64),
}

/// Why an edit was refused.
#[derive(Clone, Copy, Debug, PartialEq, Eq, Structural)]
pub enum EditError {
    /// The edit belongs to an editor of another variant than the leaf's.
    TypeMismatch,
}

/// The slider position for what the number reads as at zero decimal places:
/// the integer itself between the slider's ends, the nearer end beyond them,
/// 0 where there is no integer.
pub open spec fn slider_clamped(raw: Option<i64>) -> i64 {
    match raw {
        Some(x) => if x < 0 {
            0
        } else if x > SLIDER_MAX {
            SLIDER_MAX
        } else {
            x
        },
        None => 0,
    }
}

/// Whether the number can be read at zero decimal places: all numbers but
/// those with the smallest exponent and the negative one of magnitude `2^63`.
pub open spec fn readable(n: Number) -> bool {
    n.exponent > i16::MIN && (n.positive || n.mantissa != 0x8000_0000_0000_0000)
}

/// Where the slider stands for a number. A number that cannot be read is
/// smaller than one in magnitude or negative: its slider stands at 0.
pub open spec fn slider_position(n: Number) -> i64 {
    if readable(n) {
        slider_clamped(read_number(n))
    } else {
        0
    }
}

/// The number that stands for an integer: its sign and its magnitude, with
/// no exponent.
pub open spec fn integer_number(x: i64) -> Number {
    Number {
        positive: x >= 0,
        mantissa: (if x >= 0 {
            x as int
        } else {
            -(x as int)
        }) as u64,
        exponent: 0,
    }
}

/// The editor of a leaf, as a view: the text editor holds characters.
pub enum EditorView {
    Text(Seq<char>),
    Checkbox(bool),
    Slider(i64),
    Unsupported,
}

impl View for Editor {
    type V = EditorView;

    open spec fn view(&self) -> EditorView {
        match self {
            Editor::Text(s) => EditorView::Text(s@),
            Editor::Checkbox(b) => EditorView::Checkbox(*b),
            Editor::Slider(x) => EditorView::Slider(*x),
            Editor::Unsupported => EditorView::Unsupported,
        }
    }
}

/// The editor that a value gets: by its variant alone, showing what the
/// value holds.
pub open spec fn editor_of(value: Json) -> EditorView {
    match value {
        Json::String(s) => EditorView::Text(s),
        Json::Boolean(b) => EditorView::Checkbox(b),
        Json::Number(n) => EditorView::Slider(slider_position(n)),
        _ => EditorView::Unsupported,
    }
}

/// What an edit makes of a leaf: a new payload of the same variant, or the
/// reason why the edit is refused.
pub open spec fn edited(value: Json, edit: Edit) -> Result<Json, EditError> {
    match (value, edit) {
        (Json::String(_), Edit::Text(text)) => Ok(Json::String(text@)),
        (Json::Boolean(_), Edit::Toggle(on)) => Ok(Json::Boolean(on)),
        (Json::Number(_), Edit::Slide(position)) => Ok(Json::Number(integer_number(position))),
        _ => Err(EditError::TypeMismatch),
    }
}

/// The slider position for a reading of the number.
pub fn clamp_position(raw: Option<i64>) -> (position: i64)
    ensures
        position == slider_clamped(raw),
        0 <= position <= SLIDER_MAX,
{
    match raw {
        Some(x) => {
            if x < 0 {
                0
            } else if x > SLIDER_MAX {
                SLIDER_MAX
            } else {
                x
            }
        },
        None => 0,
    }
}

/// Where the slider stands for a number: the number read at zero decimal
/// places, kept between the slider's ends. The number itself stays as it
/// is until the slider is moved.
pub fn position_of(n: &Number) -> (position: i64)
    ensures
        position == slider_position(*n),
        0 <= position <= SLIDER_MAX,
{
    if n.exponent > i16::MIN && (n.positive || n.mantissa != 0x8000_0000_0000_0000) {
        clamp_position(fixed_point(n.positive, n.mantissa, n.exponent))
    } else {
        0
    }
}

/// The editor that a leaf row shows for a value.
pub fn editor_for(value: &Value) -> (editor: Editor)
    ensures
        editor@ == editor_of(value@),
{
    match value {
        Value::String(s) => Editor::Text(s.clone()),
        Value::Boolean(b) => Editor::Checkbox(*b),
        Value::Number(n) => Editor::Slider(position_of(n)),
        _ => Editor::Unsupported,
    }
}

/// The number that stands for an integer.
pub fn number_from(x: i64) -> (n: Number)
    ensures
        n == integer_number(x),
{
    let mantissa: u64 = if x >= 0 {
        x as u64
    } else if x == i64::MIN {
        0x8000_0000_0000_0000
    } else {
        (-x) as u64
    };
    Number { positive: x >= 0, mantissa, exponent: 0 }
}

/// Applies an edit to a leaf.
///
/// A text edit replaces a string, a toggle a boolean, and a slider position
/// a number, which becomes that integer. The number that was stored is
/// overwritten only here: until the slider is moved, a stored number outside
/// the slider's range, or with a fraction, stays as it is. The range is the
/// slider's own, so the position is stored as it is given. An edit of
/// another variant than the leaf's is refused, and so is every edit of null,
/// an array or an object. The leaf's variant never changes.
pub fn apply_edit(value: &Value, edit: Edit) -> (r: Result<Value, EditError>)
    ensures
        match r {
            Ok(new) => edited(value@, edit) == Ok::<Json, EditError>(new@),
            Err(e) => edited(value@, edit) == Err::<Json, EditError>(e),
        },
        r matches Ok(new) ==> new@.kind() == value@.kind(),
{
    match value {
        Value::String(_) => match edit {
            Edit::Text(text) => Ok(Value::String(text)),
            _ => Err(EditError::TypeMismatch),
        },
        Value::Boolean(_) => match edit {
            Edit::Toggle(on) => Ok(Value::Boolean(on)),
            _ => Err(EditError::TypeMismatch),
        },
        Value::Number(_) => match edit {
            Edit::Slide(position) => Ok(Value::Number(number_from(position))),
            _ => Err(EditError::TypeMismatch),
        },
        _ => Err(EditError::TypeMismatch),
    }
}

/// The keys of the first `n` parts, separated by a slash between blanks.
pub open spec fn joined(parts: Path, n: nat) -> Seq<char>
    decreases n,
{
    if n == 0 || n > parts.len() {
        Seq::empty()
    } else if n == 1 {
        parts[0]
    } else {
        joined(parts, (n - 1) as nat) + " / "@ + parts[n - 1]
    }
}

/// The label of a leaf row: the keys from the category down to the leaf.
pub open spec fn label(path: Path, key: Seq<char>) -> Seq<char> {
    joined(path.push(key), path.len() + 1)
}

/// The label of a leaf row, for display.
pub fn path_label(path_prefix: &Vec<String>, key: &str) -> (text: String)
    ensures
        text@ == label(path_view(path_prefix@), key@),
{
    let ghost parts = path_view(path_prefix@).push(key@);
    let mut text = String::new();
    let mut i: usize = 0;
    while i < path_prefix.len()
        invariant
            i <= path_prefix@.len(),
            parts == path_view(path_prefix@).push(key@),
            text@ == joined(parts, i as nat) + (if i > 0 {
                " / "@
            } else {
                Seq::empty()
            }),
        decreases path_prefix@.len() - i,
    {
        let ghost before = text@;
        text.append(path_prefix[i].as_str());
        text.append(" / ");
        proof {
            assert(parts[i as int] == path_prefix@[i as int]@);
            if i == 0 {
                assert(before =~= Seq::<char>::empty());
                assert(text@ =~= joined(parts, 1) + " / "@);
            } else {
                assert(text@ =~= joined(parts, (i + 1) as nat) + " / "@);
            }
        }
        i += 1;
    }
    text.append(key);
    proof {
        let n = path_prefix@.len();
        assert(parts[n as int] == key@);
        if n == 0 {
            assert(text@ =~= key@);
        } else {
            assert(text@ =~= joined(parts, n as nat) + " / "@ + key@);
        }
    }
    text
}

} // verus!
