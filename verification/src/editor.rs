//! The decision the profile editor makes for each parameter that a script's
//! manifest declares: show the value stored in the profile, or the default.

use vstd::prelude::*;
use crate::config::{ConfigParam, ValueView};

verus! {

/// Errors of the profile editor.
#[derive(Debug, Clone)]
pub enum ProfilesError {
    TypeMismatch {},
}

/// The type a script's manifest declares for a parameter.
#[derive(Debug, Clone, Copy, PartialEq, Eq)]
pub enum ParamKind {
    Int,
    Float,
    Bool,
    String,
    Color,
}

/// Whether a stored value has the declared type.
pub open spec fn has_kind(v: ValueView, kind: ParamKind) -> bool {
    match (v, kind) {
        (ValueView::Int(_), ParamKind::Int) => true,
        (ValueView::Float(_), ParamKind::Float) => true,
        (ValueView::Bool(_), ParamKind::Bool) => true,
        (ValueView::Text(_), ParamKind::String) => true,
        (ValueView::Color(_), ParamKind::Color) => true,
        _ => false,
    }
}

/// The stored parameter the editor shows for a parameter declared of type
/// `kind`: the stored one when it has that type, `None` when nothing is
/// stored (the editor then shows the default), and `TypeMismatch` when the
/// stored value has another type.
pub fn editor_value<'a>(kind: ParamKind, stored: Option<&'a ConfigParam>) -> (r: Result<Option<&'a ConfigParam>, ProfilesError>)
    ensures
        stored is None ==> r matches Ok(None),
        stored matches Some(p) ==> (has_kind(p@.1, kind) ==> r == Ok::<Option<&ConfigParam>, ProfilesError>(Some(p))),
        stored matches Some(p) ==> (!has_kind(p@.1, kind) ==> r matches Err(ProfilesError::TypeMismatch {})),
        stored matches Some(p) ==> (
            (p@.1 is Int && kind is Int) || (p@.1 is Float && kind is Float)
                || (p@.1 is Bool && kind is Bool) || (p@.1 is Text && kind is String)
                || (p@.1 is Color && kind is Color)
            ==> r == Ok::<Option<&ConfigParam>, ProfilesError>(Some(p))),
{
    match stored {
        None => Ok(None),
        Some(p) => {
            let ok = match (p, kind) {
                (ConfigParam::Int { .. }, ParamKind::Int) => true,
                (ConfigParam::Float { .. }, ParamKind::Float) => true,
                (ConfigParam::Bool { .. }, ParamKind::Bool) => true,
                (ConfigParam::String { .. }, ParamKind::String) => true,
                (ConfigParam::Color { .. }, ParamKind::Color) => true,
                _ => false,
            };
            if ok {
                Ok(Some(p))
            } else {
                Err(ProfilesError::TypeMismatch {})
            }
        },
    }
}

/// The editor shows a stored value whenever its type is the declared one:
/// an integer for an integer, a floating-point value for a floating-point
/// one, a boolean for a boolean, a string for a string, a colour for a
/// colour.
pub proof fn law_matching_type_is_shown(kind: ParamKind, v: ValueView)
    requires
        (v is Int && kind is Int) || (v is Float && kind is Float) || (v is Bool && kind is Bool)
            || (v is Text && kind is String) || (v is Color && kind is Color),
    ensures
        has_kind(v, kind),
{
}

} // verus!
