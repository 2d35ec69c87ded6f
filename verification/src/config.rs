//! Typed configuration parameters of effect scripts and the lookup of a
//! parameter by name in a script's parameter list.

use vstd::prelude::*;
use crate::text::{int_text, bool_text, color_text, int_to_text, bool_to_text, color_to_text};

verus! {

/// One named, typed configuration value of an effect script.
///
/// A `Float` parameter carries its IEEE-754 double as its 64-bit pattern
/// (`f64::to_bits`): the rules here only store, compare by name and hand
/// back floating-point values, and never compute with them.
#[derive(Debug, PartialEq)]
pub enum ConfigParam {
    Int { name: String, value: i64 },
    Float { name: String, value: u64 },
    Bool { name: String, value: bool },
    String { name: String, value: String },
    Color { name: String, value: u32 },
}

impl Clone for ConfigParam {
    fn clone(&self) -> (r: Self)
        ensures
            r == *self,
    {
        match self {
            ConfigParam::Int { name, value } => ConfigParam::Int { name: name.clone(), value: *value },
            ConfigParam::Float { name, value } => ConfigParam::Float { name: name.clone(), value: *value },
            ConfigParam::Bool { name, value } => ConfigParam::Bool { name: name.clone(), value: *value },
            ConfigParam::String { name, value } => ConfigParam::String { name: name.clone(), value: value.clone() },
            ConfigParam::Color { name, value } => ConfigParam::Color { name: name.clone(), value: *value },
        }
    }
}

/// The value of a parameter, as mathematics sees it.
pub enum ValueView {
    Int(i64),
    Float(u64),
    Bool(bool),
    Text(Seq<char>),
    Color(u32),
}

/// A parameter as mathematics sees it: its name and its value.
pub type ParamView = (Seq<char>, ValueView);

impl View for ConfigParam {
    type V = ParamView;

    open spec fn view(&self) -> ParamView {
        match self {
            ConfigParam::Int { name, value } => (name@, ValueView::Int(*value)),
            ConfigParam::Float { name, value } => (name@, ValueView::Float(*value)),
            ConfigParam::Bool { name, value } => (name@, ValueView::Bool(*value)),
            ConfigParam::String { name, value } => (name@, ValueView::Text(value@)),
            ConfigParam::Color { name, value } => (name@, ValueView::Color(*value)),
        }
    }
}

/// The views of a list of parameters.
pub open spec fn params_view(ps: Seq<ConfigParam>) -> Seq<ParamView> {
    ps.map_values(|p: ConfigParam| p@)
}

/// Whether two values are of the same type.
pub open spec fn same_kind(a: ValueView, b: ValueView) -> bool {
    match (a, b) {
        (ValueView::Int(_), ValueView::Int(_)) => true,
        (ValueView::Float(_), ValueView::Float(_)) => true,
        (ValueView::Bool(_), ValueView::Bool(_)) => true,
        (ValueView::Text(_), ValueView::Text(_)) => true,
        (ValueView::Color(_), ValueView::Color(_)) => true,
        _ => false,
    }
}

/// `i` is the position of the first parameter of `ps` named `name`.
pub open spec fn is_first_named(ps: Seq<ParamView>, name: Seq<char>, i: int) -> bool {
    &&& 0 <= i < ps.len()
    &&& ps[i].0 == name
    &&& forall|j: int| 0 <= j < i ==> ps[j].0 != name
}

/// No parameter of `ps` is named `name`.
pub open spec fn none_named(ps: Seq<ParamView>, name: Seq<char>) -> bool {
    forall|j: int| 0 <= j < ps.len() ==> ps[j].0 != name
}

/// The position of the first parameter of `ps` named `name`, if there is one.
pub open spec fn first_named(ps: Seq<ParamView>, name: Seq<char>) -> Option<int> {
    if exists|i: int| is_first_named(ps, name, i) {
        Some(choose|i: int| is_first_named(ps, name, i))
    } else {
        None
    }
}

/// The first parameter of a list that has a given name is unique, and it
/// exists exactly when some parameter has that name.
pub proof fn lemma_first_named(ps: Seq<ParamView>, name: Seq<char>)
    ensures
        first_named(ps, name) is None <==> none_named(ps, name),
        first_named(ps, name) matches Some(i) ==> is_first_named(ps, name, i),
        forall|i: int| is_first_named(ps, name, i) ==> first_named(ps, name) == Some(i),
{
    if !none_named(ps, name) {
        let k: int = choose|k: int| 0 <= k < ps.len() && ps[k].0 == name;
        lemma_least_named(ps, name, k);
    }
    assert forall|i: int| is_first_named(ps, name, i) implies first_named(ps, name) == Some(i) by {
        let c: int = choose|i: int| is_first_named(ps, name, i);
        assert(is_first_named(ps, name, c));
        if c < i {
            assert(ps[c].0 != name);
        } else if i < c {
            assert(ps[i].0 != name);
        }
    }
}

proof fn lemma_least_named(ps: Seq<ParamView>, name: Seq<char>, k: int)
    requires
        0 <= k < ps.len(),
        ps[k].0 == name,
    ensures
        exists|i: int| is_first_named(ps, name, i),
    decreases k,
{
    if forall|j: int| 0 <= j < k ==> ps[j].0 != name {
        assert(is_first_named(ps, name, k));
    } else {
        let j: int = choose|j: int| 0 <= j < k && ps[j].0 == name;
        lemma_least_named(ps, name, j);
    }
}

/// The text of a value; a floating-point value has none here, since its
/// decimal rendering is left to the caller.
pub open spec fn value_text(v: ValueView) -> Option<Seq<char>> {
    match v {
        ValueView::Int(i) => Some(int_text(i as int)),
        ValueView::Float(_) => None,
        ValueView::Bool(b) => Some(bool_text(b)),
        ValueView::Text(s) => Some(s),
        ValueView::Color(c) => Some(color_text(c)),
    }
}

/// Access to the name and the textual value of a parameter.
pub trait GetAttr {
    fn get_name(&self) -> &String;

    fn get_value(&self) -> Option<String>;
}

impl GetAttr for ConfigParam {
    /// The parameter's name.
    fn get_name(&self) -> (r: &String)
        ensures
            r@ == self@.0,
    {
        match self {
            ConfigParam::Int { name, .. } => name,
            ConfigParam::Float { name, .. } => name,
            ConfigParam::Bool { name, .. } => name,
            ConfigParam::String { name, .. } => name,
            ConfigParam::Color { name, .. } => name,
        }
    }

    /// The parameter's value as text: decimal for integers, `true` or
    /// `false`, the string itself, `#rrggbb` for colours; `None` for a
    /// floating-point value.
    fn get_value(&self) -> (r: Option<String>)
        ensures
            r matches Some(s) ==> value_text(self@.1) == Some(s@),
            r is None <==> value_text(self@.1) is None,
    {
        match self {
            ConfigParam::Int { value, .. } => Some(int_to_text(*value)),
            ConfigParam::Float { .. } => None,
            ConfigParam::Bool { value, .. } => Some(bool_to_text(*value)),
            ConfigParam::String { value, .. } => Some(value.clone()),
            ConfigParam::Color { value, .. } => Some(color_to_text(*value)),
        }
    }
}

/// Compares a parameter's name with a wanted name.
fn name_is(p: &ConfigParam, wanted: &String) -> (r: bool)
    ensures
        r == (p@.0 == wanted@),
{
    let n = p.get_name();
    *n == *wanted
}

/// Lookup of a parameter by name in a script's parameter list.
pub trait FindConfig {
    fn find_config_param(&self, param: &str) -> Option<&ConfigParam>;

    fn find_config_param_mut(&mut self, param: &str) -> Option<&mut ConfigParam>;
}

impl FindConfig for Vec<ConfigParam> {
    /// The first parameter named `param`, if any.
    fn find_config_param(&self, param: &str) -> (r: Option<&ConfigParam>)
        ensures
            r is None <==> none_named(params_view(self@), param@),
            r matches Some(p) ==> exists|i: int|
                is_first_named(params_view(self@), param@, i) && *p == self@[i],
    {
        let wanted = param.to_owned();
        let mut i: usize = 0;
        while i < self.len()
            invariant
                i <= self.len(),
                wanted@ == param@,
                forall|j: int| 0 <= j < i ==> params_view(self@)[j].0 != param@,
            decreases self.len() - i,
        {
            if name_is(&self[i], &wanted) {
                assert(is_first_named(params_view(self@), param@, i as int));
                return Some(&self[i]);
            }
            i = i + 1;
        }
        None
    }

    /// The first parameter named `param`, if any, for changing in place.
    fn find_config_param_mut(&mut self, param: &str) -> (r: Option<&mut ConfigParam>)
        ensures
            r is None <==> none_named(params_view(old(self)@), param@),
            r is None ==> final(self)@ == old(self)@,
            r matches Some(p) ==> exists|i: int|
                is_first_named(params_view(old(self)@), param@, i) && *p == old(self)@[i]
                    && final(self)@ == old(self)@.update(i, *final(p)),
    {
        let wanted = param.to_owned();
        let mut i: usize = 0;
        while i < self.len()
            invariant
                i <= self.len(),
                wanted@ == param@,
                self@ == old(self)@,
                forall|j: int| 0 <= j < i ==> params_view(self@)[j].0 != param@,
            decreases self.len() - i,
        {
            if name_is(&self[i], &wanted) {
                assert(is_first_named(params_view(self@), param@, i as int));
                return Some(&mut self[i]);
            }
            i = i + 1;
        }
        None
    }
}

} // verus!
