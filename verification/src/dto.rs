//! Data transfer objects for input and output values, and their
//! mathematical view.

use crate::model::{
    components_view, optional_value_view, values_view, Component, InputNode, List, Simple, Value,
};
use crate::text::{join, joined, texts};
use vstd::prelude::*;

verus! {

/// The text of an optional string.
pub open spec fn optional_text(s: Option<String>) -> Option<Seq<char>> {
    match s {
        Some(t) => Some(t@),
        None => None,
    }
}

/// View of a simple value: type tag, lexical form and the null flag.
pub struct SimpleView {
    pub typ: Option<Seq<char>>,
    pub text: Option<Seq<char>>,
    pub nil: bool,
}

/// View of a named component.
pub struct ComponentView {
    pub name: Option<Seq<char>>,
    pub value: Option<ValueView>,
    pub nil: bool,
}

/// View of a list.
pub struct ListView {
    pub items: Seq<ValueView>,
    pub nil: bool,
}

/// View of a value in its transfer shape: a well-formed value has exactly
/// one of the three parts.
pub struct ValueView {
    pub simple: Option<SimpleView>,
    pub components: Option<Seq<ComponentView>>,
    pub list: Option<ListView>,
}

/// Data transfer object for a simple value.
#[derive(Debug, Clone)]
pub struct SimpleDto {
    pub typ: Option<String>,
    pub text: Option<String>,
    pub nil: bool,
}

/// Data transfer object for a named component.
#[derive(Debug)]
pub struct ComponentDto {
    pub name: Option<String>,
    pub value: Option<ValueDto>,
    pub nil: bool,
}

/// Data transfer object for a list.
#[derive(Debug)]
pub struct ListDto {
    pub items: Vec<ValueDto>,
    pub nil: bool,
}

/// Data transfer object for a value.
#[derive(Debug)]
pub struct ValueDto {
    pub simple: Option<SimpleDto>,
    pub components: Option<Vec<ComponentDto>>,
    pub list: Option<ListDto>,
}

impl View for SimpleDto {
    type V = SimpleView;

    open spec fn view(&self) -> SimpleView {
        SimpleView { typ: optional_text(self.typ), text: optional_text(self.text), nil: self.nil }
    }
}

/// The view of a value's transfer object.
pub open spec fn value_dto_view(v: ValueDto) -> ValueView
    decreases v,
{
    ValueView {
        simple: match v.simple {
            Some(s) => Some(s@),
            None => None,
        },
        components: match v.components {
            Some(c) => Some(components_dto_view(c@)),
            None => None,
        },
        list: match v.list {
            Some(l) => Some(list_dto_view(l)),
            None => None,
        },
    }
}

/// The views of a sequence of component transfer objects.
pub open spec fn components_dto_view(c: Seq<ComponentDto>) -> Seq<ComponentView>
    decreases c,
{
    Seq::new(c.len(), |i: int| if 0 <= i < c.len() { component_dto_view(c[i]) } else { arbitrary() })
}

/// The views of a sequence of value transfer objects.
pub open spec fn values_dto_view(c: Seq<ValueDto>) -> Seq<ValueView>
    decreases c,
{
    Seq::new(c.len(), |i: int| if 0 <= i < c.len() { value_dto_view(c[i]) } else { arbitrary() })
}

/// The view of a component's transfer object.
pub open spec fn component_dto_view(c: ComponentDto) -> ComponentView
    decreases c,
{
    ComponentView {
        name: optional_text(c.name),
        value: match c.value {
            Some(v) => Some(value_dto_view(v)),
            None => None,
        },
        nil: c.nil,
    }
}

/// The view of a list's transfer object.
pub open spec fn list_dto_view(l: ListDto) -> ListView
    decreases l,
{
    ListView { items: values_dto_view(l.items@), nil: l.nil }
}

impl View for ValueDto {
    type V = ValueView;

    open spec fn view(&self) -> ValueView {
        value_dto_view(*self)
    }
}

impl View for ComponentDto {
    type V = ComponentView;

    open spec fn view(&self) -> ComponentView {
        component_dto_view(*self)
    }
}

impl View for ListDto {
    type V = ListView;

    open spec fn view(&self) -> ListView {
        list_dto_view(*self)
    }
}

/// Data transfer object for an error.
#[derive(Debug, Clone)]
pub struct ErrorDto {
    pub detail: String,
}

/// Data transfer object for a result: data, or the errors that stood in
/// its way.
#[derive(Debug)]
pub struct ResultDto<T> {
    pub data: Option<T>,
    pub errors: Option<Vec<ErrorDto>>,
}

/// Data transfer object for an input of a test case.
#[derive(Debug)]
pub struct InputNodeDto {
    pub name: String,
    pub value: Option<ValueDto>,
}

/// Data transfer object for a value that may be absent.
#[derive(Debug)]
pub struct OptionalValueDto {
    pub value: Option<ValueDto>,
}

/// View of an input of a test case.
pub struct InputNodeView {
    pub name: Seq<char>,
    pub value: Option<ValueView>,
}

/// The view of an optional value transfer object.
pub open spec fn optional_dto_view(v: Option<ValueDto>) -> Option<ValueView> {
    match v {
        Some(x) => Some(x@),
        None => None,
    }
}

impl View for InputNodeDto {
    type V = InputNodeView;

    open spec fn view(&self) -> InputNodeView {
        InputNodeView { name: self.name@, value: optional_dto_view(self.value) }
    }
}

impl View for InputNode {
    type V = InputNodeView;

    open spec fn view(&self) -> InputNodeView {
        InputNodeView { name: self.name@, value: optional_value_view(self.value) }
    }
}

/// The details of a sequence of errors.
pub open spec fn details(errors: Seq<ErrorDto>) -> Seq<Seq<char>> {
    Seq::new(errors.len(), |i: int| errors[i].detail@)
}

/// The details of the errors, separated by a comma and a space; empty where
/// there are no errors.
pub open spec fn errors_text(errors: Option<Vec<ErrorDto>>) -> Seq<char> {
    match errors {
        Some(list) => joined(details(list@), ", "@),
        None => Seq::empty(),
    }
}

impl<T> ResultDto<T> {
    /// The details of the errors, separated by a comma and a space.
    pub fn to_string(&self) -> (r: String)
        ensures
            r@ == errors_text(self.errors),
    {
        match &self.errors {
            None => String::new(),
            Some(list) => {
                let mut parts: Vec<String> = Vec::new();
                let mut i: usize = 0;
                while i < list.len()
                    invariant
                        i <= list.len(),
                        parts@.len() == i,
                        forall|k: int| 0 <= k < i ==> parts@[k]@ == list@[k].detail@,
                    decreases list.len() - i,
                {
                    parts.push(list[i].detail.clone());
                    i = i + 1;
                }
                assert(texts(parts@) =~= details(list@));
                join(&parts, ", ")
            },
        }
    }
}

/// A copy of an optional string.
pub fn copy_optional_text(s: &Option<String>) -> (r: Option<String>)
    ensures
        optional_text(r) == optional_text(*s),
{
    match s {
        Some(t) => Some(t.clone()),
        None => None,
    }
}

impl Default for ValueDto {
    /// A value with no part.
    fn default() -> (r: ValueDto)
        ensures
            r.simple is None,
            r.components is None,
            r.list is None,
    {
        ValueDto { simple: None, components: None, list: None }
    }
}

impl SimpleDto {
    /// The transfer object of a simple value.
    pub fn from(simple: &Simple) -> (r: SimpleDto)
        ensures
            r@ == simple@,
    {
        SimpleDto {
            typ: copy_optional_text(&simple.typ),
            text: copy_optional_text(&simple.text),
            nil: simple.nil,
        }
    }
}

impl ValueDto {
    /// The transfer object of a value: the one part that the value's variant
    /// names, and no other.
    pub fn from(value: &Value) -> (r: ValueDto)
        ensures
            r@ == value@,
        decreases value,
    {
        match value {
            Value::Simple(simple) => ValueDto {
                simple: Some(SimpleDto::from(simple)),
                components: None,
                list: None,
            },
            Value::Components(components) => ValueDto {
                simple: None,
                components: Some(convert_components(components)),
                list: None,
            },
            Value::List(list) => ValueDto {
                simple: None,
                components: None,
                list: Some(ListDto::from(list)),
            },
        }
    }
}

/// The transfer objects of a vector of components, in order.
pub fn convert_components(components: &Vec<Component>) -> (r: Vec<ComponentDto>)
    ensures
        components_dto_view(r@) == components_view(components@),
    decreases components,
{
    let mut out: Vec<ComponentDto> = Vec::new();
    let mut i: usize = 0;
    while i < components.len()
        invariant
            i <= components.len(),
            out@.len() == i,
            forall|k: int| 0 <= k < i ==> out@[k]@ == components@[k]@,
        decreases components.len() - i,
    {
        out.push(ComponentDto::from(&components[i]));
        i = i + 1;
    }
    assert(components_dto_view(out@) =~= components_view(components@));
    out
}

impl ComponentDto {
    /// The transfer object of a component.
    pub fn from(component: &Component) -> (r: ComponentDto)
        ensures
            r@ == component@,
        decreases component,
    {
        ComponentDto {
            name: copy_optional_text(&component.name),
            value: match &component.value {
                Some(value) => Some(ValueDto::from(value)),
                None => None,
            },
            nil: component.nil,
        }
    }
}

impl ListDto {
    /// The transfer object of a list.
    pub fn from(list: &List) -> (r: ListDto)
        ensures
            r@ == list@,
        decreases list,
    {
        let mut out: Vec<ValueDto> = Vec::new();
        let mut i: usize = 0;
        while i < list.items.len()
            invariant
                i <= list.items.len(),
                out@.len() == i,
                forall|k: int| 0 <= k < i ==> out@[k]@ == list.items@[k]@,
            decreases list.items.len() - i,
        {
            out.push(ValueDto::from(&list.items[i]));
            i = i + 1;
        }
        assert(values_dto_view(out@) =~= values_view(list.items@));
        ListDto { items: out, nil: list.nil }
    }
}

impl InputNodeDto {
    /// The transfer object of an input of a test case.
    pub fn from(input_node: &InputNode) -> (r: InputNodeDto)
        ensures
            r@ == input_node@,
    {
        InputNodeDto {
            name: input_node.name.clone(),
            value: match &input_node.value {
                Some(value) => Some(ValueDto::from(value)),
                None => None,
            },
        }
    }
}

} // verus!
