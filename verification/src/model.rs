//! The value model and the test-case description that a test file holds.

use crate::dto::{ComponentView, ListView, SimpleView, ValueView, optional_text};
use vstd::prelude::*;

verus! {

/// A scalar: an optional type tag such as `xsd:decimal`, an optional lexical
/// form and the flag of an explicit null.
#[derive(Debug, Clone)]
pub struct Simple {
    pub typ: Option<String>,
    pub text: Option<String>,
    pub nil: bool,
}

/// A named component of a structured value.
#[derive(Debug)]
pub struct Component {
    pub name: Option<String>,
    pub value: Option<Value>,
    pub nil: bool,
}

/// A list of values.
#[derive(Debug)]
pub struct List {
    pub items: Vec<Value>,
    pub nil: bool,
}

/// A typed value: a scalar, named components or a list.
#[derive(Debug)]
pub enum Value {
    Simple(Simple),
    Components(Vec<Component>),
    List(List),
}

/// An input of a test case.
#[derive(Debug)]
pub struct InputNode {
    pub name: String,
    pub value: Option<Value>,
}

/// An expected result of a test case.
#[derive(Debug)]
pub struct ResultNode {
    pub name: String,
    pub expected: Option<Value>,
}

/// A test case: inputs, and one evaluation for each result node.
#[derive(Debug)]
pub struct TestCase {
    pub id: Option<String>,
    pub invocable_name: Option<String>,
    pub input_nodes: Vec<InputNode>,
    pub result_nodes: Vec<ResultNode>,
}

/// The content of a test file: the file name of the model under test and
/// the test cases.
#[derive(Debug)]
pub struct TestFile {
    pub model_name: Option<String>,
    pub test_cases: Vec<TestCase>,
}

impl View for Simple {
    type V = SimpleView;

    open spec fn view(&self) -> SimpleView {
        SimpleView { typ: optional_text(self.typ), text: optional_text(self.text), nil: self.nil }
    }
}

/// The view of a value: its transfer shape, in which exactly one part is
/// present.
pub open spec fn value_view(v: Value) -> ValueView
    decreases v,
{
    match v {
        Value::Simple(s) => ValueView { simple: Some(s@), components: None, list: None },
        Value::Components(c) => ValueView {
            simple: None,
            components: Some(components_view(c@)),
            list: None,
        },
        Value::List(l) => ValueView { simple: None, components: None, list: Some(list_view(l)) },
    }
}

/// The views of a sequence of components.
pub open spec fn components_view(c: Seq<Component>) -> Seq<ComponentView>
    decreases c,
{
    Seq::new(c.len(), |i: int| if 0 <= i < c.len() { component_view(c[i]) } else { arbitrary() })
}

/// The views of a sequence of values.
pub open spec fn values_view(c: Seq<Value>) -> Seq<ValueView>
    decreases c,
{
    Seq::new(c.len(), |i: int| if 0 <= i < c.len() { value_view(c[i]) } else { arbitrary() })
}

/// The view of a component.
pub open spec fn component_view(c: Component) -> ComponentView
    decreases c,
{
    ComponentView {
        name: optional_text(c.name),
        value: match c.value {
            Some(v) => Some(value_view(v)),
            None => None,
        },
        nil: c.nil,
    }
}

/// The view of a list.
pub open spec fn list_view(l: List) -> ListView
    decreases l,
{
    ListView { items: values_view(l.items@), nil: l.nil }
}

impl View for Value {
    type V = ValueView;

    open spec fn view(&self) -> ValueView {
        value_view(*self)
    }
}

impl View for Component {
    type V = ComponentView;

    open spec fn view(&self) -> ComponentView {
        component_view(*self)
    }
}

impl View for List {
    type V = ListView;

    open spec fn view(&self) -> ListView {
        list_view(*self)
    }
}

/// The view of an optional value.
pub open spec fn optional_value_view(v: Option<Value>) -> Option<ValueView> {
    match v {
        Some(x) => Some(x@),
        None => None,
    }
}

/// The number of parts that a value in transfer shape has.
pub open spec fn parts(v: ValueView) -> nat {
    (if v.simple is Some { 1nat } else { 0nat }) + (if v.components is Some { 1nat } else { 0nat })
        + (if v.list is Some { 1nat } else { 0nat })
}

/// A value in transfer shape is well formed: it has exactly one part, and
/// so has every value inside it.
pub open spec fn well_formed(v: ValueView) -> bool
    decreases v,
{
    &&& parts(v) == 1
    &&& match v.components {
        Some(components) => forall|i: int|
            0 <= i < components.len() ==> match (#[trigger] components[i]).value {
                Some(inner) => well_formed(inner),
                None => true,
            },
        None => true,
    }
    &&& match v.list {
        Some(list) => forall|i: int| 0 <= i < list.items.len() ==> well_formed(#[trigger] list.items[i]),
        None => true,
    }
}

/// The transfer shape of every value is well formed.
pub proof fn lemma_value_well_formed(v: Value)
    ensures
        well_formed(v@),
    decreases v,
{
    match v {
        Value::Simple(_) => {},
        Value::Components(components) => {
            let views = components_view(components@);
            assert forall|i: int| 0 <= i < views.len() implies match (#[trigger] views[i]).value {
                Some(inner) => well_formed(inner),
                None => true,
            } by {
                match components@[i].value {
                    Some(inner) => {
                        lemma_value_well_formed(inner);
                    },
                    None => {},
                }
            }
        },
        Value::List(list) => {
            let views = values_view(list.items@);
            assert forall|i: int| 0 <= i < views.len() implies well_formed(#[trigger] views[i]) by {
                lemma_value_well_formed(list.items@[i]);
            }
        },
    }
}

} // verus!
