//! The arguments of a tool call and the parameter schema they are held to.
//!
//! Arguments arrive as an untyped structured value. The loop reads only the
//! kind of each member and, for text, its content, so a value is kept as its
//! kind and its spelling.

use crate::error::{ToolError, ToolErrorKind};
use vstd::prelude::*;

verus! {

/// The kinds of value that arguments are made of.
#[derive(Debug, Clone, Copy, PartialEq, Eq, Structural)]
pub enum ValueKind {
    Null,
    Boolean,
    Integer,
    Number,
    Text,
    Array,
    Object,
}

/// The name that a schema document has for a kind.
pub open spec fn kind_name(kind: ValueKind) -> Seq<char> {
    match kind {
        ValueKind::Null => "null"@,
        ValueKind::Boolean => "boolean"@,
        ValueKind::Integer => "integer"@,
        ValueKind::Number => "number"@,
        ValueKind::Text => "string"@,
        ValueKind::Array => "array"@,
        ValueKind::Object => "object"@,
    }
}

impl ValueKind {
    /// The name of the kind as it is written in the schema that is
    /// advertised to the model.
    pub fn schema_name(self) -> (name: &'static str)
        ensures
            name@ == kind_name(self),
    {
        match self {
            ValueKind::Null => "null",
            ValueKind::Boolean => "boolean",
            ValueKind::Integer => "integer",
            ValueKind::Number => "number",
            ValueKind::Text => "string",
            ValueKind::Array => "array",
            ValueKind::Object => "object",
        }
    }
}

/// One value: its kind and its spelling. For `Text` the spelling is the text
/// itself, for every other kind the value as it is written in the document.
#[derive(Debug, PartialEq, Eq)]
pub struct ArgValue {
    pub kind: ValueKind,
    pub text: String,
}

pub struct ArgValueView {
    pub kind: ValueKind,
    pub text: Seq<char>,
}

impl View for ArgValue {
    type V = ArgValueView;

    open spec fn view(&self) -> ArgValueView {
        ArgValueView { kind: self.kind, text: self.text@ }
    }
}

impl Clone for ArgValue {
    fn clone(&self) -> (res: Self)
        ensures
            res@ == self@,
    {
        ArgValue { kind: self.kind, text: self.text.clone() }
    }
}

/// A named member of an arguments object.
#[derive(Debug, PartialEq, Eq)]
pub struct Argument {
    pub name: String,
    pub value: ArgValue,
}

pub struct ArgumentView {
    pub name: Seq<char>,
    pub value: ArgValueView,
}

impl View for Argument {
    type V = ArgumentView;

    open spec fn view(&self) -> ArgumentView {
        ArgumentView { name: self.name@, value: self.value@ }
    }
}

impl Clone for Argument {
    fn clone(&self) -> (res: Self)
        ensures
            res@ == self@,
    {
        Argument { name: self.name.clone(), value: self.value.clone() }
    }
}

pub open spec fn members_view(members: Seq<Argument>) -> Seq<ArgumentView> {
    members.map_values(|a: Argument| a@)
}

/// The arguments of one tool call: an object with its members in document
/// order, or any other value.
#[derive(Debug, PartialEq, Eq)]
pub enum Arguments {
    Object(Vec<Argument>),
    Other(ArgValue),
}

pub enum ArgumentsView {
    Object(Seq<ArgumentView>),
    Other(ArgValueView),
}

impl View for Arguments {
    type V = ArgumentsView;

    open spec fn view(&self) -> ArgumentsView {
        match self {
            Arguments::Object(members) => ArgumentsView::Object(members_view(members@)),
            Arguments::Other(value) => ArgumentsView::Other(value@),
        }
    }
}

impl Clone for Arguments {
    fn clone(&self) -> (res: Self)
        ensures
            res@ == self@,
    {
        match self {
            Arguments::Object(members) => {
                let mut copy: Vec<Argument> = Vec::new();
                let mut i: usize = 0;
                while i < members.len()
                    invariant
                        i <= members.len(),
                        copy@.len() == i,
                        members_view(copy@) == members_view(members@).take(i as int),
                    decreases members.len() - i,
                {
                    let ghost before = copy@;
                    copy.push(members[i].clone());
                    proof {
                        assert forall|j: int| 0 <= j < i + 1 implies members_view(copy@)[j]
                            == members_view(members@)[j] by {
                            if j < i {
                                assert(members_view(before)[j] == members_view(members@).take(
                                    i as int,
                                )[j]);
                            }
                        }
                        assert(members_view(copy@) =~= members_view(members@).take(i + 1));
                    }
                    i += 1;
                }
                proof {
                    assert(members_view(members@).take(i as int) =~= members_view(members@));
                }
                Arguments::Object(copy)
            },
            Arguments::Other(value) => Arguments::Other(value.clone()),
        }
    }
}

/// The value of the first member called `name` at or behind position `from`.
pub open spec fn find_from(members: Seq<ArgumentView>, name: Seq<char>, from: int) -> Option<
    ArgValueView,
>
    decreases members.len() - from,
{
    if from < 0 || from >= members.len() {
        None
    } else if members[from].name == name {
        Some(members[from].value)
    } else {
        find_from(members, name, from + 1)
    }
}

/// The value that the arguments give for `name`: that of the first member of
/// that name, if the arguments are an object that has one.
pub open spec fn member(args: ArgumentsView, name: Seq<char>) -> Option<ArgValueView> {
    match args {
        ArgumentsView::Object(members) => find_from(members, name, 0),
        ArgumentsView::Other(_) => None,
    }
}

impl Arguments {
    /// Looks a member up by name.
    pub fn get(&self, name: &String) -> (found: Option<&ArgValue>)
        ensures
            found is Some <==> member(self@, name@) is Some,
            found matches Some(v) ==> member(self@, name@) == Some(v@),
    {
        match self {
            Arguments::Other(_) => None,
            Arguments::Object(members) => {
                let ghost all = members_view(members@);
                let mut i: usize = 0;
                while i < members.len()
                    invariant
                        i <= members.len(),
                        all == members_view(members@),
                        self@ == ArgumentsView::Object(all),
                        find_from(all, name@, 0) == find_from(all, name@, i as int),
                    decreases members.len() - i,
                {
                    assert(all[i as int] == members@[i as int]@);
                    if members[i].name == *name {
                        return Some(&members[i].value);
                    }
                    i += 1;
                }
                None
            },
        }
    }
}

/// One parameter that a tool declares.
#[derive(Debug, PartialEq, Eq)]
pub struct Parameter {
    pub name: String,
    pub kind: ValueKind,
    pub required: bool,
    pub description: String,
}

pub struct ParameterView {
    pub name: Seq<char>,
    pub kind: ValueKind,
    pub required: bool,
    pub description: Seq<char>,
}

impl View for Parameter {
    type V = ParameterView;

    open spec fn view(&self) -> ParameterView {
        ParameterView {
            name: self.name@,
            kind: self.kind,
            required: self.required,
            description: self.description@,
        }
    }
}

impl Clone for Parameter {
    fn clone(&self) -> (res: Self)
        ensures
            res@ == self@,
    {
        Parameter {
            name: self.name.clone(),
            kind: self.kind,
            required: self.required,
            description: self.description.clone(),
        }
    }
}

pub open spec fn schema_view(schema: Seq<Parameter>) -> Seq<ParameterView> {
    schema.map_values(|p: Parameter| p@)
}

/// A value of kind `actual` may stand where `expected` is declared: the kinds
/// are the same, or an integer stands for a number.
pub open spec fn kind_fits(expected: ValueKind, actual: ValueKind) -> bool {
    expected == actual || (expected == ValueKind::Number && actual == ValueKind::Integer)
}

/// The members meet one parameter: a required one is there with a fitting
/// kind; an optional one is absent, null, or of a fitting kind.
pub open spec fn satisfied(p: ParameterView, members: Seq<ArgumentView>) -> bool {
    match find_from(members, p.name, 0) {
        None => !p.required,
        Some(v) => kind_fits(p.kind, v.kind) || (!p.required && v.kind == ValueKind::Null),
    }
}

/// The schema accepts the arguments: they are an object that meets every
/// parameter. Members that the schema does not name are not looked at.
pub open spec fn accepts(schema: Seq<ParameterView>, args: ArgumentsView) -> bool {
    match args {
        ArgumentsView::Object(members) => forall|i: int|
            0 <= i < schema.len() ==> satisfied(#[trigger] schema[i], members),
        ArgumentsView::Other(_) => false,
    }
}

/// The name of the first parameter, at or behind position `from`, that the
/// members do not meet.
pub open spec fn first_unmet(
    schema: Seq<ParameterView>,
    members: Seq<ArgumentView>,
    from: int,
) -> Option<Seq<char>>
    decreases schema.len() - from,
{
    if from < 0 || from >= schema.len() {
        None
    } else if !satisfied(schema[from], members) {
        Some(schema[from].name)
    } else {
        first_unmet(schema, members, from + 1)
    }
}

/// What is wrong with the arguments, if anything: the name of the first
/// parameter, in the order of the schema, that they do not meet, or the empty
/// name where they are no object at all.
pub open spec fn violation(schema: Seq<ParameterView>, args: ArgumentsView) -> Option<Seq<char>> {
    match args {
        ArgumentsView::Object(members) => first_unmet(schema, members, 0),
        ArgumentsView::Other(_) => Some(Seq::empty()),
    }
}

proof fn lemma_first_unmet(schema: Seq<ParameterView>, members: Seq<ArgumentView>, from: int)
    requires
        0 <= from <= schema.len(),
    ensures
        first_unmet(schema, members, from) is None <==> forall|i: int|
            from <= i < schema.len() ==> satisfied(#[trigger] schema[i], members),
    decreases schema.len() - from,
{
    if from < schema.len() {
        lemma_first_unmet(schema, members, from + 1);
        if satisfied(schema[from], members) && first_unmet(schema, members, from + 1) is None {
            assert forall|i: int| from <= i < schema.len() implies satisfied(
                #[trigger] schema[i],
                members,
            ) by {
                if i > from {
                }
            }
        }
    }
}

/// Arguments are without violation exactly when the schema accepts them.
pub proof fn lemma_violation_none_iff_accepted(schema: Seq<ParameterView>, args: ArgumentsView)
    ensures
        violation(schema, args) is None <==> accepts(schema, args),
{
    match args {
        ArgumentsView::Object(members) => {
            lemma_first_unmet(schema, members, 0);
        },
        ArgumentsView::Other(_) => {},
    }
}

fn fits(expected: ValueKind, actual: ValueKind) -> (r: bool)
    ensures
        r == kind_fits(expected, actual),
{
    expected == actual || (expected == ValueKind::Number && actual == ValueKind::Integer)
}

/// Holds the arguments of a call to the schema of the tool it names.
///
/// Succeeds exactly on the arguments that the schema accepts. Otherwise the
/// error is `InvalidArguments`, and its detail is the violation.
pub fn validate(schema: &Vec<Parameter>, args: &Arguments) -> (r: Result<(), ToolError>)
    ensures
        r is Ok <==> accepts(schema_view(schema@), args@),
        r matches Err(e) ==> e@.kind == ToolErrorKind::InvalidArguments && violation(
            schema_view(schema@),
            args@,
        ) == Some(e@.detail),
{
    proof {
        lemma_violation_none_iff_accepted(schema_view(schema@), args@);
    }
    match args {
        Arguments::Other(_) => Err(ToolError::invalid_arguments(String::new())),
        Arguments::Object(members) => {
            let ghost sv = schema_view(schema@);
            let ghost mv = members_view(members@);
            let mut i: usize = 0;
            while i < schema.len()
                invariant
                    i <= schema.len(),
                    sv == schema_view(schema@),
                    mv == members_view(members@),
                    args@ == ArgumentsView::Object(mv),
                    first_unmet(sv, mv, 0) == first_unmet(sv, mv, i as int),
                decreases schema.len() - i,
            {
                let p = &schema[i];
                let met = match args.get(&p.name) {
                    None => !p.required,
                    Some(v) => fits(p.kind, v.kind) || (!p.required && v.kind == ValueKind::Null),
                };
                assert(met == satisfied(sv[i as int], mv));
                if !met {
                    return Err(ToolError::invalid_arguments(p.name.clone()));
                }
                i += 1;
            }
            Ok(())
        },
    }
}

} // verus!
