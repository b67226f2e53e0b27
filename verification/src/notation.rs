//! How types and methods are written in messages.
use crate::methods::{MethodPredicate, NamedMethodType, SpecMethod, SpecPredicate};
use crate::text::{concat3, concat5, join, joined, same_text, texts_view};
use crate::type_ops::{map_type, mapped, named_builtin, replacement_rule, Replacement};
use crate::types::{types_view, SpecType, Type};
use vstd::prelude::*;

verus! {

/// A way to write types down.
pub trait TypeNotation {
    /// How a type is written.
    spec fn text_of(&self, ty: SpecType) -> Seq<char>;

    /// How a type that was inferred is written.
    spec fn inferred_text_of(&self, ty: SpecType) -> Seq<char>;

    /// Write a type.
    fn render(&self, ty: &Type) -> (text: String)
        ensures
            text@ == self.text_of(ty@),
    ;

    /// Write a type that was inferred.
    fn render_inferred(&self, ty: &Type) -> (text: String)
        ensures
            text@ == self.inferred_text_of(ty@),
    ;
}

/// A notation that lists how each type is written, and what stands for a type
/// that it does not list.
#[derive(Debug)]
pub struct NotationTable {
    pub rendered: Vec<(Type, String)>,
    pub inferred: Vec<(Type, String)>,
    pub otherwise: String,
}

/// The text that a table gives for a type, from a position on.
pub open spec fn listed_text(
    table: Seq<(Type, String)>,
    ty: SpecType,
    otherwise: Seq<char>,
    from: int,
) -> Seq<char>
    decreases table.len() - from,
{
    if from >= table.len() {
        otherwise
    } else if table[from].0@ == ty {
        table[from].1@
    } else {
        listed_text(table, ty, otherwise, from + 1)
    }
}

fn find_text(table: &Vec<(Type, String)>, ty: &Type, otherwise: &String) -> (text: String)
    ensures
        text@ == listed_text(table@, ty@, otherwise@, 0),
{
    let mut index: usize = 0;
    while index < table.len()
        invariant
            index <= table.len(),
            listed_text(table@, ty@, otherwise@, 0) == listed_text(
                table@,
                ty@,
                otherwise@,
                index as int,
            ),
        decreases table.len() - index,
    {
        if table[index].0 == *ty {
            return table[index].1.clone();
        }
        index += 1;
    }
    otherwise.clone()
}

impl TypeNotation for NotationTable {
    open spec fn text_of(&self, ty: SpecType) -> Seq<char> {
        listed_text(self.rendered@, ty, self.otherwise@, 0)
    }

    open spec fn inferred_text_of(&self, ty: SpecType) -> Seq<char> {
        listed_text(self.inferred@, ty, self.otherwise@, 0)
    }

    fn render(&self, ty: &Type) -> (text: String) {
        find_text(&self.rendered, ty, &self.otherwise)
    }

    fn render_inferred(&self, ty: &Type) -> (text: String) {
        find_text(&self.inferred, ty, &self.otherwise)
    }
}

/// How each type of a list is written.
pub open spec fn texts_of<N: TypeNotation>(notation: &N, types: Seq<SpecType>) -> Seq<Seq<char>> {
    types.map_values(|ty: SpecType| notation.text_of(ty))
}

fn render_types<N: TypeNotation>(notation: &N, types: &Vec<Type>) -> (texts: Vec<String>)
    ensures
        texts_view(texts@) == texts_of(notation, types_view(types@)),
{
    let mut texts: Vec<String> = Vec::new();
    let mut index: usize = 0;
    while index < types.len()
        invariant
            index <= types.len(),
            texts.len() == index,
            forall|i: int|
                0 <= i < index ==> (#[trigger] texts@[i])@ == notation.text_of(types@[i]@),
        decreases types.len() - index,
    {
        texts.push(notation.render(&types[index]));
        index += 1;
    }
    assert(texts_view(texts@) =~= texts_of(notation, types_view(types@)));
    texts
}

/// How the signature of a function is written: a single parameter stands alone.
pub open spec fn signature_text<N: TypeNotation>(
    notation: &N,
    params: Seq<SpecType>,
    result: SpecType,
) -> Seq<char> {
    let listed = if params.len() == 1 {
        notation.text_of(params[0])
    } else {
        "("@ + joined(texts_of(notation, params), ", "@) + ")"@
    };
    listed + " -> "@ + notation.text_of(result)
}

/// Write the signature of a function.
pub fn render_method_signature<N: TypeNotation>(
    notation: &N,
    params: &Vec<Type>,
    result: &Type,
) -> (text: String)
    ensures
        text@ == signature_text(notation, types_view(params@), result@),
{
    assert(types_view(params@).len() == params.len());
    let listed = if params.len() == 1 {
        assert(types_view(params@)[0] == params@[0]@);
        notation.render(&params[0])
    } else {
        let texts = render_types(notation, params);
        let inner = join(&texts, ", ");
        concat3("(", inner.as_str(), ")")
    };
    let written = notation.render(result);
    concat3(listed.as_str(), " -> ", written.as_str())
}

/// How the signature of a family's method is written.
pub open spec fn method_text<N: TypeNotation>(notation: &N, method: SpecMethod) -> Seq<char> {
    "("@ + joined(texts_of(notation, method.params), ", "@) + "): "@ + notation.text_of(
        method.result,
    )
}

/// Write the signature of a family's method.
pub fn render_named_method_signature<N: TypeNotation>(notation: &N, method: &NamedMethodType) -> (
    text: String)
    ensures
        text@ == method_text(notation, method@),
{
    let texts = render_types(notation, &method.params);
    let inner = join(&texts, ", ");
    let written = notation.render(&method.result);
    let mut text = concat3("(", inner.as_str(), "): ");
    text.append(written.as_str());
    text
}

/// A type with `Self` in place of the candidate.
pub open spec fn relative_to(ty: SpecType, candidate: SpecType, replace: bool) -> SpecType {
    if replace {
        mapped(ty, replacement_rule(candidate, SpecType::Named("Self"@)))
    } else {
        ty
    }
}

/// Write a type with `Self` in place of the candidate.
pub fn render_relative_type<N: TypeNotation>(
    notation: &N,
    ty: &Type,
    candidate: &Type,
    replace_candidate: bool,
) -> (text: String)
    ensures
        text@ == notation.text_of(relative_to(ty@, candidate@, replace_candidate)),
{
    if replace_candidate {
        let replacement = Replacement {
            target: candidate.clone(),
            replacement: named_builtin("Self"),
        };
        let relative = map_type(ty, &replacement);
        notation.render(&relative)
    } else {
        notation.render(ty)
    }
}

/// Whether an operator compares its operands, so that its result is no `Self`.
pub open spec fn compares(member: Seq<char>) -> bool {
    member == "<"@ || member == "<="@ || member == ">"@ || member == ">="@
}

/// How the requirement that a predicate states is written.
pub open spec fn requirement_text<N: TypeNotation>(notation: &N, predicate: SpecPredicate) -> Seq<
    char,
> {
    let params = predicate.params.map_values(
        |param: SpecType| notation.text_of(relative_to(param, predicate.candidate, true)),
    );
    let result = notation.text_of(
        relative_to(predicate.result, predicate.candidate, !compares(predicate.member)),
    );
    "{ "@ + predicate.member + "("@ + joined(params, ", "@) + "): "@ + result + ", .. }"@
}

/// Write the requirement that a predicate states.
pub fn render_predicate_requirement<N: TypeNotation>(notation: &N, predicate: &MethodPredicate) -> (
    text: String)
    ensures
        text@ == requirement_text(notation, predicate@),
{
    let mut params: Vec<String> = Vec::new();
    let mut index: usize = 0;
    while index < predicate.params.len()
        invariant
            index <= predicate.params.len(),
            params.len() == index,
            forall|i: int|
                0 <= i < index ==> (#[trigger] params@[i])@ == notation.text_of(
                    relative_to(predicate.params@[i]@, predicate.candidate@, true),
                ),
        decreases predicate.params.len() - index,
    {
        params.push(
            render_relative_type(notation, &predicate.params[index], &predicate.candidate, true),
        );
        index += 1;
    }
    assert(texts_view(params@) =~= predicate@.params.map_values(
        |param: SpecType| notation.text_of(relative_to(param, predicate@.candidate, true)),
    ));
    let member = predicate.member.as_str();
    let comparing = same_text(member, "<") || same_text(member, "<=") || same_text(member, ">")
        || same_text(member, ">=");
    let result = render_relative_type(
        notation,
        &predicate.result,
        &predicate.candidate,
        !comparing,
    );
    let listed = join(&params, ", ");
    let mut text = concat5("{ ", member, "(", listed.as_str(), "): ");
    text.append(result.as_str());
    text.append(", .. }");
    text
}

} // verus!
