//! Bodies of functions, blocks and literals that are held against a type.
use crate::collections::{increasing, StringMap, StringSet};
use crate::rows::{all_fields, literal_record_type};
use crate::schemes::{type_variable_order, variable_order};
use crate::span::Span;
use crate::syntax::{
    is_added_field, lists_fields, literal_record_value, Expr, Param, RecordEntry, ValueRecordField,
};
use crate::text::texts_view;
use crate::type_ops::{
    free_metas, map_type, metas, substituted, type_map_view, type_variable_names, variables, Substitution,
};
use crate::types::{types_view, Row, SpecType, Type};
use vstd::prelude::*;

verus! {

// ---------------------------------------------------------------------------
// Type variables
// ---------------------------------------------------------------------------
/// The type variables that stay as they are while a value is held against its
/// declared type: those of a function that has some.
pub fn check_value_against_declared_type(expected: &Type) -> (rigid: Option<Vec<String>>)
    ensures
        match rigid {
            Some(names) => expected@ is Function && increasing(texts_view(names@)) && texts_view(
                names@,
            ).to_set() == variables(expected@) && names@.len() > 0,
            None => !(expected@ is Function) || forall|name: Seq<char>|
                !#[trigger] variables(expected@).contains(name),
        },
{
    match expected {
        Type::Function { .. } => {
            let names = type_variable_names(expected);
            if names.len() == 0 {
                proof {
                    assert forall|name: Seq<char>| !#[trigger] variables(expected@).contains(
                        name,
                    ) by {
                        assert(!texts_view(names@).to_set().contains(name));
                    }
                }
                None
            } else {
                Some(names)
            }
        },
        _ => None,
    }
}

/// Whether a type variable belongs to a declaration whose value is being checked.
pub open spec fn is_rigid(scopes: Seq<StringSet>, name: Seq<char>) -> bool {
    exists|i: int| 0 <= i < scopes.len() && (#[trigger] scopes[i])@.contains(name)
}

/// Whether a type variable belongs to a declaration whose value is being checked.
pub fn is_rigid_type_var(scopes: &Vec<StringSet>, name: &str) -> (rigid: bool)
    ensures
        rigid == is_rigid(scopes@, name@),
{
    let mut index: usize = 0;
    while index < scopes.len()
        invariant
            index <= scopes.len(),
            forall|i: int| 0 <= i < index ==> !(#[trigger] scopes@[i])@.contains(name@),
        decreases scopes.len() - index,
    {
        if scopes[index].contains(name) {
            return true;
        }
        index += 1;
    }
    false
}

/// The metavariables of type variables, from the outermost function inwards.
pub open spec fn scopes_view(scopes: Seq<StringMap<Type>>) -> Seq<Map<Seq<char>, SpecType>> {
    Seq::new(scopes.len(), |i: int| type_map_view(scopes[i]@))
}

/// The type that stands for a type variable in the innermost function that has one.
pub open spec fn nearest_type(scopes: Seq<Map<Seq<char>, SpecType>>, name: Seq<char>) -> Option<
    SpecType,
>
    decreases scopes.len(),
{
    if scopes.len() == 0 {
        None
    } else if scopes.last().contains_key(name) {
        Some(scopes.last()[name])
    } else {
        nearest_type(scopes.drop_last(), name)
    }
}

/// The metavariables after names were read, and the first one that is not in use
/// then. A name that no function has yet gets one in the innermost function.
pub open spec fn scopes_with(
    scopes: Seq<Map<Seq<char>, SpecType>>,
    names: Seq<Seq<char>>,
    rigid: Seq<StringSet>,
    first: int,
) -> (Seq<Map<Seq<char>, SpecType>>, int)
    decreases names.len(),
{
    if names.len() == 0 {
        (scopes, first)
    } else {
        let (known, next) = scopes_with(scopes, names.drop_last(), rigid, first);
        if is_rigid(rigid, names.last()) || nearest_type(known, names.last()) is Some {
            (known, next)
        } else {
            (
                known.update(
                    known.len() - 1,
                    known.last().insert(names.last(), SpecType::Meta(next as u32)),
                ),
                next + 1,
            )
        }
    }
}

/// The types that replace the names of a type that are not rigid.
pub open spec fn inline_bindings(
    scopes: Seq<Map<Seq<char>, SpecType>>,
    names: Seq<Seq<char>>,
    rigid: Seq<StringSet>,
) -> Map<Seq<char>, SpecType> {
    Map::new(
        |name: Seq<char>|
            names.contains(name) && !is_rigid(rigid, name) && nearest_type(scopes, name) is Some,
        |name: Seq<char>| nearest_type(scopes, name)->0,
    )
}

fn find_nearest(scopes: &Vec<StringMap<Type>>, name: &str) -> (ty: Option<Type>)
    ensures
        match ty {
            Some(ty) => nearest_type(scopes_view(scopes@), name@) == Some(ty@),
            None => nearest_type(scopes_view(scopes@), name@) is None,
        },
{
    let ghost all = scopes_view(scopes@);
    let mut index: usize = scopes.len();
    assert(all.take(all.len() as int) =~= all);
    while index > 0
        invariant
            index <= scopes.len(),
            all == scopes_view(scopes@),
            nearest_type(all, name@) == nearest_type(all.take(index as int), name@),
        decreases index,
    {
        index -= 1;
        proof {
            let longer = all.take(index + 1);
            assert(longer.drop_last() =~= all.take(index as int));
            assert(longer.last() == type_map_view(scopes@[index as int]@));
        }
        if let Some(ty) = scopes[index].get(name) {
            return Some(ty.clone());
        }
    }
    None
}

proof fn scopes_keep_count(
    scopes: Seq<Map<Seq<char>, SpecType>>,
    names: Seq<Seq<char>>,
    rigid: Seq<StringSet>,
    first: int,
)
    requires
        scopes.len() > 0,
    ensures
        scopes_with(scopes, names, rigid, first).0.len() == scopes.len(),
    decreases names.len(),
{
    if names.len() > 0 {
        scopes_keep_count(scopes, names.drop_last(), rigid, first);
    }
}

/// Replace the type variables of an annotation inside a function by metavariables.
/// Variables of an enclosing declaration stay as they are, and a variable that an
/// enclosing function has a metavariable for keeps it. The result tells the first
/// metavariable that is not in use then.
pub fn resolve_inline_lambda_annotation_variables(
    ty: &Type,
    scopes: &mut Vec<StringMap<Type>>,
    rigid: &Vec<StringSet>,
    first: u32,
) -> (resolved: (Type, u32))
    requires
        old(scopes)@.len() > 0,
        first + variable_order(ty@).len() <= u32::MAX,
    ensures
        ({
            let names = variable_order(ty@);
            let after = scopes_with(scopes_view(old(scopes)@), names, rigid@, first as int);
            &&& scopes_view(final(scopes)@) == after.0
            &&& resolved.1 == after.1
            &&& resolved.0@ == substituted(ty@, inline_bindings(after.0, names, rigid@))
        }),
{
    let names = type_variable_order(ty);
    let ghost all = texts_view(names@);
    let ghost before = scopes_view(scopes@);
    let mut next: u32 = first;
    let mut index: usize = 0;
    assert(all.take(0) =~= Seq::empty());
    while index < names.len()
        invariant
            index <= names.len(),
            all == texts_view(names@),
            before == scopes_view(old(scopes)@),
            before.len() > 0,
            first + all.len() <= u32::MAX,
            first <= next <= first + index,
            (scopes_view(scopes@), next as int) == scopes_with(
                before,
                all.take(index as int),
                rigid@,
                first as int,
            ),
        decreases names.len() - index,
    {
        let name = names[index].as_str();
        proof {
            let longer = all.take(index + 1);
            assert(longer.drop_last() =~= all.take(index as int));
            assert(longer.last() == name@);
            scopes_keep_count(before, all.take(index as int), rigid@, first as int);
        }
        let ghost known = scopes_view(scopes@);
        assert(known.len() == scopes@.len());
        if !is_rigid_type_var(rigid, name) && find_nearest(scopes, name).is_none() {
            let ghost maps = scopes@;
            if let Some(mut innermost) = scopes.pop() {
                let ghost held = type_map_view(innermost@);
                innermost.insert(names[index].clone(), Type::Meta(next));
                assert(type_map_view(innermost@) =~= held.insert(name@, SpecType::Meta(next)));
                scopes.push(innermost);
                assert(scopes_view(scopes@) =~= known.update(
                    known.len() - 1,
                    known.last().insert(name@, SpecType::Meta(next)),
                ));
            }
            next += 1;
        }
        index += 1;
    }
    assert(all.take(all.len() as int) =~= all);
    let ghost after = scopes_view(scopes@);
    let mut bindings: StringMap<Type> = StringMap::new();
    let mut index: usize = 0;
    assert(type_map_view(bindings@) =~= inline_bindings(after, all.take(0), rigid@));
    while index < names.len()
        invariant
            index <= names.len(),
            all == texts_view(names@),
            after == scopes_view(scopes@),
            type_map_view(bindings@) == inline_bindings(after, all.take(index as int), rigid@),
        decreases names.len() - index,
    {
        let name = names[index].as_str();
        let ghost earlier = type_map_view(bindings@);
        let ghost shorter = all.take(index as int);
        let ghost longer = all.take(index + 1);
        assert(longer =~= shorter.push(name@));
        assert forall|x: Seq<char>| longer.contains(x) == (shorter.contains(x) || x == name@) by {
            if shorter.contains(x) {
                let i = choose|i: int| 0 <= i < shorter.len() && shorter[i] == x;
                assert(longer[i] == x);
            }
            if x == name@ {
                assert(longer[index as int] == x);
            }
        }
        if !is_rigid_type_var(rigid, name) {
            if let Some(meta) = find_nearest(scopes, name) {
                bindings.insert(names[index].clone(), meta);
                assert(type_map_view(bindings@) =~= earlier.insert(name@, meta@));
            }
        }
        assert(type_map_view(bindings@) =~= inline_bindings(after, longer, rigid@));
        index += 1;
    }
    assert(all.take(all.len() as int) =~= all);
    let substitution = Substitution { bindings };
    (map_type(ty, &substitution), next)
}

// ---------------------------------------------------------------------------
// Functions
// ---------------------------------------------------------------------------
/// A step of holding a function against a function type.
#[derive(Debug)]
#[allow(inconsistent_fields)]
pub enum LambdaStep<'a> {
    /// The function has another number of parameters.
    Arity { expected: usize, found: usize },
    /// A parameter accepts what its annotation says, which is held against what is
    /// expected of it.
    CompareParam { param: usize, annotation: &'a Expr },
    /// A parameter has the type that is expected of it.
    TakeParam { param: usize },
    /// The expected result is held against the annotation, and the body against it.
    CompareResult(&'a Expr),
    /// The body is held against the expected result.
    TakeResult,
    /// The body is checked with the parameters bound.
    Body,
}

/// A step of holding a function against a function type.
#[allow(inconsistent_fields)]
pub ghost enum SpecLambdaStep {
    Arity { expected: nat, found: nat },
    CompareParam { param: nat, annotation: Expr },
    TakeParam { param: nat },
    CompareResult(Expr),
    TakeResult,
    Body,
}

impl<'a> LambdaStep<'a> {
    pub open spec fn view(&self) -> SpecLambdaStep {
        match *self {
            LambdaStep::Arity { expected, found } => SpecLambdaStep::Arity {
                expected: expected as nat,
                found: found as nat,
            },
            LambdaStep::CompareParam { param, annotation } => SpecLambdaStep::CompareParam {
                param: param as nat,
                annotation: *annotation,
            },
            LambdaStep::TakeParam { param } => SpecLambdaStep::TakeParam { param: param as nat },
            LambdaStep::CompareResult(annotation) => SpecLambdaStep::CompareResult(*annotation),
            LambdaStep::TakeResult => SpecLambdaStep::TakeResult,
            LambdaStep::Body => SpecLambdaStep::Body,
        }
    }
}

pub open spec fn lambda_steps_view(steps: Seq<LambdaStep<'_>>) -> Seq<SpecLambdaStep> {
    Seq::new(steps.len(), |i: int| steps[i]@)
}

/// The steps for the parameters of a function.
pub open spec fn param_comparisons(params: Seq<Param>) -> Seq<SpecLambdaStep> {
    Seq::new(
        params.len(),
        |i: int|
            match params[i].annotation {
                Some(annotation) => SpecLambdaStep::CompareParam {
                    param: i as nat,
                    annotation: *annotation,
                },
                None => SpecLambdaStep::TakeParam { param: i as nat },
            },
    )
}

/// The steps of holding a function against a function type. Where the number of
/// parameters differs, nothing else is compared.
pub open spec fn lambda_steps(
    params: Seq<Param>,
    return_annotation: Option<Expr>,
    expected: nat,
) -> Seq<SpecLambdaStep> {
    if params.len() != expected {
        seq![SpecLambdaStep::Arity { expected, found: params.len() }]
    } else {
        param_comparisons(params).push(
            match return_annotation {
                Some(annotation) => SpecLambdaStep::CompareResult(annotation),
                None => SpecLambdaStep::TakeResult,
            },
        ).push(SpecLambdaStep::Body)
    }
}

fn take_lambda_step<'a>(steps: &mut Vec<LambdaStep<'a>>, step: LambdaStep<'a>)
    ensures
        lambda_steps_view(final(steps)@) == lambda_steps_view(old(steps)@).push(step@),
{
    steps.push(step);
    assert(lambda_steps_view(steps@) =~= lambda_steps_view(old(steps)@).push(step@));
}

/// List the steps of holding a function against a function type with a number of
/// parameters.
pub fn check_lambda_against_function<'a>(
    params: &'a Vec<Param>,
    return_annotation: Option<&'a Expr>,
    expected: usize,
) -> (steps: Vec<LambdaStep<'a>>)
    ensures
        lambda_steps_view(steps@) == lambda_steps(
            params@,
            match return_annotation {
                Some(annotation) => Some(*annotation),
                None => None,
            },
            expected as nat,
        ),
{
    let mut steps: Vec<LambdaStep<'a>> = Vec::new();
    assert(lambda_steps_view(steps@) =~= Seq::empty());
    if params.len() != expected {
        take_lambda_step(&mut steps, LambdaStep::Arity { expected, found: params.len() });
        return steps;
    }
    let ghost all = param_comparisons(params@);
    let mut index: usize = 0;
    assert(lambda_steps_view(steps@) =~= all.take(0));
    while index < params.len()
        invariant
            index <= params.len(),
            all == param_comparisons(params@),
            lambda_steps_view(steps@) == all.take(index as int),
        decreases params.len() - index,
    {
        let step = match &params[index].annotation {
            Some(annotation) => LambdaStep::CompareParam { param: index, annotation },
            None => LambdaStep::TakeParam { param: index },
        };
        assert(step@ == all[index as int]);
        take_lambda_step(&mut steps, step);
        assert(lambda_steps_view(steps@) =~= all.take(index + 1));
        index += 1;
    }
    assert(all.take(all.len() as int) =~= all);
    match return_annotation {
        Some(annotation) => take_lambda_step(&mut steps, LambdaStep::CompareResult(annotation)),
        None => take_lambda_step(&mut steps, LambdaStep::TakeResult),
    }
    take_lambda_step(&mut steps, LambdaStep::Body);
    steps
}

/// Two types that are compared: what stands for the expected one first. Where an annotation
/// has metavariables, the two are unified as well.
#[derive(Debug)]
pub struct LambdaPair {
    pub expected: Type,
    pub actual: Type,
    pub unified: bool,
    pub span: Span,
}

/// Two types that are compared.
pub ghost struct SpecLambdaPair {
    pub expected: SpecType,
    pub actual: SpecType,
    pub unified: bool,
    pub span: Span,
}

impl LambdaPair {
    pub open spec fn view(&self) -> SpecLambdaPair {
        SpecLambdaPair {
            expected: self.expected@,
            actual: self.actual@,
            unified: self.unified,
            span: self.span,
        }
    }
}

pub open spec fn lambda_pairs_view(pairs: Seq<LambdaPair>) -> Seq<SpecLambdaPair> {
    Seq::new(pairs.len(), |i: int| pairs[i]@)
}

/// The types of a function that is held against a function type: those that are compared,
/// in order, those that its parameters have, and the one that its body is held against.
#[derive(Debug)]
pub struct LambdaTypes {
    pub compared: Vec<LambdaPair>,
    pub params: Vec<Type>,
    pub body: Type,
    /// The annotation of the result has metavariables.
    pub inline_metas: bool,
}

/// The types of a function that is held against a function type.
pub ghost struct SpecLambdaTypes {
    pub compared: Seq<SpecLambdaPair>,
    pub params: Seq<SpecType>,
    pub body: SpecType,
    pub inline_metas: bool,
}

impl LambdaTypes {
    pub open spec fn view(&self) -> SpecLambdaTypes {
        SpecLambdaTypes {
            compared: lambda_pairs_view(self.compared@),
            params: types_view(self.params@),
            body: self.body@,
            inline_metas: self.inline_metas,
        }
    }
}

/// The comparisons of the first parameters. A parameter accepts what its annotation says, so
/// what is expected of it must fit the annotation and not the other way round.
pub open spec fn compared_params(
    params: Seq<Param>,
    annotations: Seq<SpecType>,
    expected: Seq<SpecType>,
    count: nat,
) -> Seq<SpecLambdaPair>
    decreases count,
{
    if count == 0 || count > params.len() {
        Seq::empty()
    } else {
        let earlier = compared_params(params, annotations, expected, (count - 1) as nat);
        match params[count - 1].annotation {
            Some(annotation) => earlier.push(
                SpecLambdaPair {
                    expected: annotations[count - 1],
                    actual: expected[count - 1],
                    unified: metas(annotations[count - 1]).len() > 0,
                    span: annotation.span,
                },
            ),
            None => earlier,
        }
    }
}

/// The types of a function that is held against a function type. `annotations` and `result`
/// are what the annotations of the parameters and of the result say, where there are some.
pub open spec fn lambda_types(
    params: Seq<Param>,
    return_annotation: Option<Expr>,
    annotations: Seq<SpecType>,
    result: SpecType,
    expected: Seq<SpecType>,
    expected_result: SpecType,
) -> SpecLambdaTypes {
    let compared = compared_params(params, annotations, expected, params.len());
    SpecLambdaTypes {
        compared: match return_annotation {
            Some(annotation) => compared.push(
                SpecLambdaPair {
                    expected: expected_result,
                    actual: result,
                    unified: metas(result).len() > 0,
                    span: annotation.span,
                },
            ),
            None => compared,
        },
        params: Seq::new(
            params.len(),
            |i: int|
                if params[i].annotation is Some {
                    annotations[i]
                } else {
                    expected[i]
                },
        ),
        body: if return_annotation is Some {
            result
        } else {
            expected_result
        },
        inline_metas: return_annotation is Some && metas(result).len() > 0,
    }
}

fn note_pair(pairs: &mut Vec<LambdaPair>, pair: LambdaPair)
    ensures
        lambda_pairs_view(final(pairs)@) == lambda_pairs_view(old(pairs)@).push(pair@),
{
    pairs.push(pair);
    assert(lambda_pairs_view(pairs@) =~= lambda_pairs_view(old(pairs)@).push(pair@));
}

/// Find the types of a function that is held against a function type with as many
/// parameters.
pub fn compare_lambda_types(
    params: &Vec<Param>,
    return_annotation: Option<&Expr>,
    annotations: &Vec<Type>,
    result: &Type,
    expected: &Vec<Type>,
    expected_result: &Type,
) -> (types: LambdaTypes)
    requires
        annotations.len() == params.len(),
        expected.len() == params.len(),
    ensures
        types@ == lambda_types(
            params@,
            annotation_view(return_annotation),
            types_view(annotations@),
            result@,
            types_view(expected@),
            expected_result@,
        ),
{
    let ghost said = types_view(annotations@);
    let ghost asked = types_view(expected@);
    let ghost whole = lambda_types(
        params@,
        annotation_view(return_annotation),
        said,
        result@,
        asked,
        expected_result@,
    );
    let mut compared: Vec<LambdaPair> = Vec::new();
    let mut found: Vec<Type> = Vec::new();
    let mut index: usize = 0;
    assert(lambda_pairs_view(compared@) =~= Seq::empty());
    assert(types_view(found@) =~= whole.params.take(0));
    while index < params.len()
        invariant
            index <= params.len(),
            annotations.len() == params.len(),
            expected.len() == params.len(),
            said == types_view(annotations@),
            asked == types_view(expected@),
            whole.params.len() == params.len(),
            forall|i: int|
                0 <= i < params.len() ==> (#[trigger] whole.params[i]) == (
                if params@[i].annotation is Some {
                    said[i]
                } else {
                    asked[i]
                }),
            lambda_pairs_view(compared@) == compared_params(params@, said, asked, index as nat),
            types_view(found@) == whole.params.take(index as int),
        decreases params.len() - index,
    {
        let ghost earlier = types_view(found@);
        assert(said[index as int] == annotations@[index as int]@);
        assert(asked[index as int] == expected@[index as int]@);
        let ty = match &params[index].annotation {
            Some(annotation) => {
                let unified = free_metas(&annotations[index]).len() > 0;
                note_pair(
                    &mut compared,
                    LambdaPair {
                        expected: annotations[index].clone(),
                        actual: expected[index].clone(),
                        unified,
                        span: annotation.span,
                    },
                );
                annotations[index].clone()
            },
            None => expected[index].clone(),
        };
        found.push(ty);
        assert(types_view(found@) =~= earlier.push(ty@));
        assert(types_view(found@) =~= whole.params.take(index + 1));
        index += 1;
    }
    assert(whole.params.take(params.len() as int) =~= whole.params);
    match return_annotation {
        Some(annotation) => {
            let inline_metas = free_metas(result).len() > 0;
            note_pair(
                &mut compared,
                LambdaPair {
                    expected: expected_result.clone(),
                    actual: result.clone(),
                    unified: inline_metas,
                    span: annotation.span,
                },
            );
            LambdaTypes { compared, params: found, body: result.clone(), inline_metas }
        },
        None => LambdaTypes {
            compared,
            params: found,
            body: expected_result.clone(),
            inline_metas: false,
        },
    }
}

/// What is expected of a parameter must fit its annotation, and the annotation of the result
/// what is expected of the result.
pub proof fn parameters_are_compared_the_other_way(
    params: Seq<Param>,
    return_annotation: Option<Expr>,
    annotations: Seq<SpecType>,
    result: SpecType,
    expected: Seq<SpecType>,
    expected_result: SpecType,
)
    requires
        annotations.len() == params.len(),
        expected.len() == params.len(),
        forall|i: int| 0 <= i < params.len() ==> (#[trigger] params[i]).annotation is Some,
        return_annotation is Some,
    ensures
        ({
            let compared = lambda_types(
                params,
                return_annotation,
                annotations,
                result,
                expected,
                expected_result,
            ).compared;
            &&& compared.len() == params.len() + 1
            &&& forall|i: int|
                0 <= i < params.len() ==> (#[trigger] compared[i]).expected == annotations[i]
                    && compared[i].actual == expected[i]
            &&& compared.last().expected == expected_result
            &&& compared.last().actual == result
        }),
{
    annotated_params_are_compared(params, annotations, expected, params.len());
}

proof fn annotated_params_are_compared(
    params: Seq<Param>,
    annotations: Seq<SpecType>,
    expected: Seq<SpecType>,
    count: nat,
)
    requires
        count <= params.len(),
        forall|i: int| 0 <= i < params.len() ==> (#[trigger] params[i]).annotation is Some,
    ensures
        compared_params(params, annotations, expected, count).len() == count,
        forall|i: int|
            0 <= i < count ==> (#[trigger] compared_params(
                params,
                annotations,
                expected,
                count,
            )[i]).expected == annotations[i] && compared_params(
                params,
                annotations,
                expected,
                count,
            )[i].actual == expected[i],
    decreases count,
{
    if count > 0 {
        annotated_params_are_compared(params, annotations, expected, (count - 1) as nat);
        assert(params[count - 1].annotation is Some);
    }
}

/// Whether a body is reported because it does not fit its annotation: only where the
/// annotation has metavariables, since otherwise holding the body against it did so.
pub fn lambda_body_is_reported(inline_metas: bool, expected_has_metas: bool, fits: bool) -> (reported:
    bool)
    ensures
        reported == (inline_metas && expected_has_metas && !fits),
{
    inline_metas && expected_has_metas && !fits
}

// ---------------------------------------------------------------------------
// Literals
// ---------------------------------------------------------------------------
/// How an entry of an array or a set is held against a collection type.
#[derive(Debug)]
pub enum CollectionStep<'a> {
    /// An element is held against the type of the elements.
    Element(&'a Expr),
    /// A spread collection is held against the whole type.
    Whole(&'a Expr),
    /// The values of another entry are only looked at.
    Walk(&'a RecordEntry),
}

/// Whether a step is the one for an entry.
pub open spec fn is_collection_step(entry: RecordEntry, step: CollectionStep<'_>) -> bool {
    match entry {
        RecordEntry::Element(element) => step is Element && *step->Element_0 == *element,
        RecordEntry::Spread { value, .. } => step is Whole && *step->Whole_0 == *value,
        _ => step is Walk && *step->Walk_0 == entry,
    }
}

/// List how the entries of an array or a set are held against a collection type.
pub fn check_collection_entries_against<'a>(entries: &'a Vec<RecordEntry>) -> (steps: Vec<
    CollectionStep<'a>,
>)
    ensures
        steps@.len() == entries@.len(),
        forall|i: int|
            0 <= i < steps@.len() ==> is_collection_step(entries@[i], #[trigger] steps@[i]),
{
    let mut steps: Vec<CollectionStep<'a>> = Vec::new();
    let mut index: usize = 0;
    while index < entries.len()
        invariant
            index <= entries.len(),
            steps@.len() == index,
            forall|i: int|
                0 <= i < index ==> is_collection_step(entries@[i], #[trigger] steps@[i]),
        decreases entries.len() - index,
    {
        let step = match &entries[index] {
            RecordEntry::Element(element) => CollectionStep::Element(element),
            RecordEntry::Spread { value, .. } => CollectionStep::Whole(value),
            _ => CollectionStep::Walk(&entries[index]),
        };
        steps.push(step);
        index += 1;
    }
    steps
}

/// How a record value is held against a record type.
#[derive(Debug)]
pub enum RecordCheck<'a> {
    /// The type is no record, so the values are only looked at.
    Walk,
    /// The fields are held against the fields of the type, which must be the same.
    Compare(Vec<ValueRecordField<'a>>),
    /// The type of the record is found and compared.
    Infer,
}

/// Decide how a record value is held against a record type.
pub fn check_record_value_against<'a>(row: &Row, entries: &'a Vec<RecordEntry>) -> (check:
    RecordCheck<'a>)
    ensures
        if !all_fields(row@) {
            check is Walk
        } else if lists_fields(entries@) {
            check is Compare && check->Compare_0@.len() == entries@.len() && forall|i: int|
                0 <= i < entries@.len() ==> is_added_field(
                    entries@[i],
                    #[trigger] check->Compare_0@[i],
                )
        } else {
            check is Infer
        },
{
    if literal_record_type(row).is_none() {
        return RecordCheck::Walk;
    }
    match literal_record_value(entries) {
        Some(fields) => RecordCheck::Compare(fields),
        None => RecordCheck::Infer,
    }
}

/// The positions of the fields of a record that are written by their name alone.
pub open spec fn shorthand_positions(fields: Seq<ValueRecordField<'_>>, count: nat) -> Seq<int>
    decreases count,
{
    if count == 0 || count > fields.len() {
        Seq::empty()
    } else {
        let earlier = shorthand_positions(fields, (count - 1) as nat);
        if fields[count - 1].value is None {
            earlier.push(count - 1)
        } else {
            earlier
        }
    }
}

/// List the names that a record refers to by writing a field by its name alone.
pub fn check_literal_record_shorthands<'a>(fields: &Vec<ValueRecordField<'a>>) -> (names: Vec<
    (&'a str, Span),
>)
    ensures
        ({
            let positions = shorthand_positions(fields@, fields@.len());
            &&& names@.len() == positions.len()
            &&& forall|k: int|
                0 <= k < names@.len() ==> (#[trigger] names@[k]).0@ == fields@[positions[k]].name@
                    && names@[k].1 == fields@[positions[k]].name_span
        }),
{
    let mut names: Vec<(&'a str, Span)> = Vec::new();
    let mut index: usize = 0;
    while index < fields.len()
        invariant
            index <= fields.len(),
            ({
                let positions = shorthand_positions(fields@, index as nat);
                &&& names@.len() == positions.len()
                &&& forall|k: int|
                    0 <= k < names@.len() ==> (#[trigger] names@[k]).0@
                        == fields@[positions[k]].name@ && names@[k].1
                        == fields@[positions[k]].name_span
            }),
        decreases fields.len() - index,
    {
        if fields[index].value.is_none() {
            names.push((fields[index].name, fields[index].name_span));
        }
        index += 1;
    }
    names
}

// ---------------------------------------------------------------------------
// Blocks
// ---------------------------------------------------------------------------
/// A name that a block binds. What its signature says counts before what its own
/// annotation says.
#[derive(Debug, Clone, Copy)]
pub struct LocalBinding<'a> {
    pub name: &'a str,
    pub name_span: Span,
    pub signature: Option<&'a Expr>,
    pub annotation: Option<&'a Expr>,
    pub value: &'a Expr,
}

impl<'a> LocalBinding<'a> {
    /// The annotation that counts.
    pub open spec fn declared(self) -> Option<&'a Expr> {
        match self.signature {
            Some(signature) => Some(signature),
            None => self.annotation,
        }
    }
}

/// An item of a block, with a signature joined to the binding after it.
#[derive(Debug)]
#[allow(inconsistent_fields)]
pub enum MergedItem<'a> {
    Binding(LocalBinding<'a>),
    PatternBinding { pattern: &'a Expr, value: &'a Expr },
    SpreadBinding { value: &'a Expr },
    MethodAttachment { span: Span },
    Signature { name: &'a str, annotation: &'a Expr },
    Expr(&'a Expr),
}

/// A step of checking a block.
#[derive(Debug)]
#[allow(inconsistent_fields)]
pub enum BlockStep<'a> {
    /// Names are bound until the block closes.
    Open,
    Binding(LocalBinding<'a>),
    PatternBinding { pattern: &'a Expr, value: &'a Expr },
    SpreadBinding { value: &'a Expr },
    /// A name has the type of its signature.
    Declare { name: &'a str, annotation: &'a Expr },
    /// Methods are attached at the top level only.
    NestedAttachment { span: Span },
    /// A value that is dropped must not be a result.
    Dropped(&'a Expr),
    /// A value is checked.
    Value(&'a Expr),
    /// The last value is held against the expected type.
    Against(&'a Expr),
    Close,
}

/// A step of checking a block.
#[allow(inconsistent_fields)]
pub ghost enum SpecBlockStep {
    Open,
    Binding(SpecLocalBinding),
    PatternBinding { pattern: Expr, value: Expr },
    SpreadBinding { value: Expr },
    Declare { name: Seq<char>, annotation: Expr },
    NestedAttachment { span: Span },
    Dropped(Expr),
    Value(Expr),
    Against(Expr),
    Close,
}

impl<'a> BlockStep<'a> {
    pub open spec fn view(&self) -> SpecBlockStep {
        match *self {
            BlockStep::Open => SpecBlockStep::Open,
            BlockStep::Binding(binding) => SpecBlockStep::Binding(binding@),
            BlockStep::PatternBinding { pattern, value } => SpecBlockStep::PatternBinding {
                pattern: *pattern,
                value: *value,
            },
            BlockStep::SpreadBinding { value } => SpecBlockStep::SpreadBinding { value: *value },
            BlockStep::Declare { name, annotation } => SpecBlockStep::Declare {
                name: name@,
                annotation: *annotation,
            },
            BlockStep::NestedAttachment { span } => SpecBlockStep::NestedAttachment { span },
            BlockStep::Dropped(expr) => SpecBlockStep::Dropped(*expr),
            BlockStep::Value(expr) => SpecBlockStep::Value(*expr),
            BlockStep::Against(expr) => SpecBlockStep::Against(*expr),
            BlockStep::Close => SpecBlockStep::Close,
        }
    }
}

pub open spec fn block_steps_view(steps: Seq<BlockStep<'_>>) -> Seq<SpecBlockStep> {
    Seq::new(steps.len(), |i: int| steps[i]@)
}

/// The steps for one item of a block. With an expected type the last value is held
/// against it, and attached methods are passed over.
pub open spec fn item_steps(item: MergedItem<'_>, last: bool, expected: bool) -> Seq<
    SpecBlockStep,
> {
    match item {
        MergedItem::Binding(binding) => seq![SpecBlockStep::Binding(binding@)],
        MergedItem::PatternBinding { pattern, value } => seq![
            SpecBlockStep::PatternBinding { pattern: *pattern, value: *value },
        ],
        MergedItem::SpreadBinding { value } => seq![SpecBlockStep::SpreadBinding { value: *value }],
        MergedItem::MethodAttachment { span } => if expected {
            Seq::empty()
        } else {
            seq![SpecBlockStep::NestedAttachment { span }]
        },
        MergedItem::Signature { name, annotation } => seq![
            SpecBlockStep::Declare { name: name@, annotation: *annotation },
        ],
        MergedItem::Expr(expr) => if !last {
            seq![SpecBlockStep::Dropped(*expr), SpecBlockStep::Value(*expr)]
        } else if expected {
            seq![SpecBlockStep::Against(*expr)]
        } else {
            seq![SpecBlockStep::Value(*expr)]
        },
    }
}

/// The steps for the first items of a block.
pub open spec fn items_steps(items: Seq<MergedItem<'_>>, expected: bool, count: nat) -> Seq<
    SpecBlockStep,
>
    decreases count,
{
    if count == 0 || count > items.len() {
        Seq::empty()
    } else {
        items_steps(items, expected, (count - 1) as nat) + item_steps(
            items[count - 1],
            count == items.len(),
            expected,
        )
    }
}

/// The steps of checking a block.
pub open spec fn block_steps(items: Seq<MergedItem<'_>>, expected: bool) -> Seq<SpecBlockStep> {
    seq![SpecBlockStep::Open] + items_steps(items, expected, items.len()) + seq![
        SpecBlockStep::Close,
    ]
}

fn take_block_step<'a>(steps: &mut Vec<BlockStep<'a>>, step: BlockStep<'a>)
    ensures
        block_steps_view(final(steps)@) == block_steps_view(old(steps)@).push(step@),
{
    steps.push(step);
    assert(block_steps_view(steps@) =~= block_steps_view(old(steps)@).push(step@));
}

fn list_item_steps<'a>(
    item: &MergedItem<'a>,
    last: bool,
    expected: bool,
    steps: &mut Vec<BlockStep<'a>>,
)
    ensures
        block_steps_view(final(steps)@) == block_steps_view(old(steps)@) + item_steps(
            *item,
            last,
            expected,
        ),
{
    let ghost before = block_steps_view(steps@);
    match *item {
        MergedItem::Binding(binding) => {
            take_block_step(steps, BlockStep::Binding(binding));
        },
        MergedItem::PatternBinding { pattern, value } => {
            take_block_step(steps, BlockStep::PatternBinding { pattern, value });
        },
        MergedItem::SpreadBinding { value } => {
            take_block_step(steps, BlockStep::SpreadBinding { value });
        },
        MergedItem::MethodAttachment { span } => {
            if !expected {
                take_block_step(steps, BlockStep::NestedAttachment { span });
            }
        },
        MergedItem::Signature { name, annotation } => {
            take_block_step(steps, BlockStep::Declare { name, annotation });
        },
        MergedItem::Expr(expr) => {
            if !last {
                take_block_step(steps, BlockStep::Dropped(expr));
                take_block_step(steps, BlockStep::Value(expr));
            } else if expected {
                take_block_step(steps, BlockStep::Against(expr));
            } else {
                take_block_step(steps, BlockStep::Value(expr));
            }
        },
    }
    assert(block_steps_view(steps@) =~= before + item_steps(*item, last, expected));
}

fn list_steps<'a>(items: &Vec<MergedItem<'a>>, expected: bool) -> (steps: Vec<BlockStep<'a>>)
    ensures
        block_steps_view(steps@) == block_steps(items@, expected),
{
    let mut steps: Vec<BlockStep<'a>> = Vec::new();
    assert(block_steps_view(steps@) =~= Seq::empty());
    take_block_step(&mut steps, BlockStep::Open);
    let ghost first = seq![SpecBlockStep::Open];
    let mut index: usize = 0;
    assert(block_steps_view(steps@) =~= first + items_steps(items@, expected, 0));
    while index < items.len()
        invariant
            index <= items.len(),
            block_steps_view(steps@) == first + items_steps(items@, expected, index as nat),
        decreases items.len() - index,
    {
        list_item_steps(&items[index], index + 1 == items.len(), expected, &mut steps);
        assert(block_steps_view(steps@) =~= first + items_steps(
            items@,
            expected,
            (index + 1) as nat,
        ));
        index += 1;
    }
    take_block_step(&mut steps, BlockStep::Close);
    assert(block_steps_view(steps@) =~= block_steps(items@, expected));
    steps
}

/// List the steps of checking a block.
pub fn check_items<'a>(items: &Vec<MergedItem<'a>>) -> (steps: Vec<BlockStep<'a>>)
    ensures
        block_steps_view(steps@) == block_steps(items@, false),
{
    list_steps(items, false)
}

/// List the steps of holding a block against a type.
pub fn check_block_against<'a>(items: &Vec<MergedItem<'a>>) -> (steps: Vec<BlockStep<'a>>)
    ensures
        block_steps_view(steps@) == block_steps(items@, true),
{
    list_steps(items, true)
}

/// How an item of a block binds names while its type is found.
#[derive(Debug)]
#[allow(inconsistent_fields)]
pub enum BlockBinding<'a> {
    /// A name has the type of its annotation.
    Declared { name: &'a str, annotation: &'a Expr },
    /// A name has the type that is found for its value.
    Inferred { name: &'a str, value: &'a Expr },
    /// The names of a pattern have the types that it gives them.
    Pattern { pattern: &'a Expr, value: &'a Expr },
    /// The fields of a closed record are bound.
    Spread { value: &'a Expr },
}

/// How an item of a block binds names.
#[allow(inconsistent_fields)]
pub ghost enum SpecBlockBinding {
    Declared { name: Seq<char>, annotation: Expr },
    Inferred { name: Seq<char>, value: Expr },
    Pattern { pattern: Expr, value: Expr },
    Spread { value: Expr },
}

impl<'a> BlockBinding<'a> {
    pub open spec fn view(&self) -> SpecBlockBinding {
        match *self {
            BlockBinding::Declared { name, annotation } => SpecBlockBinding::Declared {
                name: name@,
                annotation: *annotation,
            },
            BlockBinding::Inferred { name, value } => SpecBlockBinding::Inferred {
                name: name@,
                value: *value,
            },
            BlockBinding::Pattern { pattern, value } => SpecBlockBinding::Pattern {
                pattern: *pattern,
                value: *value,
            },
            BlockBinding::Spread { value } => SpecBlockBinding::Spread { value: *value },
        }
    }
}

pub open spec fn block_bindings_view(bindings: Seq<BlockBinding<'_>>) -> Seq<SpecBlockBinding> {
    Seq::new(bindings.len(), |i: int| bindings[i]@)
}

/// How one item binds names, if it does.
pub open spec fn item_binding(item: MergedItem<'_>) -> Option<SpecBlockBinding> {
    match item {
        MergedItem::Binding(binding) => match binding.declared() {
            Some(annotation) => Some(
                SpecBlockBinding::Declared { name: binding.name@, annotation: *annotation },
            ),
            None => Some(
                SpecBlockBinding::Inferred { name: binding.name@, value: *binding.value },
            ),
        },
        MergedItem::PatternBinding { pattern, value } => Some(
            SpecBlockBinding::Pattern { pattern: *pattern, value: *value },
        ),
        MergedItem::SpreadBinding { value } => Some(SpecBlockBinding::Spread { value: *value }),
        MergedItem::Signature { name, annotation } => Some(
            SpecBlockBinding::Declared { name: name@, annotation: *annotation },
        ),
        _ => None,
    }
}

/// How the first items of a block bind names, in order.
pub open spec fn item_bindings(items: Seq<MergedItem<'_>>, count: nat) -> Seq<SpecBlockBinding>
    decreases count,
{
    if count == 0 || count > items.len() {
        Seq::empty()
    } else {
        let earlier = item_bindings(items, (count - 1) as nat);
        match item_binding(items[count - 1]) {
            Some(binding) => earlier.push(binding),
            None => earlier,
        }
    }
}

/// How the type of a block is found: the names that it binds, and the value that it
/// ends with. A block that does not end with a value has no known type.
#[derive(Debug)]
pub struct BlockPlan<'a> {
    pub bindings: Vec<BlockBinding<'a>>,
    pub result: Option<&'a Expr>,
}

/// Find out how the type of a block is found.
pub fn infer_block<'a>(items: &Vec<MergedItem<'a>>) -> (plan: BlockPlan<'a>)
    ensures
        block_bindings_view(plan.bindings@) == item_bindings(items@, items@.len()),
        match plan.result {
            Some(value) => items@.len() > 0 && items@.last() is Expr && *items@.last()->Expr_0
                == *value,
            None => items@.len() == 0 || !(items@.last() is Expr),
        },
{
    let mut bindings: Vec<BlockBinding<'a>> = Vec::new();
    let mut index: usize = 0;
    assert(block_bindings_view(bindings@) =~= Seq::empty());
    while index < items.len()
        invariant
            index <= items.len(),
            block_bindings_view(bindings@) == item_bindings(items@, index as nat),
        decreases items.len() - index,
    {
        let ghost earlier = block_bindings_view(bindings@);
        let found = match items[index] {
            MergedItem::Binding(binding) => match declared_annotation(&binding) {
                Some(annotation) => Some(
                    BlockBinding::Declared { name: binding.name, annotation },
                ),
                None => Some(BlockBinding::Inferred { name: binding.name, value: binding.value }),
            },
            MergedItem::PatternBinding { pattern, value } => Some(
                BlockBinding::Pattern { pattern, value },
            ),
            MergedItem::SpreadBinding { value } => Some(BlockBinding::Spread { value }),
            MergedItem::Signature { name, annotation } => Some(
                BlockBinding::Declared { name, annotation },
            ),
            _ => None,
        };
        if let Some(binding) = found {
            bindings.push(binding);
            assert(block_bindings_view(bindings@) =~= earlier.push(binding@));
        }
        index += 1;
    }
    let result = if items.len() == 0 {
        None
    } else {
        match items[items.len() - 1] {
            MergedItem::Expr(value) => Some(value),
            _ => None,
        }
    };
    BlockPlan { bindings, result }
}

// ---------------------------------------------------------------------------
// Local names
// ---------------------------------------------------------------------------
/// A name that a block binds.
pub ghost struct SpecLocalBinding {
    pub name: Seq<char>,
    pub name_span: Span,
    pub signature: Option<Expr>,
    pub annotation: Option<Expr>,
    pub value: Expr,
}

pub open spec fn annotation_view(annotation: Option<&Expr>) -> Option<Expr> {
    match annotation {
        Some(annotation) => Some(*annotation),
        None => None,
    }
}

impl<'a> LocalBinding<'a> {
    pub open spec fn view(&self) -> SpecLocalBinding {
        SpecLocalBinding {
            name: self.name@,
            name_span: self.name_span,
            signature: annotation_view(self.signature),
            annotation: annotation_view(self.annotation),
            value: *self.value,
        }
    }
}

/// The annotation of a binding that counts.
pub fn declared_annotation<'a>(binding: &LocalBinding<'a>) -> (annotation: Option<&'a Expr>)
    ensures
        annotation == binding.declared(),
{
    match binding.signature {
        Some(signature) => Some(signature),
        None => binding.annotation,
    }
}

/// A step of checking a local binding.
#[derive(Debug)]
#[allow(inconsistent_fields)]
pub enum BindingStep<'a> {
    /// A runtime value must not be a type.
    CheckLiftability(&'a Expr),
    /// The type of an annotation is found.
    Lower(&'a Expr),
    /// The value is held against the annotation that counts.
    CheckAgainst { annotation: &'a Expr, value: &'a Expr },
    /// The type of the value is found and generalized.
    Infer(&'a Expr),
    /// The value is checked.
    CheckValue(&'a Expr),
    /// A type that could not be found is reported.
    ReportIfStuck(&'a Expr),
    /// The type of the annotation is noted at the name.
    RecordDeclared { annotation: &'a Expr, span: Span },
    /// The type that was found is noted at the name.
    RecordInferred { span: Span },
    /// The name is bound.
    Define(&'a str),
}

/// A step of checking a local binding.
#[allow(inconsistent_fields)]
pub ghost enum SpecBindingStep {
    CheckLiftability(Expr),
    Lower(Expr),
    CheckAgainst { annotation: Expr, value: Expr },
    Infer(Expr),
    CheckValue(Expr),
    ReportIfStuck(Expr),
    RecordDeclared { annotation: Expr, span: Span },
    RecordInferred { span: Span },
    Define(Seq<char>),
}

impl<'a> BindingStep<'a> {
    pub open spec fn view(&self) -> SpecBindingStep {
        match *self {
            BindingStep::CheckLiftability(value) => SpecBindingStep::CheckLiftability(*value),
            BindingStep::Lower(annotation) => SpecBindingStep::Lower(*annotation),
            BindingStep::CheckAgainst { annotation, value } => SpecBindingStep::CheckAgainst {
                annotation: *annotation,
                value: *value,
            },
            BindingStep::Infer(value) => SpecBindingStep::Infer(*value),
            BindingStep::CheckValue(value) => SpecBindingStep::CheckValue(*value),
            BindingStep::ReportIfStuck(value) => SpecBindingStep::ReportIfStuck(*value),
            BindingStep::RecordDeclared { annotation, span } => SpecBindingStep::RecordDeclared {
                annotation: *annotation,
                span,
            },
            BindingStep::RecordInferred { span } => SpecBindingStep::RecordInferred { span },
            BindingStep::Define(name) => SpecBindingStep::Define(name@),
        }
    }
}

pub open spec fn binding_steps_view(steps: Seq<BindingStep<'_>>) -> Seq<SpecBindingStep> {
    Seq::new(steps.len(), |i: int| steps[i]@)
}

/// The step that finds the type of an annotation, if there is one.
pub open spec fn lowering_step(annotation: Option<&Expr>) -> Seq<SpecBindingStep> {
    match annotation {
        Some(annotation) => seq![SpecBindingStep::Lower(*annotation)],
        None => Seq::empty(),
    }
}

/// The steps of checking a local binding.
pub open spec fn binding_steps(binding: LocalBinding<'_>) -> Seq<SpecBindingStep> {
    let value = *binding.value;
    seq![SpecBindingStep::CheckLiftability(value)] + lowering_step(binding.signature)
        + lowering_step(binding.annotation) + (match binding.declared() {
        Some(annotation) => seq![
            SpecBindingStep::CheckAgainst { annotation: *annotation, value },
            SpecBindingStep::RecordDeclared { annotation: *annotation, span: binding.name_span },
        ],
        None => seq![
            SpecBindingStep::Infer(value),
            SpecBindingStep::CheckValue(value),
            SpecBindingStep::ReportIfStuck(value),
            SpecBindingStep::RecordInferred { span: binding.name_span },
        ],
    }) + seq![SpecBindingStep::Define(binding.name@)]
}

/// List the steps of checking a local binding.
pub fn check_local_binding<'a>(binding: &LocalBinding<'a>) -> (steps: Vec<BindingStep<'a>>)
    ensures
        binding_steps_view(steps@) == binding_steps(*binding),
{
    let mut steps: Vec<BindingStep<'a>> = Vec::new();
    steps.push(BindingStep::CheckLiftability(binding.value));
    if let Some(signature) = binding.signature {
        steps.push(BindingStep::Lower(signature));
    }
    if let Some(annotation) = binding.annotation {
        steps.push(BindingStep::Lower(annotation));
    }
    match declared_annotation(binding) {
        Some(annotation) => {
            steps.push(BindingStep::CheckAgainst { annotation, value: binding.value });
            steps.push(BindingStep::RecordDeclared { annotation, span: binding.name_span });
        },
        None => {
            steps.push(BindingStep::Infer(binding.value));
            steps.push(BindingStep::CheckValue(binding.value));
            steps.push(BindingStep::ReportIfStuck(binding.value));
            steps.push(BindingStep::RecordInferred { span: binding.name_span });
        },
    }
    steps.push(BindingStep::Define(binding.name));
    assert(binding_steps_view(steps@) =~= binding_steps(*binding));
    steps
}

// ---------------------------------------------------------------------------
// Laws
// ---------------------------------------------------------------------------
/// Every value of a block but the last is looked at as one that is dropped, whatever
/// is expected of the block.
pub proof fn only_last_values_are_kept(items: Seq<MergedItem<'_>>, expected: bool, index: int)
    requires
        0 <= index < items.len() - 1,
        items[index] is Expr,
    ensures
        item_steps(items[index], index + 1 == items.len(), expected).contains(
            SpecBlockStep::Dropped(*items[index]->Expr_0),
        ),
{
    let steps = item_steps(items[index], false, expected);
    assert(steps[0] == SpecBlockStep::Dropped(*items[index]->Expr_0));
}

/// A type variable that an enclosing declaration owns is never replaced.
pub proof fn rigid_variables_are_kept(
    scopes: Seq<Map<Seq<char>, SpecType>>,
    names: Seq<Seq<char>>,
    rigid: Seq<StringSet>,
    name: Seq<char>,
)
    requires
        is_rigid(rigid, name),
    ensures
        !inline_bindings(scopes, names, rigid).contains_key(name),
{
}

/// A type variable that has a metavariable keeps it when more names are read.
pub proof fn known_variables_are_kept(
    scopes: Seq<Map<Seq<char>, SpecType>>,
    names: Seq<Seq<char>>,
    rigid: Seq<StringSet>,
    first: int,
    name: Seq<char>,
)
    requires
        nearest_type(scopes, name) is Some,
    ensures
        nearest_type(scopes_with(scopes, names, rigid, first).0, name) == nearest_type(
            scopes,
            name,
        ),
    decreases names.len(),
{
    if names.len() > 0 {
        let (known, next) = scopes_with(scopes, names.drop_last(), rigid, first);
        known_variables_are_kept(scopes, names.drop_last(), rigid, first, name);
        scopes_keep_count(scopes, names.drop_last(), rigid, first);
        let after = scopes_with(scopes, names, rigid, first).0;
        if after != known {
            assert(names.last() != name);
            assert(after.drop_last() =~= known.drop_last());
            assert(after.last() == known.last().insert(names.last(), SpecType::Meta(next as u32)));
        }
    }
}

} // verus!
