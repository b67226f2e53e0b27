//! Whether a value of one type can stand where another is expected.
use crate::collections::{StringMap, StringSet};
use crate::normalize::{
    normal_form, type_admits_undefined, unfold_recursive_type_once, RecursiveTypes,
};
use crate::rows::{
    all_fields, all_literals, all_tags, applied_type_constructor_mismatch, last_payload,
    literal_fits_base, literal_union_accepts_base_type, literal_variant_members, literals_view,
    lists_literal, reportable_type_shape, result_parts, result_type_args, row_has_literal_entries,
    tag_of, tags_view, type_view, unknown_shape, variant_payload_lookup, variant_tags,
};
use crate::syntax::{
    added_name, is_added_field, lists_fields, literal_record_value, Expr, RecordEntry,
    ValueRecordField,
};
use crate::text::same_text;
use crate::type_ops::{
    float_text, free_metas, is_float_literal_text, is_named, literal_base, literal_variant_base,
    metas, row_base, type_map_view, type_variable_names, variables, base_of,
};
use crate::types::{
    types_view, Literal, RecursiveTypeId, Row, RowEntry, RowTail, SpecLiteral, SpecRow,
    SpecRowEntry, SpecType, Type,
};
use vstd::prelude::*;

verus! {

// ---------------------------------------------------------------------------
// Literals of primitive families
// ---------------------------------------------------------------------------
/// The builtin type of a literal.
pub open spec fn literal_type_name(literal: SpecLiteral) -> Option<Seq<char>> {
    match literal {
        SpecLiteral::Bool(_) => Some("Bool"@),
        SpecLiteral::String(_) => Some("Text"@),
        SpecLiteral::Number(text) => if float_text(text) {
            Some("Float"@)
        } else {
            Some("Int"@)
        },
        SpecLiteral::Regex(_) => None,
    }
}

/// The builtin type of a literal.
pub fn primitive_literal_base_name(literal: &Literal) -> (name: Option<&'static str>)
    ensures
        match name {
            Some(name) => literal_type_name(literal@) == Some(name@),
            None => literal_type_name(literal@) is None,
        },
{
    match literal {
        Literal::Bool(_) => Some("Bool"),
        Literal::String(_) => Some("Text"),
        Literal::Number(number) => if is_float_literal_text(number.as_str()) {
            Some("Float")
        } else {
            Some("Int")
        },
        Literal::Regex(_) => None,
    }
}

/// Whether a literal is one of a family's base.
pub fn primitive_literal_matches_base(literal: &Literal, base: &Type) -> (matching: bool)
    ensures
        matching == (base@ is Named && literal_type_name(literal@) == Some(base@->Named_0)),
{
    match base {
        Type::Named(name) => match primitive_literal_base_name(literal) {
            Some(found) => same_text(found, name.as_str()),
            None => false,
        },
        _ => false,
    }
}

// ---------------------------------------------------------------------------
// The context
// ---------------------------------------------------------------------------
/// What a comparison of types goes by.
pub struct ComparisonContext {
    pub known_types: StringSet,
    /// The owners of the named families.
    pub family_owners: StringSet,
    /// The builtin bases of the families, by the names that they go by.
    pub family_bases: StringMap<Type>,
    /// The data of the families, by the names that they go by.
    pub family_data: StringMap<Type>,
    /// The type variables that only unify with themselves.
    pub rigid: StringSet,
    pub recursive: RecursiveTypes,
    /// The recursive references that are being compared.
    pub active: Vec<RecursiveTypeId>,
}

/// What a comparison of types goes by.
pub ghost struct SpecComparison {
    pub known_types: Set<Seq<char>>,
    pub family_owners: Set<Seq<char>>,
    pub family_bases: Map<Seq<char>, SpecType>,
    pub family_data: Map<Seq<char>, SpecType>,
    pub rigid: Set<Seq<char>>,
    pub recursive: RecursiveTypes,
    pub active: Seq<RecursiveTypeId>,
}

impl ComparisonContext {
    pub open spec fn view(&self) -> SpecComparison {
        SpecComparison {
            known_types: self.known_types@,
            family_owners: self.family_owners@,
            family_bases: type_map_view(self.family_bases@),
            family_data: type_map_view(self.family_data@),
            rigid: self.rigid@,
            recursive: self.recursive,
            active: self.active@,
        }
    }
}

/// The builtin base of the family that a type names.
pub open spec fn base_view(bases: Map<Seq<char>, SpecType>, ty: SpecType) -> Option<SpecType> {
    match ty {
        SpecType::Named(name) => if bases.contains_key(name) {
            Some(bases[name])
        } else {
            None
        },
        _ => None,
    }
}

fn family_view<'a>(views: &'a StringMap<Type>, ty: &Type) -> (view: Option<&'a Type>)
    ensures
        type_view(view) == base_view(type_map_view(views@), ty@),
{
    match ty {
        Type::Named(name) => views.get(name.as_str()),
        _ => None,
    }
}

// ---------------------------------------------------------------------------
// Nested widening
// ---------------------------------------------------------------------------
/// Whether a family would count as its base somewhere inside a type. Only the
/// type as a whole may.
pub open spec fn widens_inside(
    bases: Map<Seq<char>, SpecType>,
    expected: SpecType,
    actual: SpecType,
) -> bool
    decreases expected,
{
    base_view(bases, actual) == Some(expected) || match (expected, actual) {
        (
            SpecType::Apply { callee: expected_callee, args: expected_args },
            SpecType::Apply { callee: actual_callee, args: actual_args },
        ) => widens_inside(bases, *expected_callee, *actual_callee) || some_widens(
            bases,
            expected_args,
            actual_args,
        ),
        (SpecType::Optional(expected_inner), SpecType::Optional(actual_inner)) => widens_inside(
            bases,
            *expected_inner,
            *actual_inner,
        ),
        (SpecType::Nullable(expected_inner), SpecType::Nullable(actual_inner)) => widens_inside(
            bases,
            *expected_inner,
            *actual_inner,
        ),
        (SpecType::Tuple(expected_items), SpecType::Tuple(actual_items)) => some_widens(
            bases,
            expected_items,
            actual_items,
        ),
        (
            SpecType::Function { params: expected_params, result: expected_result, .. },
            SpecType::Function { params: actual_params, result: actual_result, .. },
        ) => some_widens(bases, expected_params, actual_params) || widens_inside(
            bases,
            *expected_result,
            *actual_result,
        ),
        (SpecType::Record(expected_row), SpecType::Record(actual_row)) => some_field_widens(
            bases,
            expected_row,
            actual_row,
        ),
        _ => false,
    }
}

pub open spec fn some_widens(
    bases: Map<Seq<char>, SpecType>,
    expected: Seq<SpecType>,
    actual: Seq<SpecType>,
) -> bool
    decreases expected,
{
    exists|i: int|
        0 <= i < expected.len() && i < actual.len() && widens_inside(
            bases,
            #[trigger] expected[i],
            actual[i],
        )
}

pub open spec fn some_field_widens(
    bases: Map<Seq<char>, SpecType>,
    expected: SpecRow,
    actual: SpecRow,
) -> bool
    decreases expected,
{
    exists|i: int|
        0 <= i < expected.entries.len() && entry_widens(
            bases,
            #[trigger] expected.entries[i],
            actual,
        )
}

pub open spec fn entry_widens(
    bases: Map<Seq<char>, SpecType>,
    expected: SpecRowEntry,
    actual: SpecRow,
) -> bool
    decreases expected,
{
    match expected {
        SpecRowEntry::Field { name, ty } => exists|j: int|
            0 <= j < actual.entries.len() && (#[trigger] actual.entries[j]) is Field
                && actual.entries[j]->Field_name == name && widens_inside(
                bases,
                ty,
                actual.entries[j]->Field_ty,
            ),
        _ => false,
    }
}

/// Whether a family would count as its base somewhere inside a type.
pub fn contains_nested_primitive_family_widening(
    bases: &StringMap<Type>,
    expected: &Type,
    actual: &Type,
) -> (widens: bool)
    ensures
        widens == widens_inside(type_map_view(bases@), expected@, actual@),
    decreases expected,
{
    if let Some(base) = family_view(bases, actual) {
        if *base == *expected {
            return true;
        }
    }
    match (expected, actual) {
        (
            Type::Apply { callee: expected_callee, args: expected_args },
            Type::Apply { callee: actual_callee, args: actual_args },
        ) => contains_nested_primitive_family_widening(bases, expected_callee, actual_callee)
            || some_pair_widens(bases, expected_args, actual_args),
        (Type::Optional(expected_inner), Type::Optional(actual_inner)) => {
            contains_nested_primitive_family_widening(bases, expected_inner, actual_inner)
        },
        (Type::Nullable(expected_inner), Type::Nullable(actual_inner)) => {
            contains_nested_primitive_family_widening(bases, expected_inner, actual_inner)
        },
        (Type::Tuple(expected_items), Type::Tuple(actual_items)) => some_pair_widens(
            bases,
            expected_items,
            actual_items,
        ),
        (
            Type::Function { params: expected_params, result: expected_result, .. },
            Type::Function { params: actual_params, result: actual_result, .. },
        ) => some_pair_widens(bases, expected_params, actual_params)
            || contains_nested_primitive_family_widening(bases, expected_result, actual_result),
        (Type::Record(expected_row), Type::Record(actual_row)) => some_field_pair_widens(
            bases,
            expected_row,
            actual_row,
        ),
        _ => false,
    }
}

fn some_pair_widens(bases: &StringMap<Type>, expected: &Vec<Type>, actual: &Vec<Type>) -> (widens:
    bool)
    ensures
        widens == some_widens(
            type_map_view(bases@),
            types_view(expected@),
            types_view(actual@),
        ),
    decreases expected,
{
    let mut index: usize = 0;
    while index < expected.len() && index < actual.len()
        invariant
            index <= expected.len(),
            index <= actual.len(),
            forall|i: int|
                0 <= i < index ==> !widens_inside(
                    type_map_view(bases@),
                    #[trigger] types_view(expected@)[i],
                    types_view(actual@)[i],
                ),
        decreases expected.len() - index,
    {
        assert(types_view(expected@)[index as int] == expected@[index as int]@);
        assert(types_view(actual@)[index as int] == actual@[index as int]@);
        if contains_nested_primitive_family_widening(bases, &expected[index], &actual[index]) {
            return true;
        }
        index += 1;
    }
    false
}

fn some_field_pair_widens(bases: &StringMap<Type>, expected: &Row, actual: &Row) -> (widens: bool)
    ensures
        widens == some_field_widens(type_map_view(bases@), expected@, actual@),
    decreases expected,
{
    let mut index: usize = 0;
    while index < expected.entries.len()
        invariant
            index <= expected.entries.len(),
            forall|i: int|
                0 <= i < index ==> !entry_widens(
                    type_map_view(bases@),
                    #[trigger] expected@.entries[i],
                    actual@,
                ),
        decreases expected.entries.len() - index,
    {
        assert(expected@.entries[index as int] == expected.entries@[index as int]@);
        if let RowEntry::Field { name, ty } = &expected.entries[index] {
            let mut other: usize = 0;
            while other < actual.entries.len()
                invariant
                    index < expected.entries.len(),
                    other <= actual.entries.len(),
                    expected.entries@[index as int] == (RowEntry::Field { name: *name, ty: *ty }),
                    expected@.entries[index as int] == expected.entries@[index as int]@,
                    forall|j: int|
                        0 <= j < other ==> !((#[trigger] actual@.entries[j]) is Field
                            && actual@.entries[j]->Field_name == name@ && widens_inside(
                            type_map_view(bases@),
                            ty@,
                            actual@.entries[j]->Field_ty,
                        )),
                decreases actual.entries.len() - other,
            {
                assert(actual@.entries[other as int] == actual.entries@[other as int]@);
                if let RowEntry::Field { name: actual_name, ty: actual_ty } =
                    &actual.entries[other] {
                    if same_text(actual_name.as_str(), name.as_str())
                        && contains_nested_primitive_family_widening(bases, ty, actual_ty) {
                        assert(entry_widens(
                            type_map_view(bases@),
                            expected@.entries[index as int],
                            actual@,
                        ));
                        return true;
                    }
                }
                other += 1;
            }
        }
        index += 1;
    }
    false
}

// ---------------------------------------------------------------------------
// One step of a comparison
// ---------------------------------------------------------------------------
/// How a type is written in a message about a mismatch.
#[derive(Debug, Clone, Copy, PartialEq, Eq, Structural)]
pub enum Written {
    AsType,
    /// A named type by its bare name.
    AsName,
    AsInferred,
}

/// What follows for a type that is expected and one that is there.
#[derive(Debug)]
#[allow(inconsistent_fields)]
pub enum TypeStep {
    /// The value fits.
    Accept,
    /// The value fits, and counts as the base of its family.
    Widen,
    /// The types do not match.
    Mismatch { expected: Written, actual: Written },
    /// A record does not carry the methods of a family.
    ConstructExplicitly,
    TupleArity { expected: usize, found: usize },
    FunctionArity { expected: usize, found: usize },
    /// The variable unifies only with itself.
    RigidVariable(String),
    /// These types are compared, each expected one with the one that is there.
    Compare(Vec<(Type, Type)>),
    /// These types are compared while the recursive reference counts as equal.
    Unfold { id: RecursiveTypeId, expected: Type, actual: Type },
    /// The types must unify after the variables of the one that is there are
    /// made anew.
    UnifyInstantiated,
    /// The types must unify.
    Unify,
    /// The tags of a variant are compared with those of a result.
    ResultVariant,
    /// A named type is compared with a variant.
    NamedAgainstVariant,
    /// A variant is compared with a named type.
    VariantAgainstNamed,
    Records,
    Variants,
}

/// What follows for a type that is expected and one that is there.
#[allow(inconsistent_fields)]
pub ghost enum SpecStep {
    Accept,
    Widen,
    Mismatch { expected: Written, actual: Written },
    ConstructExplicitly,
    TupleArity { expected: nat, found: nat },
    FunctionArity { expected: nat, found: nat },
    RigidVariable(Seq<char>),
    Compare(Seq<(SpecType, SpecType)>),
    Unfold { id: RecursiveTypeId, expected: SpecType, actual: SpecType },
    UnifyInstantiated,
    Unify,
    ResultVariant,
    NamedAgainstVariant,
    VariantAgainstNamed,
    Records,
    Variants,
}

pub open spec fn pairs_view(pairs: Seq<(Type, Type)>) -> Seq<(SpecType, SpecType)> {
    Seq::new(pairs.len(), |i: int| (pairs[i].0@, pairs[i].1@))
}

impl TypeStep {
    pub open spec fn view(&self) -> SpecStep {
        match self {
            TypeStep::Accept => SpecStep::Accept,
            TypeStep::Widen => SpecStep::Widen,
            TypeStep::Mismatch { expected, actual } => SpecStep::Mismatch {
                expected: *expected,
                actual: *actual,
            },
            TypeStep::ConstructExplicitly => SpecStep::ConstructExplicitly,
            TypeStep::TupleArity { expected, found } => SpecStep::TupleArity {
                expected: *expected as nat,
                found: *found as nat,
            },
            TypeStep::FunctionArity { expected, found } => SpecStep::FunctionArity {
                expected: *expected as nat,
                found: *found as nat,
            },
            TypeStep::RigidVariable(name) => SpecStep::RigidVariable(name@),
            TypeStep::Compare(pairs) => SpecStep::Compare(pairs_view(pairs@)),
            TypeStep::Unfold { id, expected, actual } => SpecStep::Unfold {
                id: *id,
                expected: expected@,
                actual: actual@,
            },
            TypeStep::UnifyInstantiated => SpecStep::UnifyInstantiated,
            TypeStep::Unify => SpecStep::Unify,
            TypeStep::ResultVariant => SpecStep::ResultVariant,
            TypeStep::NamedAgainstVariant => SpecStep::NamedAgainstVariant,
            TypeStep::VariantAgainstNamed => SpecStep::VariantAgainstNamed,
            TypeStep::Records => SpecStep::Records,
            TypeStep::Variants => SpecStep::Variants,
        }
    }
}

pub open spec fn types_mismatch() -> SpecStep {
    SpecStep::Mismatch { expected: Written::AsType, actual: Written::AsType }
}

fn mismatch() -> (step: TypeStep)
    ensures
        step@ == types_mismatch(),
{
    TypeStep::Mismatch { expected: Written::AsType, actual: Written::AsType }
}

/// Pairs of the types of two lists of one length.
pub open spec fn zipped(left: Seq<SpecType>, right: Seq<SpecType>) -> Seq<(SpecType, SpecType)> {
    Seq::new(left.len(), |i: int| (left[i], right[i]))
}

/// Whether a type is a record, a tuple or a function.
pub open spec fn is_structural(ty: SpecType) -> bool {
    ty is Record || ty is Tuple || ty is Function
}

fn structural(ty: &Type) -> (is: bool)
    ensures
        is == is_structural(ty@),
{
    matches!(ty, Type::Record(_)) || matches!(ty, Type::Tuple(_)) || matches!(
        ty,
        Type::Function { .. }
    )
}

/// What follows for two function types of as many parameters. A function that is
/// there with variables of its own, or with unknown types, is made to fit as a
/// whole; otherwise parameters are compared the other way round.
pub open spec fn function_step(
    context: SpecComparison,
    expected: SpecType,
    actual: SpecType,
) -> SpecStep {
    let expected_params = expected->Function_params;
    let actual_params = actual->Function_params;
    if expected_params.len() != actual_params.len() {
        SpecStep::FunctionArity { expected: expected_params.len(), found: actual_params.len() }
    } else if exists|name: Seq<char>|
        variables(actual).contains(name) && !(#[trigger] context.rigid.contains(name)) {
        SpecStep::UnifyInstantiated
    } else if metas(actual).len() > 0 {
        SpecStep::Unify
    } else {
        SpecStep::Compare(
            zipped(actual_params, expected_params).push(
                (*expected->Function_result, *actual->Function_result),
            ),
        )
    }
}

/// What follows for a rigid variable; nothing where neither side is one that may
/// not be what the other is.
pub open spec fn variable_step(
    context: SpecComparison,
    expected: SpecType,
    actual: SpecType,
) -> Option<SpecStep> {
    match (expected, actual) {
        (SpecType::Variable(expected_name), SpecType::Variable(actual_name)) => {
            if context.rigid.contains(expected_name) {
                Some(SpecStep::RigidVariable(expected_name))
            } else if context.rigid.contains(actual_name) {
                Some(SpecStep::RigidVariable(actual_name))
            } else {
                None
            }
        },
        (SpecType::Variable(name), _) => if !unknown_shape(actual) && context.rigid.contains(
            name,
        ) {
            Some(SpecStep::RigidVariable(name))
        } else {
            None
        },
        (_, SpecType::Variable(name)) => if !unknown_shape(expected) && context.rigid.contains(
            name,
        ) {
            Some(SpecStep::RigidVariable(name))
        } else {
            None
        },
        _ => None,
    }
}

/// What follows where a recursive reference stands on one side.
pub open spec fn recursive_step(
    context: SpecComparison,
    expected: SpecType,
    actual: SpecType,
) -> SpecStep {
    if expected is Recursive && actual is Recursive {
        types_mismatch()
    } else {
        let id = if expected is Recursive {
            expected->Recursive_0
        } else {
            actual->Recursive_0
        };
        let reference = SpecType::Recursive(id);
        let unfolded = crate::normalize::unfolded_once(reference, context.recursive);
        if context.active.contains(id) {
            SpecStep::Accept
        } else if unfolded == reference {
            types_mismatch()
        } else if expected is Recursive {
            SpecStep::Unfold { id, expected: unfolded, actual }
        } else {
            SpecStep::Unfold { id, expected, actual: unfolded }
        }
    }
}

/// What follows for the shapes of two types, neither of them a recursive
/// reference. `names_mismatch` says that two names do not go together.
pub open spec fn shape_step(
    context: SpecComparison,
    expected: SpecType,
    actual: SpecType,
    names_mismatch: bool,
) -> SpecStep {
    if expected is SlotRecord && actual is SlotRecord {
        SpecStep::Compare(
            seq![
                (
                    SpecType::Record(*expected->SlotRecord_data),
                    SpecType::Record(*actual->SlotRecord_data),
                ),
                (
                    SpecType::Record(*expected->SlotRecord_slots),
                    SpecType::Record(*actual->SlotRecord_slots),
                ),
            ],
        )
    } else if expected is SlotRecord || actual is SlotRecord {
        types_mismatch()
    } else if expected is Optional {
        if actual is Optional {
            SpecStep::Compare(seq![(*expected->Optional_0, *actual->Optional_0)])
        } else if actual == SpecType::Named("Undefined"@) {
            SpecStep::Accept
        } else {
            SpecStep::Compare(seq![(*expected->Optional_0, actual)])
        }
    } else if expected is Nullable {
        if actual is Nullable {
            SpecStep::Compare(seq![(*expected->Nullable_0, *actual->Nullable_0)])
        } else if actual == SpecType::Named("Null"@) {
            SpecStep::Accept
        } else {
            SpecStep::Compare(seq![(*expected->Nullable_0, actual)])
        }
    } else {
        plain_step(context, expected, actual, names_mismatch)
    }
}

/// Whether a name is that of a known type or of a family.
pub open spec fn is_known_name(context: SpecComparison, name: Seq<char>) -> bool {
    context.known_types.contains(name) || context.family_owners.contains(name)
}

/// What follows where the expected type admits no empty value.
pub open spec fn plain_step(
    context: SpecComparison,
    expected: SpecType,
    actual: SpecType,
    names_mismatch: bool,
) -> SpecStep {
    if expected is Named && actual is Named && names_mismatch && is_known_name(
        context,
        expected->Named_0,
    ) && is_known_name(context, actual->Named_0) {
        types_mismatch()
    } else if expected is Named && (actual is Optional || actual is Nullable)
        && context.known_types.contains(expected->Named_0) {
        SpecStep::Mismatch { expected: Written::AsName, actual: Written::AsType }
    } else if expected is Tuple && actual is Tuple {
        if expected->Tuple_0.len() != actual->Tuple_0.len() {
            SpecStep::TupleArity {
                expected: expected->Tuple_0.len(),
                found: actual->Tuple_0.len(),
            }
        } else {
            SpecStep::Compare(zipped(expected->Tuple_0, actual->Tuple_0))
        }
    } else if expected is Tuple && actual == SpecType::Named("Unit"@) && expected->Tuple_0.len()
        > 0 {
        SpecStep::TupleArity { expected: expected->Tuple_0.len(), found: 0 }
    } else if expected is Function && actual is Function {
        function_step(context, expected, actual)
    } else if expected is Apply && actual is Apply {
        if expected->Apply_args.len() != actual->Apply_args.len() || (!unknown_shape(
            *expected->Apply_callee,
        ) && !unknown_shape(*actual->Apply_callee) && *expected->Apply_callee
            != *actual->Apply_callee) {
            types_mismatch()
        } else {
            SpecStep::Compare(
                seq![(*expected->Apply_callee, *actual->Apply_callee)] + zipped(
                    expected->Apply_args,
                    actual->Apply_args,
                ),
            )
        }
    } else if result_parts(expected) is Some && actual is Variant {
        SpecStep::ResultVariant
    } else if expected is Apply && !unknown_shape(actual) {
        types_mismatch()
    } else if actual is Apply && !unknown_shape(expected) {
        types_mismatch()
    } else if expected is Variant && actual is Named {
        SpecStep::NamedAgainstVariant
    } else if expected is Named && actual is Variant {
        SpecStep::VariantAgainstNamed
    } else if is_structural(expected) && actual is Variant && row_base(actual->Variant_0)
        is Some {
        SpecStep::Mismatch { expected: Written::AsType, actual: Written::AsInferred }
    } else if expected is Record && actual is Record {
        SpecStep::Records
    } else if expected is Variant && actual is Variant {
        SpecStep::Variants
    } else {
        match variable_step(context, expected, actual) {
            Some(step) => step,
            None => if expected is Named && is_structural(actual)
                && context.known_types.contains(expected->Named_0) {
                SpecStep::Mismatch { expected: Written::AsName, actual: Written::AsType }
            } else if is_structural(expected) && actual is Named && context.known_types.contains(
                actual->Named_0,
            ) {
                SpecStep::Mismatch { expected: Written::AsType, actual: Written::AsName }
            } else {
                SpecStep::Accept
            },
        }
    }
}

/// What follows for a type that is expected and one that is there.
pub open spec fn type_step(
    context: SpecComparison,
    expected: SpecType,
    actual: SpecType,
    names_mismatch: bool,
) -> SpecStep {
    if expected == actual {
        SpecStep::Accept
    } else if base_view(context.family_bases, actual) == Some(expected) {
        SpecStep::Widen
    } else if widens_inside(context.family_bases, expected, actual) {
        types_mismatch()
    } else if expected is Record && base_view(context.family_data, actual) is Some {
        SpecStep::Compare(seq![(expected, base_view(context.family_data, actual)->0)])
    } else if base_view(context.family_data, expected) is Some && actual is Record {
        SpecStep::ConstructExplicitly
    } else if expected is Recursive || actual is Recursive {
        recursive_step(context, expected, actual)
    } else {
        shape_step(context, expected, actual, names_mismatch)
    }
}

fn pair(expected: &Type, actual: &Type) -> (pairs: Vec<(Type, Type)>)
    ensures
        pairs_view(pairs@) == seq![(expected@, actual@)],
{
    let mut pairs: Vec<(Type, Type)> = Vec::new();
    pairs.push((expected.clone(), actual.clone()));
    assert(pairs_view(pairs@) =~= seq![(expected@, actual@)]);
    pairs
}

fn append_pairs(pairs: &mut Vec<(Type, Type)>, left: &Vec<Type>, right: &Vec<Type>)
    requires
        left.len() == right.len(),
    ensures
        pairs_view(final(pairs)@) == pairs_view(old(pairs)@) + zipped(
            types_view(left@),
            types_view(right@),
        ),
{
    let ghost before = pairs_view(pairs@);
    let ghost left_all = types_view(left@);
    let ghost right_all = types_view(right@);
    let mut index: usize = 0;
    assert(pairs_view(pairs@) =~= before + zipped(left_all, right_all).take(0));
    while index < left.len()
        invariant
            index <= left.len(),
            left.len() == right.len(),
            left_all == types_view(left@),
            right_all == types_view(right@),
            before == pairs_view(old(pairs)@),
            pairs_view(pairs@) == before + zipped(left_all, right_all).take(index as int),
        decreases left.len() - index,
    {
        let ghost earlier = pairs_view(pairs@);
        assert(left_all[index as int] == left@[index as int]@);
        assert(right_all[index as int] == right@[index as int]@);
        pairs.push((left[index].clone(), right[index].clone()));
        assert(pairs_view(pairs@) =~= earlier.push((left_all[index as int], right_all[index as int])));
        assert(pairs_view(pairs@) =~= before + zipped(left_all, right_all).take(index + 1));
        index += 1;
    }
    assert(zipped(left_all, right_all).take(left.len() as int) =~= zipped(left_all, right_all));
}

fn names_unbound_variable(ty: &Type, rigid: &StringSet) -> (unbound: bool)
    ensures
        unbound == exists|name: Seq<char>|
            variables(ty@).contains(name) && !(#[trigger] rigid@.contains(name)),
{
    let names = type_variable_names(ty);
    let ghost all = crate::text::texts_view(names@);
    let mut index: usize = 0;
    while index < names.len()
        invariant
            index <= names.len(),
            all == crate::text::texts_view(names@),
            all.to_set() == variables(ty@),
            forall|i: int| 0 <= i < index ==> rigid@.contains(#[trigger] all[i]),
        decreases names.len() - index,
    {
        if !rigid.contains(names[index].as_str()) {
            assert(all.to_set().contains(all[index as int]));
            assert(!rigid@.contains(all[index as int]));
            return true;
        }
        index += 1;
    }
    proof {
        assert forall|name: Seq<char>| variables(ty@).contains(name) implies #[trigger] rigid@.contains(
            name,
        ) by {
            assert(all.to_set().contains(name));
            let i = choose|i: int| 0 <= i < all.len() && all[i] == name;
            assert(rigid@.contains(all[i]));
        }
    }
    false
}

fn compare_functions(context: &ComparisonContext, expected: &Type, actual: &Type) -> (step: TypeStep)
    requires
        expected is Function,
        actual is Function,
    ensures
        step@ == function_step(context@, expected@, actual@),
{
    match (expected, actual) {
        (
            Type::Function { params: expected_params, result: expected_result, .. },
            Type::Function { params: actual_params, result: actual_result, .. },
        ) => {
            assert(types_view(expected_params@).len() == expected_params.len());
            assert(types_view(actual_params@).len() == actual_params.len());
            if expected_params.len() != actual_params.len() {
                return TypeStep::FunctionArity {
                    expected: expected_params.len(),
                    found: actual_params.len(),
                };
            }
            assert(context@.rigid == context.rigid@);
            if names_unbound_variable(actual, &context.rigid) {
                let ghost name = choose|name: Seq<char>|
                    variables(actual@).contains(name) && !(
                    #[trigger] context.rigid@.contains(name));
                assert(!context@.rigid.contains(name));
                return TypeStep::UnifyInstantiated;
            }
            let unknown = free_metas(actual);
            if unknown.len() > 0 {
                return TypeStep::Unify;
            }
            let mut pairs: Vec<(Type, Type)> = Vec::new();
            assert(pairs_view(pairs@) =~= Seq::empty());
            append_pairs(&mut pairs, actual_params, expected_params);
            let ghost params = zipped(types_view(actual_params@), types_view(expected_params@));
            assert(pairs_view(pairs@) =~= params);
            pairs.push(((**expected_result).clone(), (**actual_result).clone()));
            assert(pairs_view(pairs@) =~= params.push((expected_result@, actual_result@)));
            TypeStep::Compare(pairs)
        },
        _ => TypeStep::Accept,
    }
}

fn compare_applications(expected: &Type, actual: &Type) -> (step: TypeStep)
    requires
        expected is Apply,
        actual is Apply,
    ensures
        step@ == (if expected@->Apply_args.len() != actual@->Apply_args.len() || (!unknown_shape(
            *expected@->Apply_callee,
        ) && !unknown_shape(*actual@->Apply_callee) && *expected@->Apply_callee
            != *actual@->Apply_callee) {
            types_mismatch()
        } else {
            SpecStep::Compare(
                seq![(*expected@->Apply_callee, *actual@->Apply_callee)] + zipped(
                    expected@->Apply_args,
                    actual@->Apply_args,
                ),
            )
        }),
{
    match (expected, actual) {
        (
            Type::Apply { callee: expected_callee, args: expected_args },
            Type::Apply { callee: actual_callee, args: actual_args },
        ) => {
            assert(types_view(expected_args@).len() == expected_args.len());
            assert(types_view(actual_args@).len() == actual_args.len());
            if expected_args.len() != actual_args.len() || applied_type_constructor_mismatch(
                expected_callee,
                actual_callee,
            ) {
                return mismatch();
            }
            let mut pairs = pair(expected_callee, actual_callee);
            append_pairs(&mut pairs, expected_args, actual_args);
            TypeStep::Compare(pairs)
        },
        _ => TypeStep::Accept,
    }
}

fn compare_variables(context: &ComparisonContext, expected: &Type, actual: &Type) -> (step: Option<
    TypeStep,
>)
    ensures
        match step {
            Some(step) => variable_step(context@, expected@, actual@) == Some(step@),
            None => variable_step(context@, expected@, actual@) is None,
        },
{
    match (expected, actual) {
        (Type::Variable(expected_name), Type::Variable(actual_name)) => if context.rigid.contains(
            expected_name.as_str(),
        ) {
            Some(TypeStep::RigidVariable(expected_name.clone()))
        } else if context.rigid.contains(actual_name.as_str()) {
            Some(TypeStep::RigidVariable(actual_name.clone()))
        } else {
            None
        },
        (Type::Variable(name), _) => if reportable_type_shape(actual) && context.rigid.contains(
            name.as_str(),
        ) {
            Some(TypeStep::RigidVariable(name.clone()))
        } else {
            None
        },
        (_, Type::Variable(name)) => if reportable_type_shape(expected) && context.rigid.contains(
            name.as_str(),
        ) {
            Some(TypeStep::RigidVariable(name.clone()))
        } else {
            None
        },
        _ => None,
    }
}

fn compare_plain(
    context: &ComparisonContext,
    expected: &Type,
    actual: &Type,
    names_mismatch: bool,
) -> (step: TypeStep)
    ensures
        step@ == plain_step(context@, expected@, actual@, names_mismatch),
{
    if let Type::Named(expected_name) = expected {
        if let Type::Named(actual_name) = actual {
            let known = (context.known_types.contains(expected_name.as_str())
                || context.family_owners.contains(expected_name.as_str())) && (
            context.known_types.contains(actual_name.as_str()) || context.family_owners.contains(
                actual_name.as_str(),
            ));
            if names_mismatch && known {
                return mismatch();
            }
        }
        if matches!(actual, Type::Optional(_)) || matches!(actual, Type::Nullable(_)) {
            if context.known_types.contains(expected_name.as_str()) {
                return TypeStep::Mismatch { expected: Written::AsName, actual: Written::AsType };
            }
        }
    }
    if let Type::Tuple(expected_items) = expected {
        assert(types_view(expected_items@).len() == expected_items.len());
        if let Type::Tuple(actual_items) = actual {
            assert(types_view(actual_items@).len() == actual_items.len());
            if expected_items.len() != actual_items.len() {
                return TypeStep::TupleArity {
                    expected: expected_items.len(),
                    found: actual_items.len(),
                };
            }
            let mut pairs: Vec<(Type, Type)> = Vec::new();
            assert(pairs_view(pairs@) =~= Seq::empty());
            append_pairs(&mut pairs, expected_items, actual_items);
            assert(pairs_view(pairs@) =~= zipped(
                types_view(expected_items@),
                types_view(actual_items@),
            ));
            return TypeStep::Compare(pairs);
        }
        if is_named(actual, "Unit") && expected_items.len() > 0 {
            return TypeStep::TupleArity { expected: expected_items.len(), found: 0 };
        }
    }
    if matches!(expected, Type::Function { .. }) && matches!(actual, Type::Function { .. }) {
        return compare_functions(context, expected, actual);
    }
    let expected_applied = matches!(expected, Type::Apply { .. });
    let actual_applied = matches!(actual, Type::Apply { .. });
    if expected_applied && actual_applied {
        return compare_applications(expected, actual);
    }
    let actual_variant = matches!(actual, Type::Variant(_));
    if result_type_args(expected).is_some() && actual_variant {
        return TypeStep::ResultVariant;
    }
    if expected_applied && reportable_type_shape(actual) {
        return mismatch();
    }
    if actual_applied && reportable_type_shape(expected) {
        return mismatch();
    }
    if matches!(expected, Type::Variant(_)) && matches!(actual, Type::Named(_)) {
        return TypeStep::NamedAgainstVariant;
    }
    if matches!(expected, Type::Named(_)) && actual_variant {
        return TypeStep::VariantAgainstNamed;
    }
    if structural(expected) {
        if let Type::Variant(row) = actual {
            if literal_variant_base(row).is_some() {
                return TypeStep::Mismatch {
                    expected: Written::AsType,
                    actual: Written::AsInferred,
                };
            }
        }
    }
    if matches!(expected, Type::Record(_)) && matches!(actual, Type::Record(_)) {
        return TypeStep::Records;
    }
    if matches!(expected, Type::Variant(_)) && actual_variant {
        return TypeStep::Variants;
    }
    if let Some(step) = compare_variables(context, expected, actual) {
        return step;
    }
    if let Type::Named(name) = expected {
        if structural(actual) && context.known_types.contains(name.as_str()) {
            return TypeStep::Mismatch { expected: Written::AsName, actual: Written::AsType };
        }
    }
    if let Type::Named(name) = actual {
        if structural(expected) && context.known_types.contains(name.as_str()) {
            return TypeStep::Mismatch { expected: Written::AsType, actual: Written::AsName };
        }
    }
    TypeStep::Accept
}

fn compare_shapes(
    context: &ComparisonContext,
    expected: &Type,
    actual: &Type,
    names_mismatch: bool,
) -> (step: TypeStep)
    ensures
        step@ == shape_step(context@, expected@, actual@, names_mismatch),
{
    match (expected, actual) {
        (
            Type::SlotRecord { data: expected_data, slots: expected_slots },
            Type::SlotRecord { data: actual_data, slots: actual_slots },
        ) => {
            let expected_record = Type::Record((**expected_data).clone());
            let actual_record = Type::Record((**actual_data).clone());
            let mut pairs = pair(&expected_record, &actual_record);
            let expected_methods = Type::Record((**expected_slots).clone());
            let actual_methods = Type::Record((**actual_slots).clone());
            let ghost first = pairs_view(pairs@);
            pairs.push((expected_methods, actual_methods));
            assert(pairs_view(pairs@) =~= first.push((expected_methods@, actual_methods@)));
            assert(expected_record@ == SpecType::Record(expected_data@));
            assert(actual_record@ == SpecType::Record(actual_data@));
            assert(expected_methods@ == SpecType::Record(expected_slots@));
            assert(actual_methods@ == SpecType::Record(actual_slots@));
            assert(pairs_view(pairs@) =~= seq![
                (SpecType::Record(expected_data@), SpecType::Record(actual_data@)),
                (SpecType::Record(expected_slots@), SpecType::Record(actual_slots@)),
            ]);
            TypeStep::Compare(pairs)
        },
        (Type::SlotRecord { .. }, _) => mismatch(),
        (_, Type::SlotRecord { .. }) => mismatch(),
        (Type::Optional(expected_inner), Type::Optional(actual_inner)) => TypeStep::Compare(
            pair(expected_inner, actual_inner),
        ),
        (Type::Optional(expected_inner), _) => if is_named(actual, "Undefined") {
            TypeStep::Accept
        } else {
            TypeStep::Compare(pair(expected_inner, actual))
        },
        (Type::Nullable(expected_inner), Type::Nullable(actual_inner)) => TypeStep::Compare(
            pair(expected_inner, actual_inner),
        ),
        (Type::Nullable(expected_inner), _) => if is_named(actual, "Null") {
            TypeStep::Accept
        } else {
            TypeStep::Compare(pair(expected_inner, actual))
        },
        _ => compare_plain(context, expected, actual, names_mismatch),
    }
}

/// Whether a recursive reference is being looked at.
pub fn is_active(active: &Vec<RecursiveTypeId>, id: RecursiveTypeId) -> (found: bool)
    ensures
        found == active@.contains(id),
{
    let mut index: usize = 0;
    while index < active.len()
        invariant
            index <= active.len(),
            forall|i: int| 0 <= i < index ==> active@[i] != id,
        decreases active.len() - index,
    {
        if active[index] == id {
            return true;
        }
        index += 1;
    }
    false
}

fn compare_recursive(context: &ComparisonContext, expected: &Type, actual: &Type) -> (step: TypeStep)
    requires
        expected is Recursive || actual is Recursive,
    ensures
        step@ == recursive_step(context@, expected@, actual@),
{
    let (id, on_expected): (RecursiveTypeId, bool) = match (expected, actual) {
        (Type::Recursive(_), Type::Recursive(_)) => {
            return mismatch();
        },
        (Type::Recursive(id), _) => (*id, true),
        (_, Type::Recursive(id)) => (*id, false),
        _ => {
            return mismatch();
        },
    };
    if is_active(&context.active, id) {
        return TypeStep::Accept;
    }
    let reference = Type::Recursive(id);
    let unfolded = unfold_recursive_type_once(&reference, &context.recursive);
    if unfolded == reference {
        return mismatch();
    }
    if on_expected {
        TypeStep::Unfold { id, expected: unfolded, actual: actual.clone() }
    } else {
        TypeStep::Unfold { id, expected: expected.clone(), actual: unfolded }
    }
}

/// Decide what follows for a type that is expected and one that is there.
pub fn check_type_against_type(
    context: &ComparisonContext,
    expected: &Type,
    actual: &Type,
    names_mismatch: bool,
) -> (step: TypeStep)
    ensures
        step@ == type_step(context@, expected@, actual@, names_mismatch),
{
    if *expected == *actual {
        return TypeStep::Accept;
    }
    if let Some(base) = family_view(&context.family_bases, actual) {
        if *base == *expected {
            return TypeStep::Widen;
        }
    }
    if contains_nested_primitive_family_widening(&context.family_bases, expected, actual) {
        return mismatch();
    }
    if matches!(expected, Type::Record(_)) {
        if let Some(data) = family_view(&context.family_data, actual) {
            return TypeStep::Compare(pair(expected, data));
        }
    }
    if matches!(actual, Type::Record(_)) && family_view(&context.family_data, expected).is_some() {
        return TypeStep::ConstructExplicitly;
    }
    if matches!(expected, Type::Recursive(_)) || matches!(actual, Type::Recursive(_)) {
        return compare_recursive(context, expected, actual);
    }
    compare_shapes(context, expected, actual, names_mismatch)
}

// ---------------------------------------------------------------------------
// Variants
// ---------------------------------------------------------------------------
/// What follows for two variants.
#[derive(Debug)]
pub enum VariantStep {
    Accept,
    /// One lists tags and the other literals.
    KindMismatch,
    /// These literals are not among those that are expected.
    NotInUnion(Vec<Literal>),
    /// The variant may hold more than the closed one that is expected.
    OpenNotAssignable,
    /// The tags are compared, unless the variants unify first.
    Tags { unify_first: bool },
}

/// The literals of a row that another does not list.
pub open spec fn foreign_literals(
    literals: Seq<SpecLiteral>,
    expected: Seq<SpecLiteral>,
) -> Seq<SpecLiteral> {
    literals.filter(|literal: SpecLiteral| !expected.contains(literal))
}

/// The literals of a row of literals.
pub open spec fn literals_of(row: SpecRow) -> Seq<SpecLiteral> {
    row.entries.map_values(|entry: SpecRowEntry| entry->Literal_value)
}

pub open spec fn owned_literals(literals: Seq<Literal>) -> Seq<SpecLiteral> {
    Seq::new(literals.len(), |i: int| literals[i]@)
}

/// What follows for two variants.
pub open spec fn is_variant_step(expected: SpecRow, actual: SpecRow, step: VariantStep) -> bool {
    if lists_literal(actual) {
        if !all_literals(actual) {
            step is Accept
        } else if !all_literals(expected) {
            step is KindMismatch
        } else {
            step is NotInUnion && owned_literals(step->NotInUnion_0@) == (
            if expected.tail is Closed {
                foreign_literals(literals_of(actual), literals_of(expected))
            } else {
                Seq::empty()
            })
        }
    } else if expected.tail is Closed && !(actual.tail is Closed) {
        step is OpenNotAssignable
    } else {
        step == (VariantStep::Tags { unify_first: !(actual.tail is Open) })
    }
}

fn lists(literals: &Vec<&Literal>, literal: &Literal) -> (found: bool)
    ensures
        found == literals_view(literals@).contains(literal@),
{
    let ghost all = literals_view(literals@);
    let mut index: usize = 0;
    while index < literals.len()
        invariant
            index <= literals.len(),
            all == literals_view(literals@),
            forall|i: int| 0 <= i < index ==> all[i] != literal@,
        decreases literals.len() - index,
    {
        if *literals[index] == *literal {
            assert(all[index as int] == literal@);
            return true;
        }
        index += 1;
    }
    false
}

fn find_foreign(literals: &Vec<&Literal>, expected: &Vec<&Literal>) -> (foreign: Vec<Literal>)
    ensures
        owned_literals(foreign@) == foreign_literals(
            literals_view(literals@),
            literals_view(expected@),
        ),
{
    let ghost all = literals_view(literals@);
    let ghost known = literals_view(expected@);
    let ghost test = |literal: SpecLiteral| !known.contains(literal);
    let mut foreign: Vec<Literal> = Vec::new();
    let mut index: usize = 0;
    proof {
        reveal(Seq::filter);
        assert(owned_literals(foreign@) =~= all.take(0).filter(test));
    }
    while index < literals.len()
        invariant
            index <= literals.len(),
            all == literals_view(literals@),
            known == literals_view(expected@),
            test == (|literal: SpecLiteral| !known.contains(literal)),
            owned_literals(foreign@) == all.take(index as int).filter(test),
        decreases literals.len() - index,
    {
        proof {
            reveal(Seq::filter);
            let longer = all.take(index + 1);
            assert(longer.drop_last() =~= all.take(index as int));
            assert(longer.last() == literals@[index as int]@);
        }
        if !lists(expected, literals[index]) {
            let ghost before = owned_literals(foreign@);
            foreign.push(literals[index].clone());
            assert(owned_literals(foreign@) =~= before.push(literals@[index as int]@));
        }
        index += 1;
    }
    assert(all.take(all.len() as int) =~= all);
    foreign
}

/// Decide what follows for two variants.
pub fn check_variant_type_against_type(expected: &Row, actual: &Row) -> (step: VariantStep)
    ensures
        is_variant_step(expected@, actual@, step),
{
    assert(expected@.tail == expected.tail);
    assert(actual@.tail == actual.tail);
    if row_has_literal_entries(actual) {
        let actual_literals = match literal_variant_members(actual) {
            Some(literals) => literals,
            None => {
                return VariantStep::Accept;
            },
        };
        let expected_literals = match literal_variant_members(expected) {
            Some(literals) => literals,
            None => {
                return VariantStep::KindMismatch;
            },
        };
        assert(literals_view(actual_literals@) =~= literals_of(actual@));
        assert(literals_view(expected_literals@) =~= literals_of(expected@));
        if matches!(expected.tail, RowTail::Closed) {
            return VariantStep::NotInUnion(find_foreign(&actual_literals, &expected_literals));
        }
        let none: Vec<Literal> = Vec::new();
        assert(owned_literals(none@) =~= Seq::empty());
        return VariantStep::NotInUnion(none);
    }
    if matches!(expected.tail, RowTail::Closed) && !matches!(actual.tail, RowTail::Closed) {
        return VariantStep::OpenNotAssignable;
    }
    VariantStep::Tags { unify_first: !matches!(actual.tail, RowTail::Open) }
}

/// What is found about one tag of a variant.
#[derive(Debug)]
pub enum TagFinding {
    /// One lists tags and the other literals.
    KindMismatch,
    /// The tag is not one that is expected.
    UnknownTag(String),
    PayloadArity { tag: String, expected: usize, found: usize },
    /// The payloads are compared.
    Compare(Vec<(Type, Type)>),
}

/// What is found about one tag of a variant.
pub ghost enum SpecFinding {
    KindMismatch,
    UnknownTag(Seq<char>),
    PayloadArity { tag: Seq<char>, expected: nat, found: nat },
    Compare(Seq<(SpecType, SpecType)>),
}

impl TagFinding {
    pub open spec fn view(&self) -> SpecFinding {
        match self {
            TagFinding::KindMismatch => SpecFinding::KindMismatch,
            TagFinding::UnknownTag(tag) => SpecFinding::UnknownTag(tag@),
            TagFinding::PayloadArity { tag, expected, found } => SpecFinding::PayloadArity {
                tag: tag@,
                expected: *expected as nat,
                found: *found as nat,
            },
            TagFinding::Compare(pairs) => SpecFinding::Compare(pairs_view(pairs@)),
        }
    }
}

pub open spec fn findings_view(findings: Seq<TagFinding>) -> Seq<SpecFinding> {
    Seq::new(findings.len(), |i: int| findings[i]@)
}

/// What is found about a tag where a row of tags is expected.
pub open spec fn tag_finding(
    expected: SpecRow,
    tag: (Seq<char>, Seq<SpecType>),
) -> Option<SpecFinding> {
    match last_payload(expected.entries, tag.0) {
        None => if expected.tail is Closed {
            Some(SpecFinding::UnknownTag(tag.0))
        } else {
            None
        },
        Some(payload) => if payload.len() != tag.1.len() {
            Some(
                SpecFinding::PayloadArity {
                    tag: tag.0,
                    expected: payload.len(),
                    found: tag.1.len(),
                },
            )
        } else {
            Some(SpecFinding::Compare(zipped(payload, tag.1)))
        },
    }
}

/// What is found about the tags of a variant, in order.
pub open spec fn tag_findings(
    expected: SpecRow,
    tags: Seq<(Seq<char>, Seq<SpecType>)>,
) -> Seq<SpecFinding>
    decreases tags.len(),
{
    if tags.len() == 0 {
        Seq::empty()
    } else {
        let earlier = tag_findings(expected, tags.drop_last());
        match tag_finding(expected, tags.last()) {
            Some(finding) => earlier.push(finding),
            None => earlier,
        }
    }
}

/// The tags of a row of tags.
pub open spec fn tags_of(row: SpecRow) -> Seq<(Seq<char>, Seq<SpecType>)> {
    row.entries.map_values(|entry: SpecRowEntry| tag_of(entry))
}

/// What is found about the tags of a variant. Only tags are compared, and only
/// with tags.
pub open spec fn variant_findings(expected: SpecRow, actual: SpecRow) -> Seq<SpecFinding> {
    if !all_tags(actual) || actual.entries.len() == 0 {
        Seq::empty()
    } else if !all_tags(expected) {
        if lists_literal(expected) {
            seq![SpecFinding::KindMismatch]
        } else {
            Seq::empty()
        }
    } else {
        tag_findings(expected, tags_of(actual))
    }
}

/// Compare the tags of two variants.
pub fn check_variant_tags(expected: &Row, actual: &Row) -> (findings: Vec<TagFinding>)
    ensures
        findings_view(findings@) == variant_findings(expected@, actual@),
{
    let mut findings: Vec<TagFinding> = Vec::new();
    assert(findings_view(findings@) =~= Seq::empty());
    assert(expected@.tail == expected.tail);
    let tags = match variant_tags(actual) {
        Some(tags) => tags,
        None => {
            return findings;
        },
    };
    let ghost all = tags_of(actual@);
    assert(tags_view(tags@) =~= all);
    assert(actual@.entries.len() == actual.entries.len());
    let mut index: usize = 0;
    while index < tags.len()
        invariant
            index <= tags.len(),
            all == tags_view(tags@),
            all == tags_of(actual@),
            all_tags(actual@),
            all.len() == actual@.entries.len(),
            expected@.tail == expected.tail,
            index > 0 ==> all_tags(expected@),
            findings_view(findings@) == tag_findings(expected@, all.take(index as int)),
        decreases tags.len() - index,
    {
        let tag = &tags[index];
        proof {
            let longer = all.take(index + 1);
            assert(longer.drop_last() =~= all.take(index as int));
            assert(longer.last() == (tag.name@, types_view(tag.payload@)));
            assert(types_view(tag.payload@).len() == tag.payload.len());
        }
        let ghost before = findings_view(findings@);
        match variant_payload_lookup(expected, tag.name) {
            None => {
                if row_has_literal_entries(expected) {
                    findings.push(TagFinding::KindMismatch);
                    assert(findings_view(findings@) =~= seq![SpecFinding::KindMismatch]);
                }
                return findings;
            },
            Some(None) => {
                if matches!(expected.tail, RowTail::Closed) {
                    findings.push(TagFinding::UnknownTag(tag.name.to_owned()));
                    assert(findings_view(findings@) =~= before.push(
                        SpecFinding::UnknownTag(tag.name@),
                    ));
                }
            },
            Some(Some(payload)) => {
                assert(types_view(payload@).len() == payload.len());
                if payload.len() != tag.payload.len() {
                    findings.push(
                        TagFinding::PayloadArity {
                            tag: tag.name.to_owned(),
                            expected: payload.len(),
                            found: tag.payload.len(),
                        },
                    );
                    assert(findings_view(findings@) =~= before.push(
                        SpecFinding::PayloadArity {
                            tag: tag.name@,
                            expected: payload.len() as nat,
                            found: tag.payload.len() as nat,
                        },
                    ));
                } else {
                    let mut pairs: Vec<(Type, Type)> = Vec::new();
                    assert(pairs_view(pairs@) =~= Seq::empty());
                    append_pairs(&mut pairs, payload, tag.payload);
                    let ghost compared = zipped(types_view(payload@), types_view(tag.payload@));
                    assert(pairs_view(pairs@) =~= compared);
                    findings.push(TagFinding::Compare(pairs));
                    assert(findings_view(findings@) =~= before.push(
                        SpecFinding::Compare(compared),
                    ));
                }
            },
        }
        index += 1;
    }
    assert(all.take(all.len() as int) =~= all);
    findings
}

/// What is found about a tag where a result is expected.
pub ghost enum SpecResultFinding {
    /// The variant is no result.
    NoResult,
    Compare(SpecType, SpecType),
}

/// What is found about a tag where a result is expected.
#[derive(Debug)]
pub enum ResultFinding {
    /// The variant is no result.
    NoResult,
    /// The payload is compared.
    Compare(Type, Type),
}

impl ResultFinding {
    pub open spec fn view(&self) -> SpecResultFinding {
        match self {
            ResultFinding::NoResult => SpecResultFinding::NoResult,
            ResultFinding::Compare(expected, actual) => SpecResultFinding::Compare(
                expected@,
                actual@,
            ),
        }
    }
}

pub open spec fn result_findings_view(findings: Seq<ResultFinding>) -> Seq<SpecResultFinding> {
    Seq::new(findings.len(), |i: int| findings[i]@)
}

/// The type that a tag of a result carries.
pub open spec fn result_payload(
    ok_ty: SpecType,
    error_ty: SpecType,
    entry: SpecRowEntry,
) -> Option<SpecType> {
    match entry {
        SpecRowEntry::Tag { name, .. } => if name == "Ok"@ {
            Some(ok_ty)
        } else if name == "Err"@ {
            Some(error_ty)
        } else {
            None
        },
        _ => None,
    }
}

/// What is found about the entries of a variant where a result is expected, from
/// a position on. Another entry than `Ok` and `Err` ends the comparison.
pub open spec fn result_findings(
    ok_ty: SpecType,
    error_ty: SpecType,
    entries: Seq<SpecRowEntry>,
    from: int,
) -> Seq<SpecResultFinding>
    decreases entries.len() - from,
{
    if from >= entries.len() {
        Seq::empty()
    } else {
        match result_payload(ok_ty, error_ty, entries[from]) {
            None => seq![SpecResultFinding::NoResult],
            Some(expected) => {
                let payload = entries[from]->Tag_payload;
                let first = if payload.len() != 1 {
                    SpecResultFinding::NoResult
                } else {
                    SpecResultFinding::Compare(expected, payload[0])
                };
                seq![first] + result_findings(ok_ty, error_ty, entries, from + 1)
            },
        }
    }
}

/// Compare the tags of a variant with a result type.
pub fn check_result_variant_type_against_result(
    ok_ty: &Type,
    error_ty: &Type,
    actual: &Row,
) -> (findings: Vec<ResultFinding>)
    ensures
        result_findings_view(findings@) == result_findings(
            ok_ty@,
            error_ty@,
            actual@.entries,
            0,
        ),
{
    let ghost all = actual@.entries;
    let mut findings: Vec<ResultFinding> = Vec::new();
    let mut index: usize = 0;
    assert(result_findings_view(findings@) + result_findings(ok_ty@, error_ty@, all, 0)
        =~= result_findings(ok_ty@, error_ty@, all, 0));
    while index < actual.entries.len()
        invariant
            index <= actual.entries.len(),
            all == actual@.entries,
            result_findings(ok_ty@, error_ty@, all, 0) == result_findings_view(findings@)
                + result_findings(ok_ty@, error_ty@, all, index as int),
        decreases actual.entries.len() - index,
    {
        assert(all[index as int] == actual.entries@[index as int]@);
        let ghost before = result_findings_view(findings@);
        let ghost rest = result_findings(ok_ty@, error_ty@, all, index + 1);
        let expected = match &actual.entries[index] {
            RowEntry::Tag { name, .. } => if same_text(name.as_str(), "Ok") {
                Some(ok_ty)
            } else if same_text(name.as_str(), "Err") {
                Some(error_ty)
            } else {
                None
            },
            _ => None,
        };
        match (expected, &actual.entries[index]) {
            (Some(expected), RowEntry::Tag { payload, .. }) => {
                assert(types_view(payload@).len() == payload.len());
                if payload.len() != 1 {
                    findings.push(ResultFinding::NoResult);
                } else {
                    assert(types_view(payload@)[0] == payload@[0]@);
                    findings.push(ResultFinding::Compare(expected.clone(), payload[0].clone()));
                }
                assert(result_findings_view(findings@) =~= before.push(
                    findings@[findings.len() - 1]@,
                ));
                assert(result_findings_view(findings@) + rest =~= before + (
                seq![findings@[findings.len() - 1]@] + rest));
            },
            _ => {
                findings.push(ResultFinding::NoResult);
                assert(result_findings_view(findings@) =~= before + seq![
                    SpecResultFinding::NoResult,
                ]);
                return findings;
            },
        }
        index += 1;
    }
    assert(result_findings_view(findings@) + Seq::<SpecResultFinding>::empty()
        =~= result_findings_view(findings@));
    findings
}

/// What follows where a value of a named type stands for a literal union.
#[derive(Debug, Clone, Copy, PartialEq, Eq, Structural)]
pub enum NamedStep {
    Accept,
    /// The value may be any of its base type.
    WideValue,
    Mismatch,
}

/// What follows where a value of a named type stands for a variant. An open
/// union of literals is widened by a value of their base.
pub open spec fn named_step(expected: SpecRow, actual: Seq<char>) -> NamedStep {
    if !all_literals(expected) {
        NamedStep::Accept
    } else if exists|i: int|
        0 <= i < expected.entries.len() && literal_fits_base(
            (#[trigger] expected.entries[i])->Literal_value,
            actual,
        ) {
        if expected.tail is Closed {
            NamedStep::WideValue
        } else {
            NamedStep::Accept
        }
    } else {
        NamedStep::Mismatch
    }
}

/// Decide what follows where a value of a named type stands for a variant.
pub fn check_named_type_against_variant(expected: &Row, actual: &str) -> (step: NamedStep)
    ensures
        step == named_step(expected@, actual@),
{
    assert(expected@.tail == expected.tail);
    let literals = match literal_variant_members(expected) {
        Some(literals) => literals,
        None => {
            return NamedStep::Accept;
        },
    };
    let accepts = literal_union_accepts_base_type(&literals, actual);
    proof {
        let all = literals_view(literals@);
        assert(all.len() == expected@.entries.len());
        assert(forall|i: int|
            0 <= i < expected@.entries.len() ==> all[i] == (
            #[trigger] expected@.entries[i])->Literal_value);
        if accepts {
            let i = choose|i: int|
                0 <= i < literals.len() && literal_fits_base(#[trigger] literals@[i]@, actual@);
            assert(expected@.entries[i]->Literal_value == literals@[i]@);
        }
        assert forall|i: int| 0 <= i < expected@.entries.len() && !accepts implies
            !literal_fits_base((#[trigger] expected@.entries[i])->Literal_value, actual@) by {
            assert(literals@[i]@ == all[i]);
        }
    }
    if accepts {
        if matches!(expected.tail, RowTail::Closed) {
            NamedStep::WideValue
        } else {
            NamedStep::Accept
        }
    } else {
        NamedStep::Mismatch
    }
}

/// What follows where a variant stands for a named type.
#[derive(Debug)]
pub enum VariantNamedStep {
    /// The name is that of a variant, which is compared.
    CompareWith(Row),
    Accept,
    Mismatch,
}

/// What follows where a variant stands for a named type. A type of literals must
/// have the base that the name is.
pub open spec fn is_variant_named_step(
    definitions: Map<Seq<char>, SpecType>,
    expected: Seq<char>,
    actual: SpecRow,
    step: VariantNamedStep,
) -> bool {
    if definitions.contains_key(expected) && definitions[expected] is Variant {
        step is CompareWith && step->CompareWith_0@ == definitions[expected]->Variant_0
    } else {
        match row_base(actual) {
            Some(base) => if base.belongs_to(expected) {
                step is Accept
            } else {
                step is Mismatch
            },
            None => step is Accept,
        }
    }
}

/// Decide what follows where a variant stands for a named type.
pub fn check_variant_type_against_named(
    definitions: &StringMap<Type>,
    expected: &str,
    actual: &Row,
) -> (step: VariantNamedStep)
    ensures
        is_variant_named_step(type_map_view(definitions@), expected@, actual@, step),
{
    if let Some(definition) = definitions.get(expected) {
        if let Type::Variant(row) = definition {
            return VariantNamedStep::CompareWith(row.clone());
        }
    }
    match literal_variant_base(actual) {
        Some(base) => if base.matches_named(expected) {
            VariantNamedStep::Accept
        } else {
            VariantNamedStep::Mismatch
        },
        None => VariantNamedStep::Accept,
    }
}

/// What follows where a literal stands for a variant.
#[derive(Debug, Clone, Copy, PartialEq, Eq, Structural)]
pub enum LiteralStep {
    Accept,
    /// The variant has tags.
    Mismatch,
    /// The literal is not among those that are expected.
    NotInUnion,
}

/// What follows where a literal stands for a variant.
pub open spec fn literal_step(row: SpecRow, literal: SpecLiteral) -> LiteralStep {
    if !all_literals(row) {
        LiteralStep::Mismatch
    } else if row_base(row) is Some && base_of(literal) != row_base(row) {
        LiteralStep::NotInUnion
    } else if !(row.tail is Closed) || literals_of(row).contains(literal) {
        LiteralStep::Accept
    } else {
        LiteralStep::NotInUnion
    }
}

/// Decide what follows where a literal stands for a variant.
pub fn check_literal_value_against_variant(row: &Row, literal: &Literal) -> (step: LiteralStep)
    ensures
        step == literal_step(row@, literal@),
{
    assert(row@.tail == row.tail);
    let literals = match literal_variant_members(row) {
        Some(literals) => literals,
        None => {
            return LiteralStep::Mismatch;
        },
    };
    assert(literals_view(literals@) =~= literals_of(row@));
    if let Some(expected) = literal_variant_base(row) {
        let same = match literal_base(literal) {
            Some(found) => found == expected,
            None => false,
        };
        if !same {
            return LiteralStep::NotInUnion;
        }
    }
    if !matches!(row.tail, RowTail::Closed) || lists(&literals, literal) {
        LiteralStep::Accept
    } else {
        LiteralStep::NotInUnion
    }
}

// ---------------------------------------------------------------------------
// Records
// ---------------------------------------------------------------------------
/// A field that a record type asks for.
#[derive(Debug)]
pub struct RequiredField {
    pub name: String,
    /// The field may be left out.
    pub optional: bool,
}

/// A field that is there.
#[derive(Debug)]
pub struct PresentField {
    pub name: String,
    /// There is a value or a type to compare.
    pub compared: bool,
    /// There is a value to check by itself where the field is not asked for.
    pub checked_alone: bool,
}

pub open spec fn required_names(fields: Seq<RequiredField>) -> Seq<Seq<char>> {
    Seq::new(fields.len(), |i: int| fields[i].name@)
}

pub open spec fn present_names(fields: Seq<PresentField>) -> Seq<Seq<char>> {
    Seq::new(fields.len(), |i: int| fields[i].name@)
}

/// What is found in a comparison of records. The numbers are positions of fields
/// that are asked for and of fields that are there.
#[derive(Debug, Clone, Copy, PartialEq, Eq, Structural)]
pub enum RecordFinding {
    Compare { required: usize, present: usize },
    Missing { required: usize },
    Unexpected { present: usize },
    CheckAlone { present: usize },
}

/// The last position of a name.
pub open spec fn last_position(names: Seq<Seq<char>>, name: Seq<char>) -> Option<int>
    decreases names.len(),
{
    if names.len() == 0 {
        None
    } else if names.last() == name {
        Some(names.len() - 1)
    } else {
        last_position(names.drop_last(), name)
    }
}

/// What is found about a field that is asked for.
pub open spec fn required_finding(
    required: Seq<RequiredField>,
    present: Seq<PresentField>,
    reject_missing: bool,
    index: int,
) -> Seq<RecordFinding> {
    match last_position(present_names(present), required[index].name@) {
        Some(position) => if present[position].compared {
            seq![RecordFinding::Compare { required: index as usize, present: position as usize }]
        } else {
            Seq::empty()
        },
        None => if !required[index].optional && reject_missing {
            seq![RecordFinding::Missing { required: index as usize }]
        } else {
            Seq::empty()
        },
    }
}

/// What is found about a field that is there.
pub open spec fn present_finding(
    required: Seq<RequiredField>,
    present: Seq<PresentField>,
    reject_extra: bool,
    index: int,
) -> Seq<RecordFinding> {
    if required_names(required).contains(present[index].name@) {
        Seq::empty()
    } else {
        (if reject_extra {
            seq![RecordFinding::Unexpected { present: index as usize }]
        } else {
            Seq::empty()
        }) + (if present[index].checked_alone {
            seq![RecordFinding::CheckAlone { present: index as usize }]
        } else {
            Seq::empty()
        })
    }
}

/// What is found about the first fields that are asked for.
pub open spec fn required_findings(
    required: Seq<RequiredField>,
    present: Seq<PresentField>,
    reject_missing: bool,
    count: nat,
) -> Seq<RecordFinding>
    decreases count,
{
    if count == 0 {
        Seq::empty()
    } else {
        required_findings(required, present, reject_missing, (count - 1) as nat)
            + required_finding(required, present, reject_missing, count - 1)
    }
}

/// What is found about the first fields that are there.
pub open spec fn present_findings(
    required: Seq<RequiredField>,
    present: Seq<PresentField>,
    reject_extra: bool,
    count: nat,
) -> Seq<RecordFinding>
    decreases count,
{
    if count == 0 {
        Seq::empty()
    } else {
        present_findings(required, present, reject_extra, (count - 1) as nat) + present_finding(
            required,
            present,
            reject_extra,
            count - 1,
        )
    }
}

fn find_last(fields: &Vec<PresentField>, name: &str) -> (position: Option<usize>)
    ensures
        match position {
            Some(position) => position < fields.len() && last_position(
                present_names(fields@),
                name@,
            ) == Some(position as int),
            None => last_position(present_names(fields@), name@) is None,
        },
{
    let ghost all = present_names(fields@);
    let mut index: usize = fields.len();
    assert(all.take(all.len() as int) =~= all);
    while index > 0
        invariant
            index <= fields.len(),
            all == present_names(fields@),
            last_position(all, name@) == last_position(all.take(index as int), name@),
        decreases index,
    {
        index -= 1;
        proof {
            let longer = all.take(index + 1);
            assert(longer.drop_last() =~= all.take(index as int));
            assert(longer.last() == fields@[index as int].name@);
        }
        if same_text(fields[index].name.as_str(), name) {
            return Some(index);
        }
    }
    None
}

fn asks_for(fields: &Vec<RequiredField>, name: &str) -> (found: bool)
    ensures
        found == required_names(fields@).contains(name@),
{
    let ghost all = required_names(fields@);
    let mut index: usize = 0;
    while index < fields.len()
        invariant
            index <= fields.len(),
            all == required_names(fields@),
            forall|i: int| 0 <= i < index ==> all[i] != name@,
        decreases fields.len() - index,
    {
        if same_text(fields[index].name.as_str(), name) {
            assert(all[index as int] == name@);
            return true;
        }
        index += 1;
    }
    false
}

/// Compare the fields that are asked for with those that are there. `open` says
/// that the record type admits other fields.
pub fn compare_record(
    required: &Vec<RequiredField>,
    open: bool,
    present: &Vec<PresentField>,
    reject_extra: bool,
    reject_missing: bool,
) -> (findings: Vec<RecordFinding>)
    ensures
        findings@ == required_findings(
            required@,
            present@,
            reject_missing,
            required@.len(),
        ) + present_findings(required@, present@, !open && reject_extra, present@.len()),
{
    let mut findings: Vec<RecordFinding> = Vec::new();
    let mut index: usize = 0;
    assert(findings@ =~= Seq::empty());
    while index < required.len()
        invariant
            index <= required.len(),
            findings@ == required_findings(required@, present@, reject_missing, index as nat),
        decreases required.len() - index,
    {
        let ghost before = findings@;
        match find_last(present, required[index].name.as_str()) {
            Some(position) => {
                if present[position].compared {
                    findings.push(RecordFinding::Compare { required: index, present: position });
                }
            },
            None => {
                if !required[index].optional && reject_missing {
                    findings.push(RecordFinding::Missing { required: index });
                }
            },
        }
        assert(findings@ =~= before + required_finding(
            required@,
            present@,
            reject_missing,
            index as int,
        ));
        index += 1;
    }
    let ghost first = findings@;
    let reject = !open && reject_extra;
    let mut index: usize = 0;
    assert(findings@ =~= first + present_findings(required@, present@, reject, 0));
    while index < present.len()
        invariant
            index <= present.len(),
            findings@ == first + present_findings(required@, present@, reject, index as nat),
        decreases present.len() - index,
    {
        let ghost before = findings@;
        if !asks_for(required, present[index].name.as_str()) {
            if reject {
                findings.push(RecordFinding::Unexpected { present: index });
            }
            if present[index].checked_alone {
                findings.push(RecordFinding::CheckAlone { present: index });
            }
        }
        assert(findings@ =~= before + present_finding(required@, present@, reject, index as int));
        assert(findings@ =~= first + present_findings(
            required@,
            present@,
            reject,
            (index + 1) as nat,
        ));
        index += 1;
    }
    findings
}

/// The fields that a record type asks for.
pub open spec fn is_required_by(
    entries: Seq<SpecRowEntry>,
    definitions: Map<Seq<char>, SpecType>,
    fields: Seq<RequiredField>,
) -> bool {
    &&& fields.len() == entries.len()
    &&& forall|i: int|
        0 <= i < entries.len() ==> (#[trigger] fields[i]).name@ == entries[i]->Field_name
            && fields[i].optional == (normal_form(entries[i]->Field_ty, definitions) is Optional)
}

/// The fields that a record type has, all of them with types to compare.
pub open spec fn is_present_in(entries: Seq<SpecRowEntry>, fields: Seq<PresentField>) -> bool {
    &&& fields.len() == entries.len()
    &&& forall|i: int|
        0 <= i < entries.len() ==> (#[trigger] fields[i]).name@ == entries[i]->Field_name
            && fields[i].compared && !fields[i].checked_alone
}

/// The fields that a record type asks for. There are none where a row is not one
/// of fields.
pub fn required_fields(row: &Row, definitions: &StringMap<Type>) -> (fields: Option<
    Vec<RequiredField>,
>)
    ensures
        match fields {
            Some(fields) => all_fields(row@) && is_required_by(
                row@.entries,
                type_map_view(definitions@),
                fields@,
            ),
            None => !all_fields(row@),
        },
{
    let mut fields: Vec<RequiredField> = Vec::new();
    let mut index: usize = 0;
    assert(row@.entries.len() == row.entries.len());
    while index < row.entries.len()
        invariant
            index <= row.entries.len(),
            row@.entries.len() == row.entries.len(),
            fields.len() == index,
            forall|i: int| 0 <= i < index ==> (#[trigger] row@.entries[i]) is Field,
            forall|i: int|
                0 <= i < index ==> (#[trigger] fields@[i]).name@ == row@.entries[i]->Field_name
                    && fields@[i].optional == (normal_form(
                    row@.entries[i]->Field_ty,
                    type_map_view(definitions@),
                ) is Optional),
        decreases row.entries.len() - index,
    {
        assert(row@.entries[index as int] == row.entries@[index as int]@);
        match &row.entries[index] {
            RowEntry::Field { name, ty } => {
                let optional = type_admits_undefined(ty, definitions);
                fields.push(RequiredField { name: name.clone(), optional });
            },
            _ => {
                assert(!(row@.entries[index as int] is Field));
                return None;
            },
        }
        index += 1;
    }
    Some(fields)
}

fn present_fields(row: &Row) -> (fields: Option<Vec<PresentField>>)
    ensures
        match fields {
            Some(fields) => all_fields(row@) && is_present_in(row@.entries, fields@),
            None => !all_fields(row@),
        },
{
    let mut fields: Vec<PresentField> = Vec::new();
    let mut index: usize = 0;
    assert(row@.entries.len() == row.entries.len());
    while index < row.entries.len()
        invariant
            index <= row.entries.len(),
            row@.entries.len() == row.entries.len(),
            fields.len() == index,
            forall|i: int| 0 <= i < index ==> (#[trigger] row@.entries[i]) is Field,
            forall|i: int|
                0 <= i < index ==> (#[trigger] fields@[i]).name@ == row@.entries[i]->Field_name
                    && fields@[i].compared && !fields@[i].checked_alone,
        decreases row.entries.len() - index,
    {
        assert(row@.entries[index as int] == row.entries@[index as int]@);
        match &row.entries[index] {
            RowEntry::Field { name, .. } => {
                fields.push(
                    PresentField { name: name.clone(), compared: true, checked_alone: false },
                );
            },
            _ => {
                assert(!(row@.entries[index as int] is Field));
                return None;
            },
        }
        index += 1;
    }
    Some(fields)
}

/// The names of the fields of a row of fields.
pub open spec fn field_names_of(entries: Seq<SpecRowEntry>) -> Seq<Seq<char>> {
    entries.map_values(|entry: SpecRowEntry| entry->Field_name)
}

/// What is found about the first fields of a record type that is expected: a field that is
/// there is compared, and one that is not there is missing unless it may be left out or
/// the record may have more fields.
pub open spec fn record_type_findings(
    expected: Seq<SpecRowEntry>,
    actual: SpecRow,
    definitions: Map<Seq<char>, SpecType>,
    count: nat,
) -> Seq<RecordFinding>
    decreases count,
{
    if count == 0 || count > expected.len() {
        Seq::empty()
    } else {
        let earlier = record_type_findings(expected, actual, definitions, (count - 1) as nat);
        let entry = expected[count - 1];
        match last_position(field_names_of(actual.entries), entry->Field_name) {
            Some(position) => earlier.push(
                RecordFinding::Compare {
                    required: (count - 1) as usize,
                    present: position as usize,
                },
            ),
            None => if !(normal_form(entry->Field_ty, definitions) is Optional) && !(
            actual.tail is Open) {
                earlier.push(RecordFinding::Missing { required: (count - 1) as usize })
            } else {
                earlier
            },
        }
    }
}

/// The last position of a name is one of the list.
pub proof fn position_is_in_range(names: Seq<Seq<char>>, name: Seq<char>)
    ensures
        last_position(names, name) matches Some(position) ==> 0 <= position < names.len(),
    decreases names.len(),
{
    if names.len() > 0 {
        position_is_in_range(names.drop_last(), name);
    }
}

proof fn type_findings_are_required_findings(
    expected: Seq<SpecRowEntry>,
    actual: SpecRow,
    definitions: Map<Seq<char>, SpecType>,
    required: Seq<RequiredField>,
    present: Seq<PresentField>,
    count: nat,
)
    requires
        is_required_by(expected, definitions, required),
        is_present_in(actual.entries, present),
        count <= expected.len(),
    ensures
        required_findings(required, present, !(actual.tail is Open), count)
            == record_type_findings(expected, actual, definitions, count),
    decreases count,
{
    if count > 0 {
        type_findings_are_required_findings(
            expected,
            actual,
            definitions,
            required,
            present,
            (count - 1) as nat,
        );
        assert(present_names(present) =~= field_names_of(actual.entries));
        let index = count - 1;
        assert(required[index].name@ == expected[index]->Field_name);
        position_is_in_range(present_names(present), required[index].name@);
        assert(required_findings(required, present, !(actual.tail is Open), count)
            =~= record_type_findings(expected, actual, definitions, count));
    }
}

proof fn type_fields_are_not_checked_alone(
    required: Seq<RequiredField>,
    present: Seq<PresentField>,
    entries: Seq<SpecRowEntry>,
    count: nat,
)
    requires
        is_present_in(entries, present),
        count <= present.len(),
    ensures
        present_findings(required, present, false, count) == Seq::<RecordFinding>::empty(),
    decreases count,
{
    if count > 0 {
        type_fields_are_not_checked_alone(required, present, entries, (count - 1) as nat);
        assert(!present[count - 1].checked_alone);
        assert(present_finding(required, present, false, count - 1) =~= Seq::empty());
        assert(present_findings(required, present, false, count) =~= Seq::empty());
    }
}

/// Compare two record types. A record may have fields that are not asked for; one
/// that may have more may lack some. There is nothing to compare where a row is
/// not one of fields.
pub fn compare_record_types(expected: &Row, actual: &Row, definitions: &StringMap<Type>) -> (findings:
    Option<Vec<RecordFinding>>)
    ensures
        match findings {
            Some(findings) => {
                &&& all_fields(expected@)
                &&& all_fields(actual@)
                &&& findings@ == record_type_findings(
                    expected@.entries,
                    actual@,
                    type_map_view(definitions@),
                    expected@.entries.len(),
                )
            },
            None => !all_fields(expected@) || !all_fields(actual@),
        },
{
    assert(expected@.tail == expected.tail);
    assert(actual@.tail == actual.tail);
    let required = match required_fields(expected, definitions) {
        Some(fields) => fields,
        None => {
            return None;
        },
    };
    let present = match present_fields(actual) {
        Some(fields) => fields,
        None => {
            return None;
        },
    };
    let open = matches!(expected.tail, RowTail::Open);
    let reject_missing = !matches!(actual.tail, RowTail::Open);
    let findings = compare_record(&required, open, &present, false, reject_missing);
    proof {
        type_findings_are_required_findings(
            expected@.entries,
            actual@,
            type_map_view(definitions@),
            required@,
            present@,
            expected@.entries.len(),
        );
        type_fields_are_not_checked_alone(
            required@,
            present@,
            actual@.entries,
            present@.len(),
        );
        assert(findings@ =~= record_type_findings(
            expected@.entries,
            actual@,
            type_map_view(definitions@),
            expected@.entries.len(),
        ));
    }
    Some(findings)
}

/// The value that an entry gives the field that it adds.
pub open spec fn added_value(entry: RecordEntry) -> Option<Expr> {
    match entry {
        RecordEntry::Field { value, .. } => Some(*value),
        _ => None,
    }
}

/// The names of the fields that entries add.
pub open spec fn added_names(entries: Seq<RecordEntry>) -> Seq<Seq<char>> {
    entries.map_values(|entry: RecordEntry| added_name(entry))
}

/// What is found about the first fields that a record type asks for, where a record value
/// is held against it.
pub open spec fn asked_field_findings(
    expected: Seq<SpecRowEntry>,
    entries: Seq<RecordEntry>,
    definitions: Map<Seq<char>, SpecType>,
    count: nat,
) -> Seq<RecordFinding>
    decreases count,
{
    if count == 0 || count > expected.len() {
        Seq::empty()
    } else {
        let earlier = asked_field_findings(expected, entries, definitions, (count - 1) as nat);
        let entry = expected[count - 1];
        match last_position(added_names(entries), entry->Field_name) {
            Some(position) => if added_value(entries[position]) is Some {
                earlier.push(
                    RecordFinding::Compare {
                        required: (count - 1) as usize,
                        present: position as usize,
                    },
                )
            } else {
                earlier
            },
            None => if !(normal_form(entry->Field_ty, definitions) is Optional) {
                earlier.push(RecordFinding::Missing { required: (count - 1) as usize })
            } else {
                earlier
            },
        }
    }
}

/// What is found about the first fields of a record value that a record type does not ask
/// for.
pub open spec fn other_field_findings(
    expected: SpecRow,
    entries: Seq<RecordEntry>,
    count: nat,
) -> Seq<RecordFinding>
    decreases count,
{
    if count == 0 || count > entries.len() {
        Seq::empty()
    } else {
        let earlier = other_field_findings(expected, entries, (count - 1) as nat);
        if field_names_of(expected.entries).contains(added_name(entries[count - 1])) {
            earlier
        } else {
            earlier + (if expected.tail is Open {
                Seq::empty()
            } else {
                seq![RecordFinding::Unexpected { present: (count - 1) as usize }]
            }) + (if added_value(entries[count - 1]) is Some {
                seq![RecordFinding::CheckAlone { present: (count - 1) as usize }]
            } else {
                Seq::empty()
            })
        }
    }
}

/// What is found where a record value is held against a record type.
pub open spec fn record_value_findings(
    expected: SpecRow,
    entries: Seq<RecordEntry>,
    definitions: Map<Seq<char>, SpecType>,
) -> Seq<RecordFinding> {
    asked_field_findings(expected.entries, entries, definitions, expected.entries.len())
        + other_field_findings(expected, entries, entries.len())
}

/// The fields of a record value, with their values to check where they have any.
pub open spec fn is_present_by(entries: Seq<RecordEntry>, fields: Seq<PresentField>) -> bool {
    &&& fields.len() == entries.len()
    &&& forall|i: int|
        0 <= i < entries.len() ==> (#[trigger] fields[i]).name@ == added_name(entries[i])
            && fields[i].compared == (added_value(entries[i]) is Some) && fields[i].checked_alone
            == (added_value(entries[i]) is Some)
}

proof fn asked_fields_are_required(
    expected: Seq<SpecRowEntry>,
    entries: Seq<RecordEntry>,
    definitions: Map<Seq<char>, SpecType>,
    required: Seq<RequiredField>,
    present: Seq<PresentField>,
    count: nat,
)
    requires
        is_required_by(expected, definitions, required),
        is_present_by(entries, present),
        count <= expected.len(),
    ensures
        required_findings(required, present, true, count) == asked_field_findings(
            expected,
            entries,
            definitions,
            count,
        ),
    decreases count,
{
    if count > 0 {
        asked_fields_are_required(
            expected,
            entries,
            definitions,
            required,
            present,
            (count - 1) as nat,
        );
        assert(present_names(present) =~= added_names(entries));
        let index = count - 1;
        assert(required[index].name@ == expected[index]->Field_name);
        position_is_in_range(present_names(present), required[index].name@);
        assert(required_findings(required, present, true, count) =~= asked_field_findings(
            expected,
            entries,
            definitions,
            count,
        ));
    }
}

proof fn other_fields_are_present(
    expected: SpecRow,
    entries: Seq<RecordEntry>,
    definitions: Map<Seq<char>, SpecType>,
    required: Seq<RequiredField>,
    present: Seq<PresentField>,
    count: nat,
)
    requires
        is_required_by(expected.entries, definitions, required),
        is_present_by(entries, present),
        count <= entries.len(),
    ensures
        present_findings(required, present, !(expected.tail is Open), count)
            == other_field_findings(expected, entries, count),
    decreases count,
{
    if count > 0 {
        other_fields_are_present(
            expected,
            entries,
            definitions,
            required,
            present,
            (count - 1) as nat,
        );
        assert(required_names(required) =~= field_names_of(expected.entries));
        assert(present[count - 1].name@ == added_name(entries[count - 1]));
        assert(present_findings(required, present, !(expected.tail is Open), count)
            =~= other_field_findings(expected, entries, count));
    }
}

fn value_fields(fields: &Vec<ValueRecordField<'_>>, entries: &Vec<RecordEntry>) -> (present: Vec<
    PresentField,
>)
    requires
        fields@.len() == entries@.len(),
        forall|i: int|
            0 <= i < fields@.len() ==> is_added_field(entries@[i], #[trigger] fields@[i]),
    ensures
        is_present_by(entries@, present@),
{
    let mut present: Vec<PresentField> = Vec::new();
    let mut index: usize = 0;
    while index < fields.len()
        invariant
            index <= fields.len(),
            fields@.len() == entries@.len(),
            present@.len() == index,
            forall|i: int|
                0 <= i < fields@.len() ==> is_added_field(entries@[i], #[trigger] fields@[i]),
            forall|i: int|
                0 <= i < index ==> (#[trigger] present@[i]).name@ == added_name(entries@[i])
                    && present@[i].compared == (added_value(entries@[i]) is Some)
                    && present@[i].checked_alone == (added_value(entries@[i]) is Some),
        decreases fields.len() - index,
    {
        let has_value = fields[index].value.is_some();
        assert(is_added_field(entries@[index as int], fields@[index as int]));
        present.push(
            PresentField {
                name: fields[index].name.to_owned(),
                compared: has_value,
                checked_alone: has_value,
            },
        );
        index += 1;
    }
    present
}

/// Compare a record value with a record type. Other fields are refused unless the type
/// admits them. There is nothing to compare where the row is not one of fields, or where
/// the value does not list its fields.
pub fn compare_record_value(
    expected: &Row,
    entries: &Vec<RecordEntry>,
    definitions: &StringMap<Type>,
) -> (findings: Option<Vec<RecordFinding>>)
    ensures
        match findings {
            Some(findings) => {
                &&& all_fields(expected@)
                &&& lists_fields(entries@)
                &&& findings@ == record_value_findings(
                    expected@,
                    entries@,
                    type_map_view(definitions@),
                )
            },
            None => !all_fields(expected@) || !lists_fields(entries@),
        },
{
    assert(expected@.tail == expected.tail);
    let Some(required) = required_fields(expected, definitions) else {
        return None;
    };
    let Some(fields) = literal_record_value(entries) else {
        return None;
    };
    let present = value_fields(&fields, entries);
    let open = matches!(expected.tail, RowTail::Open);
    let findings = compare_record(&required, open, &present, true, true);
    proof {
        asked_fields_are_required(
            expected@.entries,
            entries@,
            type_map_view(definitions@),
            required@,
            present@,
            expected@.entries.len(),
        );
        other_fields_are_present(
            expected@,
            entries@,
            type_map_view(definitions@),
            required@,
            present@,
            entries@.len(),
        );
    }
    Some(findings)
}

// ---------------------------------------------------------------------------
// Laws
// ---------------------------------------------------------------------------
/// A type fits where it is expected itself.
pub proof fn types_fit_themselves(context: SpecComparison, ty: SpecType, names_mismatch: bool)
    ensures
        type_step(context, ty, ty, names_mismatch) is Accept,
{
}

/// A family counts as its base, but not inside another type.
pub proof fn families_widen_only_as_a_whole(
    context: SpecComparison,
    expected: SpecType,
    actual: SpecType,
    names_mismatch: bool,
)
    requires
        expected != actual,
        widens_inside(context.family_bases, expected, actual),
    ensures
        type_step(context, expected, actual, names_mismatch) == (if base_view(
            context.family_bases,
            actual,
        ) == Some(expected) {
            SpecStep::Widen
        } else {
            types_mismatch()
        }),
{
}

/// A rigid variable fits no known type but itself.
pub proof fn rigid_variables_fit_only_themselves(
    context: SpecComparison,
    name: Seq<char>,
    actual: SpecType,
    names_mismatch: bool,
)
    requires
        context.rigid.contains(name),
        base_view(context.family_bases, actual) != Some(SpecType::Variable(name)),
        actual is Record || actual is Tuple || actual is Variant || (actual is Named) || (
        actual is Function),
    ensures
        type_step(context, SpecType::Variable(name), actual, names_mismatch)
            == SpecStep::RigidVariable(name),
{
    let expected = SpecType::Variable(name);
    assert(!widens_inside(context.family_bases, expected, actual));
}

/// A known type without parts admits no value that may be empty.
pub proof fn named_types_admit_no_empty_value(
    context: SpecComparison,
    name: Seq<char>,
    actual: SpecType,
    names_mismatch: bool,
)
    requires
        context.known_types.contains(name),
        actual is Optional || actual is Nullable,
    ensures
        type_step(context, SpecType::Named(name), actual, names_mismatch) is Mismatch,
{
}

/// Functions of as many parameters that name no variables of their own are compared part by
/// part: a parameter that is expected must fit the one that is there, and the result that is
/// there the one that is expected.
pub proof fn function_parameters_are_compared_the_other_way(
    context: SpecComparison,
    expected: SpecType,
    actual: SpecType,
)
    requires
        expected is Function,
        actual is Function,
        expected != actual,
        expected->Function_params.len() == actual->Function_params.len(),
        variables(actual).subset_of(context.rigid),
        metas(actual).len() == 0,
        !widens_inside(context.family_bases, expected, actual),
    ensures
        forall|mismatch: bool| #[trigger]
            type_step(context, expected, actual, mismatch) == SpecStep::Compare(
                zipped(actual->Function_params, expected->Function_params).push(
                    (*expected->Function_result, *actual->Function_result),
                ),
            ),
{
    assert forall|name: Seq<char>| variables(actual).contains(name) implies #[trigger] context.rigid.contains(
        name,
    ) by {}
}

} // verus!
