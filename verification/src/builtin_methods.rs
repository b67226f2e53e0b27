//! The methods that the scalar builtin types have.
use crate::methods::{MethodSignature, SpecSignature};
use crate::text::same_text;
use crate::type_ops::{is_named, named_builtin};
use crate::types::{types_view, SpecType, Type};
use vstd::prelude::*;

verus! {

/// A scalar builtin type.
#[derive(Debug, Clone, Copy, PartialEq, Eq, Structural)]
pub enum BuiltinType {
    Bool,
    Float,
    Int,
    Text,
}

impl BuiltinType {
    /// The type with this builtin's name.
    pub open spec fn named(self) -> SpecType {
        match self {
            BuiltinType::Bool => SpecType::Named("Bool"@),
            BuiltinType::Float => SpecType::Named("Float"@),
            BuiltinType::Int => SpecType::Named("Int"@),
            BuiltinType::Text => SpecType::Named("Text"@),
        }
    }

    /// The scalar builtin that a type names.
    pub open spec fn of(ty: SpecType) -> Option<BuiltinType> {
        if ty == BuiltinType::Bool.named() {
            Some(BuiltinType::Bool)
        } else if ty == BuiltinType::Float.named() {
            Some(BuiltinType::Float)
        } else if ty == BuiltinType::Int.named() {
            Some(BuiltinType::Int)
        } else if ty == BuiltinType::Text.named() {
            Some(BuiltinType::Text)
        } else {
            None
        }
    }

    /// The scalar builtin that a type names.
    pub fn from_type(ty: &Type) -> (builtin: Option<BuiltinType>)
        ensures
            builtin == BuiltinType::of(ty@),
    {
        if is_named(ty, "Bool") {
            Some(BuiltinType::Bool)
        } else if is_named(ty, "Float") {
            Some(BuiltinType::Float)
        } else if is_named(ty, "Int") {
            Some(BuiltinType::Int)
        } else if is_named(ty, "Text") {
            Some(BuiltinType::Text)
        } else {
            None
        }
    }

    /// The type with this builtin's name.
    pub fn to_type(self) -> (ty: Type)
        ensures
            ty@ == self.named(),
    {
        match self {
            BuiltinType::Bool => named_builtin("Bool"),
            BuiltinType::Float => named_builtin("Float"),
            BuiltinType::Int => named_builtin("Int"),
            BuiltinType::Text => named_builtin("Text"),
        }
    }
}

/// The builtin names are pairwise different.
pub proof fn builtin_names_differ()
    ensures
        "Bool"@ != "Float"@,
        "Bool"@ != "Int"@,
        "Bool"@ != "Text"@,
        "Float"@ != "Int"@,
        "Float"@ != "Text"@,
        "Int"@ != "Text"@,
{
    reveal_strlit("Bool");
    reveal_strlit("Float");
    reveal_strlit("Int");
    reveal_strlit("Text");
    assert("Bool"@.len() == 4 && "Bool"@[0] == 'B');
    assert("Float"@.len() == 5 && "Float"@[0] == 'F');
    assert("Int"@.len() == 3 && "Int"@[0] == 'I');
    assert("Text"@.len() == 4 && "Text"@[0] == 'T');
}

/// Naming a builtin and reading the name back gives that builtin.
pub proof fn builtin_type_reads_back(builtin: BuiltinType)
    ensures
        BuiltinType::of(builtin.named()) == Some(builtin),
{
    builtin_names_differ();
}

/// The result of a builtin method.
#[derive(Debug, Clone, Copy, PartialEq, Eq, Structural)]
pub enum BuiltinResult {
    Plain(BuiltinType),
    Optional(BuiltinType),
}

impl BuiltinResult {
    /// The type of the result.
    pub open spec fn named(self) -> SpecType {
        match self {
            BuiltinResult::Plain(ty) => ty.named(),
            BuiltinResult::Optional(ty) => SpecType::Optional(Box::new(ty.named())),
        }
    }

    /// The type of the result.
    pub fn to_type(self) -> (ty: Type)
        ensures
            ty@ == self.named(),
    {
        match self {
            BuiltinResult::Plain(ty) => ty.to_type(),
            BuiltinResult::Optional(ty) => Type::Optional(Box::new(ty.to_type())),
        }
    }
}

/// One method of a scalar builtin type.
#[derive(Debug)]
pub struct BuiltinMethodEntry {
    pub owner: BuiltinType,
    pub member: &'static str,
    pub params: Vec<BuiltinType>,
    pub result: BuiltinResult,
}

/// One method of a scalar builtin type.
pub ghost struct SpecBuiltinEntry {
    pub owner: BuiltinType,
    pub member: Seq<char>,
    pub params: Seq<BuiltinType>,
    pub result: BuiltinResult,
}

impl BuiltinMethodEntry {
    pub open spec fn view(&self) -> SpecBuiltinEntry {
        SpecBuiltinEntry {
            owner: self.owner,
            member: self.member@,
            params: self.params@,
            result: self.result,
        }
    }
}

pub open spec fn table_view(table: Seq<BuiltinMethodEntry>) -> Seq<SpecBuiltinEntry> {
    Seq::new(table.len(), |i: int| table[i]@)
}

/// The operators that compute a number from two numbers.
pub open spec fn is_arithmetic(member: Seq<char>) -> bool {
    member == "+"@ || member == "-"@ || member == "*"@ || member == "/"@ || member == "%"@
        || member == "^"@
}

/// The operators that compare two numbers.
pub open spec fn is_comparison(member: Seq<char>) -> bool {
    member == "<"@ || member == "<="@ || member == ">"@ || member == ">="@
}

/// The parameters and the result of a builtin's method.
pub open spec fn builtin_method(owner: BuiltinType, member: Seq<char>) -> Option<
    (Seq<BuiltinType>, BuiltinResult),
> {
    let none = Seq::<BuiltinType>::empty();
    match owner {
        BuiltinType::Int => {
            let whole = BuiltinResult::Plain(BuiltinType::Int);
            if is_arithmetic(member) || member == "min"@ || member == "max"@ || member == "pow"@ {
                Some((seq![BuiltinType::Int], whole))
            } else if is_comparison(member) {
                Some((seq![BuiltinType::Int], BuiltinResult::Plain(BuiltinType::Bool)))
            } else if member == "div"@ || member == "mod"@ {
                Some((seq![BuiltinType::Int], BuiltinResult::Optional(BuiltinType::Int)))
            } else if member == "abs"@ || member == "sign"@ {
                Some((none, whole))
            } else if member == "clamp"@ {
                Some((seq![BuiltinType::Int, BuiltinType::Int], whole))
            } else if member == "toText"@ {
                Some((none, BuiltinResult::Plain(BuiltinType::Text)))
            } else if member == "toGrouped"@ {
                Some((seq![BuiltinType::Text], BuiltinResult::Plain(BuiltinType::Text)))
            } else if member == "toFloat"@ {
                Some((none, BuiltinResult::Plain(BuiltinType::Float)))
            } else {
                None
            }
        },
        BuiltinType::Float => {
            let float = BuiltinResult::Plain(BuiltinType::Float);
            if is_arithmetic(member) || member == "min"@ || member == "max"@ || member == "pow"@ {
                Some((seq![BuiltinType::Float], float))
            } else if is_comparison(member) || member == "ieeeEquals"@ {
                Some((seq![BuiltinType::Float], BuiltinResult::Plain(BuiltinType::Bool)))
            } else if member == "isFinite"@ || member == "isNaN"@ || member == "isInfinite"@ {
                Some((none, BuiltinResult::Plain(BuiltinType::Bool)))
            } else if member == "abs"@ || member == "round"@ || member == "floor"@ || member
                == "ceil"@ || member == "truncate"@ || member == "sqrt"@ {
                Some((none, float))
            } else if member == "clamp"@ {
                Some((seq![BuiltinType::Float, BuiltinType::Float], float))
            } else if member == "toText"@ {
                Some((none, BuiltinResult::Plain(BuiltinType::Text)))
            } else if member == "toFixed"@ {
                Some((seq![BuiltinType::Int], BuiltinResult::Plain(BuiltinType::Text)))
            } else {
                None
            }
        },
        BuiltinType::Text => {
            if member == "+"@ {
                Some((seq![BuiltinType::Text], BuiltinResult::Plain(BuiltinType::Text)))
            } else if member == "toText"@ {
                Some((none, BuiltinResult::Plain(BuiltinType::Text)))
            } else {
                None
            }
        },
        BuiltinType::Bool => {
            if member == "toText"@ {
                Some((none, BuiltinResult::Plain(BuiltinType::Text)))
            } else {
                None
            }
        },
    }
}

fn is_arithmetic_member(member: &str) -> (holds: bool)
    ensures
        holds == is_arithmetic(member@),
{
    same_text(member, "+") || same_text(member, "-") || same_text(member, "*") || same_text(
        member,
        "/",
    ) || same_text(member, "%") || same_text(member, "^")
}

fn is_comparison_member(member: &str) -> (holds: bool)
    ensures
        holds == is_comparison(member@),
{
    same_text(member, "<") || same_text(member, "<=") || same_text(member, ">") || same_text(
        member,
        ">=",
    )
}

fn no_params() -> (params: Vec<BuiltinType>)
    ensures
        params@ == Seq::<BuiltinType>::empty(),
{
    Vec::new()
}

fn one_param(param: BuiltinType) -> (params: Vec<BuiltinType>)
    ensures
        params@ == seq![param],
{
    let mut params: Vec<BuiltinType> = Vec::new();
    params.push(param);
    assert(params@ =~= seq![param]);
    params
}

fn two_params(param: BuiltinType) -> (params: Vec<BuiltinType>)
    ensures
        params@ == seq![param, param],
{
    let mut params: Vec<BuiltinType> = Vec::new();
    params.push(param);
    params.push(param);
    assert(params@ =~= seq![param, param]);
    params
}

fn find_builtin_method(owner: BuiltinType, member: &str) -> (found: Option<
    (Vec<BuiltinType>, BuiltinResult),
>)
    ensures
        match found {
            Some((params, result)) => builtin_method(owner, member@) == Some((params@, result)),
            None => builtin_method(owner, member@) is None,
        },
{
    let text = BuiltinResult::Plain(BuiltinType::Text);
    let boolean = BuiltinResult::Plain(BuiltinType::Bool);
    match owner {
        BuiltinType::Int => {
            let whole = BuiltinResult::Plain(BuiltinType::Int);
            if is_arithmetic_member(member) || same_text(member, "min") || same_text(member, "max")
                || same_text(member, "pow") {
                Some((one_param(BuiltinType::Int), whole))
            } else if is_comparison_member(member) {
                Some((one_param(BuiltinType::Int), boolean))
            } else if same_text(member, "div") || same_text(member, "mod") {
                Some((one_param(BuiltinType::Int), BuiltinResult::Optional(BuiltinType::Int)))
            } else if same_text(member, "abs") || same_text(member, "sign") {
                Some((no_params(), whole))
            } else if same_text(member, "clamp") {
                Some((two_params(BuiltinType::Int), whole))
            } else if same_text(member, "toText") {
                Some((no_params(), text))
            } else if same_text(member, "toGrouped") {
                Some((one_param(BuiltinType::Text), text))
            } else if same_text(member, "toFloat") {
                Some((no_params(), BuiltinResult::Plain(BuiltinType::Float)))
            } else {
                None
            }
        },
        BuiltinType::Float => {
            let float = BuiltinResult::Plain(BuiltinType::Float);
            if is_arithmetic_member(member) || same_text(member, "min") || same_text(member, "max")
                || same_text(member, "pow") {
                Some((one_param(BuiltinType::Float), float))
            } else if is_comparison_member(member) || same_text(member, "ieeeEquals") {
                Some((one_param(BuiltinType::Float), boolean))
            } else if same_text(member, "isFinite") || same_text(member, "isNaN") || same_text(
                member,
                "isInfinite",
            ) {
                Some((no_params(), boolean))
            } else if same_text(member, "abs") || same_text(member, "round") || same_text(
                member,
                "floor",
            ) || same_text(member, "ceil") || same_text(member, "truncate") || same_text(
                member,
                "sqrt",
            ) {
                Some((no_params(), float))
            } else if same_text(member, "clamp") {
                Some((two_params(BuiltinType::Float), float))
            } else if same_text(member, "toText") {
                Some((no_params(), text))
            } else if same_text(member, "toFixed") {
                Some((one_param(BuiltinType::Int), text))
            } else {
                None
            }
        },
        BuiltinType::Text => {
            if same_text(member, "+") {
                Some((one_param(BuiltinType::Text), text))
            } else if same_text(member, "toText") {
                Some((no_params(), text))
            } else {
                None
            }
        },
        BuiltinType::Bool => {
            if same_text(member, "toText") {
                Some((no_params(), text))
            } else {
                None
            }
        },
    }
}

/// The types that a list of builtins names.
pub open spec fn named_all(builtins: Seq<BuiltinType>) -> Seq<SpecType> {
    Seq::new(builtins.len(), |i: int| builtins[i].named())
}

/// The types that a list of builtins names.
pub fn builtin_types(builtins: &Vec<BuiltinType>) -> (types: Vec<Type>)
    ensures
        types_view(types@) == named_all(builtins@),
{
    let mut types: Vec<Type> = Vec::new();
    let mut index: usize = 0;
    while index < builtins.len()
        invariant
            index <= builtins.len(),
            types.len() == index,
            forall|i: int| 0 <= i < index ==> (#[trigger] types@[i])@ == builtins@[i].named(),
        decreases builtins.len() - index,
    {
        types.push(builtins[index].to_type());
        index += 1;
    }
    assert(types_view(types@) =~= named_all(builtins@));
    types
}

/// The signature of a method that a scalar builtin type declares itself.
pub open spec fn builtin_signature(owner: SpecType, member: Seq<char>) -> Option<SpecSignature> {
    match BuiltinType::of(owner) {
        Some(owner) => match builtin_method(owner, member) {
            Some((params, result)) => Some(
                SpecSignature {
                    params: named_all(params),
                    result: result.named(),
                    predicates: Seq::empty(),
                },
            ),
            None => None,
        },
        None => None,
    }
}

/// Look up a method that an exact scalar builtin type declares itself.
///
/// Widening and promotion of operands happen before this lookup: `Int.+` takes
/// an `Int`, and a mixed `Int + Float` selects `Float.+` after promotion.
pub fn builtin_method_signature(owner: &Type, member: &str) -> (signature: Option<
    MethodSignature,
>)
    ensures
        match signature {
            Some(signature) => builtin_signature(owner@, member@) == Some(signature@),
            None => builtin_signature(owner@, member@) is None,
        },
{
    match BuiltinType::from_type(owner) {
        Some(builtin) => match find_builtin_method(builtin, member) {
            Some((params, result)) => {
                let signature = MethodSignature {
                    params: builtin_types(&params),
                    result: result.to_type(),
                    predicates: Vec::new(),
                };
                assert(signature@.predicates =~= Seq::empty());
                Some(signature)
            },
            None => None,
        },
        None => None,
    }
}

/// Whether an operand can be passed where an operator takes `target`.
pub open spec fn operand_fits(source: SpecType, target: SpecType) -> bool {
    source == target || (BuiltinType::of(source) == Some(BuiltinType::Int) && BuiltinType::of(
        target,
    ) == Some(BuiltinType::Float))
}

/// Whether an operand can be passed where an operator takes `target`: it is
/// that type, or an `Int` where a `Float` is taken.
pub fn operator_operand_fits(source: &Type, target: &Type) -> (fits: bool)
    ensures
        fits == operand_fits(source@, target@),
{
    *source == *target || (match (BuiltinType::from_type(source), BuiltinType::from_type(target)) {
        (Some(BuiltinType::Int), Some(BuiltinType::Float)) => true,
        _ => false,
    })
}

/// The signature of a builtin binary operation on the given operands.
pub open spec fn operator_signature(
    left: SpecType,
    member: Seq<char>,
    right: SpecType,
) -> Option<SpecSignature> {
    let float = BuiltinType::Float.named();
    match builtin_signature(left, member) {
        Some(signature) if signature.params == seq![right] => Some(signature),
        _ => if operand_fits(left, float) && operand_fits(right, float) {
            match builtin_signature(float, member) {
                Some(signature) if signature.params == seq![float] => Some(signature),
                _ => None,
            }
        } else {
            None
        },
    }
}

fn takes_exactly(signature: &MethodSignature, param: &Type) -> (takes: bool)
    ensures
        takes == (signature@.params == seq![param@]),
{
    if signature.params.len() != 1 {
        assert(signature@.params.len() != 1);
        return false;
    }
    assert(signature@.params[0] == signature.params@[0]@);
    if signature.params[0] == *param {
        assert(signature@.params =~= seq![param@]);
        true
    } else {
        false
    }
}

/// Resolve a builtin binary operation, including the promotion of `Int` to
/// `Float`.
pub fn resolve_builtin_operator_signature(left: &Type, member: &str, right: &Type) -> (signature:
    Option<MethodSignature>)
    ensures
        match signature {
            Some(signature) => operator_signature(left@, member@, right@) == Some(signature@),
            None => operator_signature(left@, member@, right@) is None,
        },
{
    if let Some(signature) = builtin_method_signature(left, member) {
        if takes_exactly(&signature, right) {
            return Some(signature);
        }
    }
    let float = named_builtin("Float");
    if operator_operand_fits(left, &float) && operator_operand_fits(right, &float) {
        if let Some(signature) = builtin_method_signature(&float, member) {
            if takes_exactly(&signature, &float) {
                return Some(signature);
            }
        }
    }
    None
}

/// An arithmetic operator or comparison on operands of different types is
/// defined only for `Int` and `Float`, and is then the operation on floats.
pub proof fn mixed_operands_promote_only_int_to_float(
    left: SpecType,
    member: Seq<char>,
    right: SpecType,
)
    requires
        is_arithmetic(member) || is_comparison(member),
        left != right,
    ensures
        operator_signature(left, member, right) == (if (left == BuiltinType::Int.named() && right
            == BuiltinType::Float.named()) || (left == BuiltinType::Float.named() && right
            == BuiltinType::Int.named()) {
            builtin_signature(BuiltinType::Float.named(), member)
        } else {
            None
        }),
{
    builtin_names_differ();
    operator_names_differ();
    let float = BuiltinType::Float.named();
    let float_signature = builtin_signature(float, member)->0;
    assert(float_signature.params =~= seq![float]);
    match builtin_signature(left, member) {
        Some(signature) => {
            assert(signature.params =~= seq![left]);
            if signature.params == seq![right] {
                assert(seq![left][0] == seq![right][0]);
            }
        },
        None => {},
    }
}

/// An arithmetic operator is no comparison, and neither is the name of another
/// method.
proof fn operator_names_differ()
    ensures
        forall|member: Seq<char>| #[trigger]
            is_arithmetic(member) ==> !is_comparison(member) && member != "toText"@,
        forall|member: Seq<char>| #[trigger]
            is_comparison(member) ==> !is_arithmetic(member) && member != "toText"@ && member
                != "min"@ && member != "max"@ && member != "pow"@,
{
    reveal_strlit("+");
    reveal_strlit("-");
    reveal_strlit("*");
    reveal_strlit("/");
    reveal_strlit("%");
    reveal_strlit("^");
    reveal_strlit("<");
    reveal_strlit("<=");
    reveal_strlit(">");
    reveal_strlit(">=");
    reveal_strlit("toText");
    reveal_strlit("min");
    reveal_strlit("max");
    reveal_strlit("pow");
    assert("+"@.len() == 1 && "+"@[0] == '+');
    assert("-"@.len() == 1 && "-"@[0] == '-');
    assert("*"@.len() == 1 && "*"@[0] == '*');
    assert("/"@.len() == 1 && "/"@[0] == '/');
    assert("%"@.len() == 1 && "%"@[0] == '%');
    assert("^"@.len() == 1 && "^"@[0] == '^');
    assert("<"@.len() == 1 && "<"@[0] == '<');
    assert("<="@.len() == 2 && "<="@[0] == '<');
    assert(">"@.len() == 1 && ">"@[0] == '>');
    assert(">="@.len() == 2 && ">="@[0] == '>');
    assert("toText"@.len() == 6 && "toText"@[0] == 't');
    assert("min"@.len() == 3 && "min"@[0] == 'm');
    assert("max"@.len() == 3 && "max"@[0] == 'm');
    assert("pow"@.len() == 3 && "pow"@[0] == 'p');
    assert("<="@[1] == '=');
}

// ---------------------------------------------------------------------------
// The table of methods
// ---------------------------------------------------------------------------
/// The names of an owner's methods in the order of the table.
pub open spec fn members_of(owner: BuiltinType) -> Seq<Seq<char>> {
    match owner {
        BuiltinType::Int => seq![
            "+"@,
            "-"@,
            "*"@,
            "/"@,
            "%"@,
            "div"@,
            "mod"@,
            "^"@,
            "<"@,
            "<="@,
            ">"@,
            ">="@,
            "toText"@,
            "toGrouped"@,
            "abs"@,
            "min"@,
            "max"@,
            "clamp"@,
            "pow"@,
            "sign"@,
            "toFloat"@,
        ],
        BuiltinType::Float => seq![
            "+"@,
            "-"@,
            "*"@,
            "/"@,
            "%"@,
            "^"@,
            "<"@,
            "<="@,
            ">"@,
            ">="@,
            "isFinite"@,
            "isNaN"@,
            "isInfinite"@,
            "ieeeEquals"@,
            "toText"@,
            "toFixed"@,
            "abs"@,
            "min"@,
            "max"@,
            "clamp"@,
            "pow"@,
            "round"@,
            "floor"@,
            "ceil"@,
            "truncate"@,
            "sqrt"@,
        ],
        BuiltinType::Text => seq!["+"@, "toText"@],
        BuiltinType::Bool => seq!["toText"@],
    }
}

pub open spec fn members_view(members: Seq<&'static str>) -> Seq<Seq<char>> {
    Seq::new(members.len(), |i: int| members[i]@)
}

/// The names of an owner's methods.
pub fn builtin_members(owner: BuiltinType) -> (members: Vec<&'static str>)
    ensures
        members_view(members@) == members_of(owner),
{
    let mut members: Vec<&'static str> = Vec::new();
    match owner {
        BuiltinType::Int => {
            members.push("+");
            members.push("-");
            members.push("*");
            members.push("/");
            members.push("%");
            members.push("div");
            members.push("mod");
            members.push("^");
            members.push("<");
            members.push("<=");
            members.push(">");
            members.push(">=");
            members.push("toText");
            members.push("toGrouped");
            members.push("abs");
            members.push("min");
            members.push("max");
            members.push("clamp");
            members.push("pow");
            members.push("sign");
            members.push("toFloat");
        },
        BuiltinType::Float => {
            members.push("+");
            members.push("-");
            members.push("*");
            members.push("/");
            members.push("%");
            members.push("^");
            members.push("<");
            members.push("<=");
            members.push(">");
            members.push(">=");
            members.push("isFinite");
            members.push("isNaN");
            members.push("isInfinite");
            members.push("ieeeEquals");
            members.push("toText");
            members.push("toFixed");
            members.push("abs");
            members.push("min");
            members.push("max");
            members.push("clamp");
            members.push("pow");
            members.push("round");
            members.push("floor");
            members.push("ceil");
            members.push("truncate");
            members.push("sqrt");
        },
        BuiltinType::Text => {
            members.push("+");
            members.push("toText");
        },
        BuiltinType::Bool => {
            members.push("toText");
        },
    }
    assert(members_view(members@) =~= members_of(owner));
    members
}

/// The listed names are exactly the names of the owner's methods, each once.
#[verifier::rlimit(50)]
#[verifier::spinoff_prover]
pub proof fn members_are_the_methods(owner: BuiltinType, member: Seq<char>)
    ensures
        members_of(owner).contains(member) == (builtin_method(owner, member) is Some),
        members_of(owner).no_duplicates(),
{
    reveal_strlit("+");
    reveal_strlit("-");
    reveal_strlit("*");
    reveal_strlit("/");
    reveal_strlit("%");
    reveal_strlit("div");
    reveal_strlit("mod");
    reveal_strlit("^");
    reveal_strlit("<");
    reveal_strlit("<=");
    reveal_strlit(">");
    reveal_strlit(">=");
    reveal_strlit("toText");
    reveal_strlit("toGrouped");
    reveal_strlit("abs");
    reveal_strlit("min");
    reveal_strlit("max");
    reveal_strlit("clamp");
    reveal_strlit("pow");
    reveal_strlit("sign");
    reveal_strlit("toFloat");
    reveal_strlit("isFinite");
    reveal_strlit("isNaN");
    reveal_strlit("isInfinite");
    reveal_strlit("ieeeEquals");
    reveal_strlit("toFixed");
    reveal_strlit("round");
    reveal_strlit("floor");
    reveal_strlit("ceil");
    reveal_strlit("truncate");
    reveal_strlit("sqrt");
    assert("+"@.len() == 1 && "+"@[0] == '+');
    assert("-"@.len() == 1 && "-"@[0] == '-');
    assert("*"@.len() == 1 && "*"@[0] == '*');
    assert("/"@.len() == 1 && "/"@[0] == '/');
    assert("%"@.len() == 1 && "%"@[0] == '%');
    assert("div"@.len() == 3 && "div"@[0] == 'd' && "div"@[1] == 'i' && "div"@[2] == 'v');
    assert("mod"@.len() == 3 && "mod"@[0] == 'm' && "mod"@[1] == 'o' && "mod"@[2] == 'd');
    assert("^"@.len() == 1 && "^"@[0] == '^');
    assert("<"@.len() == 1 && "<"@[0] == '<');
    assert("<="@.len() == 2 && "<="@[0] == '<' && "<="@[1] == '=');
    assert(">"@.len() == 1 && ">"@[0] == '>');
    assert(">="@.len() == 2 && ">="@[0] == '>' && ">="@[1] == '=');
    assert("toText"@.len() == 6 && "toText"@[0] == 't' && "toText"@[1] == 'o' && "toText"@[2] == 'T');
    assert("toGrouped"@.len() == 9 && "toGrouped"@[0] == 't' && "toGrouped"@[1] == 'o' && "toGrouped"@[2] == 'G');
    assert("abs"@.len() == 3 && "abs"@[0] == 'a' && "abs"@[1] == 'b' && "abs"@[2] == 's');
    assert("min"@.len() == 3 && "min"@[0] == 'm' && "min"@[1] == 'i' && "min"@[2] == 'n');
    assert("max"@.len() == 3 && "max"@[0] == 'm' && "max"@[1] == 'a' && "max"@[2] == 'x');
    assert("clamp"@.len() == 5 && "clamp"@[0] == 'c' && "clamp"@[1] == 'l' && "clamp"@[2] == 'a');
    assert("pow"@.len() == 3 && "pow"@[0] == 'p' && "pow"@[1] == 'o' && "pow"@[2] == 'w');
    assert("sign"@.len() == 4 && "sign"@[0] == 's' && "sign"@[1] == 'i' && "sign"@[2] == 'g');
    assert("toFloat"@.len() == 7 && "toFloat"@[0] == 't' && "toFloat"@[1] == 'o' && "toFloat"@[2] == 'F');
    assert("isFinite"@.len() == 8 && "isFinite"@[0] == 'i' && "isFinite"@[1] == 's' && "isFinite"@[2] == 'F');
    assert("isNaN"@.len() == 5 && "isNaN"@[0] == 'i' && "isNaN"@[1] == 's' && "isNaN"@[2] == 'N');
    assert("isInfinite"@.len() == 10 && "isInfinite"@[0] == 'i' && "isInfinite"@[1] == 's' && "isInfinite"@[2] == 'I');
    assert("ieeeEquals"@.len() == 10 && "ieeeEquals"@[0] == 'i' && "ieeeEquals"@[1] == 'e' && "ieeeEquals"@[2] == 'e');
    assert("toFixed"@.len() == 7 && "toFixed"@[0] == 't' && "toFixed"@[1] == 'o' && "toFixed"@[2] == 'F');
    assert("round"@.len() == 5 && "round"@[0] == 'r' && "round"@[1] == 'o' && "round"@[2] == 'u');
    assert("floor"@.len() == 5 && "floor"@[0] == 'f' && "floor"@[1] == 'l' && "floor"@[2] == 'o');
    assert("ceil"@.len() == 4 && "ceil"@[0] == 'c' && "ceil"@[1] == 'e' && "ceil"@[2] == 'i');
    assert("truncate"@.len() == 8 && "truncate"@[0] == 't' && "truncate"@[1] == 'r' && "truncate"@[2] == 'u');
    assert("sqrt"@.len() == 4 && "sqrt"@[0] == 's' && "sqrt"@[1] == 'q' && "sqrt"@[2] == 'r');
    let members = members_of(owner);
    if builtin_method(owner, member) is Some {
        match owner {
            BuiltinType::Int => {
                assert(members[0] == "+"@);
                assert(members[1] == "-"@);
                assert(members[2] == "*"@);
                assert(members[3] == "/"@);
                assert(members[4] == "%"@);
                assert(members[5] == "div"@);
                assert(members[6] == "mod"@);
                assert(members[7] == "^"@);
                assert(members[8] == "<"@);
                assert(members[9] == "<="@);
                assert(members[10] == ">"@);
                assert(members[11] == ">="@);
                assert(members[12] == "toText"@);
                assert(members[13] == "toGrouped"@);
                assert(members[14] == "abs"@);
                assert(members[15] == "min"@);
                assert(members[16] == "max"@);
                assert(members[17] == "clamp"@);
                assert(members[18] == "pow"@);
                assert(members[19] == "sign"@);
                assert(members[20] == "toFloat"@);
            },
            BuiltinType::Float => {
                assert(members[0] == "+"@);
                assert(members[1] == "-"@);
                assert(members[2] == "*"@);
                assert(members[3] == "/"@);
                assert(members[4] == "%"@);
                assert(members[5] == "^"@);
                assert(members[6] == "<"@);
                assert(members[7] == "<="@);
                assert(members[8] == ">"@);
                assert(members[9] == ">="@);
                assert(members[10] == "isFinite"@);
                assert(members[11] == "isNaN"@);
                assert(members[12] == "isInfinite"@);
                assert(members[13] == "ieeeEquals"@);
                assert(members[14] == "toText"@);
                assert(members[15] == "toFixed"@);
                assert(members[16] == "abs"@);
                assert(members[17] == "min"@);
                assert(members[18] == "max"@);
                assert(members[19] == "clamp"@);
                assert(members[20] == "pow"@);
                assert(members[21] == "round"@);
                assert(members[22] == "floor"@);
                assert(members[23] == "ceil"@);
                assert(members[24] == "truncate"@);
                assert(members[25] == "sqrt"@);
            },
            BuiltinType::Text => {
                assert(members[0] == "+"@ && members[1] == "toText"@);
            },
            BuiltinType::Bool => {
                assert(members[0] == "toText"@);
            },
        }
    }
}

/// The table entry of a method.
pub open spec fn entry_of(owner: BuiltinType, member: Seq<char>) -> SpecBuiltinEntry {
    SpecBuiltinEntry {
        owner,
        member,
        params: (builtin_method(owner, member)->0).0,
        result: (builtin_method(owner, member)->0).1,
    }
}

/// The table entries of an owner.
pub open spec fn owner_table(owner: BuiltinType) -> Seq<SpecBuiltinEntry> {
    Seq::new(members_of(owner).len(), |i: int| entry_of(owner, members_of(owner)[i]))
}

/// The table of all methods of the scalar builtin types.
pub open spec fn builtin_table() -> Seq<SpecBuiltinEntry> {
    owner_table(BuiltinType::Int) + owner_table(BuiltinType::Float) + owner_table(
        BuiltinType::Text,
    ) + owner_table(BuiltinType::Bool)
}

/// Append the table entries of an owner.
pub fn append_owner_methods(owner: BuiltinType, table: &mut Vec<BuiltinMethodEntry>)
    ensures
        table_view(final(table)@) == table_view(old(table)@) + owner_table(owner),
{
    let members = builtin_members(owner);
    let ghost before = table_view(table@);
    let mut index: usize = 0;
    assert(table_view(table@) =~= before + owner_table(owner).take(0));
    while index < members.len()
        invariant
            index <= members.len(),
            members_view(members@) == members_of(owner),
            table_view(table@) == before + owner_table(owner).take(index as int),
        decreases members.len() - index,
    {
        let member: &'static str = members[index];
        assert(members_view(members@)[index as int] == member@);
        proof {
            members_are_the_methods(owner, member@);
        }
        if let Some((params, result)) = find_builtin_method(owner, member) {
            let ghost shorter = table_view(table@);
            table.push(BuiltinMethodEntry { owner, member, params, result });
            assert(table_view(table@) =~= shorter.push(entry_of(owner, member@)));
            assert(owner_table(owner).take(index + 1) =~= owner_table(owner).take(
                index as int,
            ).push(entry_of(owner, member@)));
            assert(table_view(table@) =~= before + owner_table(owner).take(index + 1));
        }
        index += 1;
    }
    assert(owner_table(owner).take(owner_table(owner).len() as int) =~= owner_table(owner));
}

/// The table of all methods of the scalar builtin types.
pub fn builtin_methods() -> (table: Vec<BuiltinMethodEntry>)
    ensures
        table_view(table@) == builtin_table(),
{
    let mut table: Vec<BuiltinMethodEntry> = Vec::new();
    assert(table_view(table@) =~= Seq::empty());
    append_owner_methods(BuiltinType::Int, &mut table);
    append_owner_methods(BuiltinType::Float, &mut table);
    append_owner_methods(BuiltinType::Text, &mut table);
    append_owner_methods(BuiltinType::Bool, &mut table);
    assert(table_view(table@) =~= builtin_table());
    table
}

} // verus!
