//! Methods attached to builtin types.
use crate::families::{
    all_typed, declared_view, params_view, DeclaredMethod, DeclaredParam, SpecDeclared, SpecParam,
};
use crate::lookup::answers;
use crate::methods::{
    builtin_methods_view, clone_constraints, BuiltinMethodType, SpecBuiltinMethod,
};
use crate::owners::{
    builtin_owner_arity, builtin_owner_patterns_overlap, common_receiver_means_overlap,
    intrinsic_builtin_method_collides, intrinsic_collides, overlap_is_symmetric, owner_arity,
    patterns_overlap, IntrinsicMethodNames,
};
use crate::schemes::{increasing_list_is_listing, listing};
use crate::span::Span;
use crate::text::{clone_texts, same_text, texts_view};
use crate::type_ops::{type_variable_names, variables};
use crate::types::{types_view, SpecType, Type};
use vstd::prelude::*;

verus! {

/// What can be wrong with a method attachment.
#[derive(Debug)]
pub enum AttachmentIssue {
    /// The module may not attach methods to builtin types.
    Untrusted { span: Span },
    /// The owner is no builtin owner pattern.
    InvalidOwner { span: Span },
    /// The owner is no builtin type that methods can be attached to.
    UnknownOwner { head: String, span: Span },
    /// The owner has another number of arguments than its type takes.
    WrongArity { head: String, arity: usize, found: usize, span: Span },
    /// A parameter has no type.
    UntypedParameter { span: Span },
    /// Another method of the name is attached to an overlapping owner.
    Overlap { member: String, span: Span, previous: Span },
    /// The owner has a method of the name of itself.
    Intrinsic { member: String, span: Span },
}

/// What can be wrong with a method attachment.
pub ghost enum SpecAttachmentIssue {
    Untrusted { span: Span },
    InvalidOwner { span: Span },
    UnknownOwner { head: Seq<char>, span: Span },
    WrongArity { head: Seq<char>, arity: usize, found: nat, span: Span },
    UntypedParameter { span: Span },
    Overlap { member: Seq<char>, span: Span, previous: Span },
    Intrinsic { member: Seq<char>, span: Span },
}

impl AttachmentIssue {
    pub open spec fn view(&self) -> SpecAttachmentIssue {
        match self {
            AttachmentIssue::Untrusted { span } => SpecAttachmentIssue::Untrusted { span: *span },
            AttachmentIssue::InvalidOwner { span } => SpecAttachmentIssue::InvalidOwner {
                span: *span,
            },
            AttachmentIssue::UnknownOwner { head, span } => SpecAttachmentIssue::UnknownOwner {
                head: head@,
                span: *span,
            },
            AttachmentIssue::WrongArity { head, arity, found, span } => {
                SpecAttachmentIssue::WrongArity {
                    head: head@,
                    arity: *arity,
                    found: *found as nat,
                    span: *span,
                }
            },
            AttachmentIssue::UntypedParameter { span } => SpecAttachmentIssue::UntypedParameter {
                span: *span,
            },
            AttachmentIssue::Overlap { member, span, previous } => SpecAttachmentIssue::Overlap {
                member: member@,
                span: *span,
                previous: *previous,
            },
            AttachmentIssue::Intrinsic { member, span } => SpecAttachmentIssue::Intrinsic {
                member: member@,
                span: *span,
            },
        }
    }
}

pub open spec fn issues_view(issues: Seq<AttachmentIssue>) -> Seq<SpecAttachmentIssue> {
    Seq::new(issues.len(), |i: int| issues[i]@)
}

fn push_issue(issues: &mut Vec<AttachmentIssue>, issue: AttachmentIssue)
    ensures
        issues_view(final(issues)@) == issues_view(old(issues)@).push(issue@),
{
    let ghost before = issues_view(issues@);
    issues.push(issue);
    assert(issues_view(issues@) =~= before.push(issue@));
}

// ---------------------------------------------------------------------------
// Owners
// ---------------------------------------------------------------------------
/// The head of an owner pattern and the number of its arguments.
pub open spec fn pattern_parts(owner: SpecType) -> Option<(Seq<char>, nat)> {
    match owner {
        SpecType::Named(head) => Some((head, 0)),
        SpecType::Apply { callee, args } => match *callee {
            SpecType::Named(head) => Some((head, args.len())),
            _ => None,
        },
        _ => None,
    }
}

/// What is wrong with an owner pattern.
pub open spec fn owner_issue(owner: SpecType, span: Span) -> Option<SpecAttachmentIssue> {
    match pattern_parts(owner) {
        Some((head, found)) => match owner_arity(head) {
            Some(arity) => if found == arity {
                None
            } else {
                Some(SpecAttachmentIssue::WrongArity { head, arity, found, span })
            },
            None => Some(SpecAttachmentIssue::UnknownOwner { head, span }),
        },
        None => Some(SpecAttachmentIssue::InvalidOwner { span }),
    }
}

/// Check an owner pattern, and list its variables in increasing order.
pub fn lower_builtin_owner_pattern(owner: &Type, span: Span) -> (lowered: Result<
    Vec<String>,
    AttachmentIssue,
>)
    ensures
        match lowered {
            Ok(names) => owner_issue(owner@, span) is None && texts_view(names@) == listing(
                variables(owner@),
            ),
            Err(issue) => owner_issue(owner@, span) == Some(issue@),
        },
{
    let (head, found): (&String, usize) = match owner {
        Type::Named(head) => (head, 0),
        Type::Apply { callee, args } => {
            assert(types_view(args@).len() == args.len());
            assert(callee@ == *owner@->Apply_callee);
            match &**callee {
                Type::Named(head) => (head, args.len()),
                _ => {
                    return Err(AttachmentIssue::InvalidOwner { span });
                },
            }
        },
        _ => {
            return Err(AttachmentIssue::InvalidOwner { span });
        },
    };
    assert(pattern_parts(owner@) == Some((head@, found as nat)));
    match builtin_owner_arity(head.as_str()) {
        Some(arity) => if found != arity {
            Err(AttachmentIssue::WrongArity { head: head.clone(), arity, found, span })
        } else {
            let names = type_variable_names(owner);
            proof {
                increasing_list_is_listing(texts_view(names@));
            }
            Ok(names)
        },
        None => Err(AttachmentIssue::UnknownOwner { head: head.clone(), span }),
    }
}

// ---------------------------------------------------------------------------
// Collisions
// ---------------------------------------------------------------------------
/// Whether an attached method stands in the way of another.
pub open spec fn clashes(method: SpecBuiltinMethod, candidate: SpecBuiltinMethod) -> bool {
    method.member == candidate.member && patterns_overlap(method.owner, candidate.owner)
}

/// The first method that stands in the way of another, from a position on.
pub open spec fn first_clash(
    methods: Seq<SpecBuiltinMethod>,
    candidate: SpecBuiltinMethod,
    from: int,
) -> Option<SpecBuiltinMethod>
    decreases methods.len() - from,
{
    if from >= methods.len() {
        None
    } else if clashes(methods[from], candidate) {
        Some(methods[from])
    } else {
        first_clash(methods, candidate, from + 1)
    }
}

/// What an attached method collides with.
pub open spec fn collision(
    methods: Seq<SpecBuiltinMethod>,
    candidate: SpecBuiltinMethod,
    intrinsic: IntrinsicMethodNames,
) -> Option<SpecAttachmentIssue> {
    match first_clash(methods, candidate, 0) {
        Some(existing) => Some(
            SpecAttachmentIssue::Overlap {
                member: candidate.member,
                span: candidate.member_span,
                previous: existing.member_span,
            },
        ),
        None => if intrinsic_collides(candidate.owner, candidate.member, intrinsic) {
            Some(
                SpecAttachmentIssue::Intrinsic {
                    member: candidate.member,
                    span: candidate.member_span,
                },
            )
        } else {
            None
        },
    }
}

/// What an attached method collides with: a method of its name on an overlapping
/// owner, or one that its owner has of itself.
pub fn builtin_method_collides(
    methods: &Vec<BuiltinMethodType>,
    candidate: &BuiltinMethodType,
    intrinsic: &IntrinsicMethodNames,
) -> (issue: Option<AttachmentIssue>)
    ensures
        match issue {
            Some(issue) => collision(builtin_methods_view(methods@), candidate@, *intrinsic)
                == Some(issue@),
            None => collision(builtin_methods_view(methods@), candidate@, *intrinsic) is None,
        },
{
    let ghost all = builtin_methods_view(methods@);
    let mut index: usize = 0;
    while index < methods.len()
        invariant
            index <= methods.len(),
            all == builtin_methods_view(methods@),
            first_clash(all, candidate@, 0) == first_clash(all, candidate@, index as int),
        decreases methods.len() - index,
    {
        let method = &methods[index];
        assert(all[index as int] == method@);
        if same_text(method.member.as_str(), candidate.member.as_str())
            && builtin_owner_patterns_overlap(&method.owner, &candidate.owner) {
            return Some(
                AttachmentIssue::Overlap {
                    member: candidate.member.clone(),
                    span: candidate.member_span,
                    previous: method.member_span,
                },
            );
        }
        index += 1;
    }
    if intrinsic_builtin_method_collides(&candidate.owner, candidate.member.as_str(), intrinsic) {
        Some(
            AttachmentIssue::Intrinsic {
                member: candidate.member.clone(),
                span: candidate.member_span,
            },
        )
    } else {
        None
    }
}

// ---------------------------------------------------------------------------
// Attachments
// ---------------------------------------------------------------------------
/// Methods that a module attaches to one owner.
#[derive(Debug)]
pub struct MethodAttachment {
    pub owner: Type,
    pub owner_span: Span,
    pub members: Vec<DeclaredMethod>,
}

/// What a method attachment is.
pub ghost struct SpecAttachment {
    pub owner: SpecType,
    pub owner_span: Span,
    pub members: Seq<SpecDeclared>,
}

impl MethodAttachment {
    pub open spec fn view(&self) -> SpecAttachment {
        SpecAttachment {
            owner: self.owner@,
            owner_span: self.owner_span,
            members: declared_view(self.members@),
        }
    }
}

pub open spec fn attachments_view(attachments: Seq<MethodAttachment>) -> Seq<SpecAttachment> {
    Seq::new(attachments.len(), |i: int| attachments[i]@)
}

/// The parameters without a type.
pub open spec fn untyped(params: Seq<SpecParam>) -> Seq<SpecAttachmentIssue>
    decreases params.len(),
{
    if params.len() == 0 {
        Seq::empty()
    } else if params.last().ty is None {
        untyped(params.drop_last()).push(
            SpecAttachmentIssue::UntypedParameter { span: params.last().name_span },
        )
    } else {
        untyped(params.drop_last())
    }
}

/// The method that an attachment makes of a declaration.
pub open spec fn attached_from(
    attachment: SpecAttachment,
    declared: SpecDeclared,
) -> SpecBuiltinMethod {
    SpecBuiltinMethod {
        owner: attachment.owner,
        owner_variables: listing(variables(attachment.owner)),
        member: declared.name,
        params: declared.params.map_values(|param: SpecParam| param.ty->0),
        result: declared.result,
        constraints: declared.constraints,
        owner_span: attachment.owner_span,
        member_span: declared.name_span,
    }
}

/// The methods that a module has attached so far, and what was wrong.
pub ghost struct AttachmentState {
    pub methods: Seq<SpecBuiltinMethod>,
    pub issues: Seq<SpecAttachmentIssue>,
}

/// The state after one more member: the method is added unless a parameter has
/// no type or it collides with a method that is known already.
pub open spec fn after_member(
    state: AttachmentState,
    attachment: SpecAttachment,
    declared: SpecDeclared,
    intrinsic: IntrinsicMethodNames,
) -> AttachmentState {
    if !all_typed(declared.params) {
        AttachmentState { issues: state.issues + untyped(declared.params), ..state }
    } else {
        let method = attached_from(attachment, declared);
        match collision(state.methods, method, intrinsic) {
            Some(issue) => AttachmentState { issues: state.issues.push(issue), ..state },
            None => AttachmentState { methods: state.methods.push(method), ..state },
        }
    }
}

pub open spec fn after_members(
    state: AttachmentState,
    attachment: SpecAttachment,
    members: Seq<SpecDeclared>,
    intrinsic: IntrinsicMethodNames,
) -> AttachmentState
    decreases members.len(),
{
    if members.len() == 0 {
        state
    } else {
        after_member(
            after_members(state, attachment, members.drop_last(), intrinsic),
            attachment,
            members.last(),
            intrinsic,
        )
    }
}

/// The state after one more attachment. Only trusted modules may attach methods,
/// and only to builtin owners.
pub open spec fn after_attachment(
    state: AttachmentState,
    attachment: SpecAttachment,
    trusted: bool,
    intrinsic: IntrinsicMethodNames,
) -> AttachmentState {
    if !trusted {
        AttachmentState {
            issues: state.issues.push(
                SpecAttachmentIssue::Untrusted { span: attachment.owner_span },
            ),
            ..state
        }
    } else {
        match owner_issue(attachment.owner, attachment.owner_span) {
            Some(issue) => AttachmentState { issues: state.issues.push(issue), ..state },
            None => after_members(state, attachment, attachment.members, intrinsic),
        }
    }
}

pub open spec fn after_attachments(
    methods: Seq<SpecBuiltinMethod>,
    attachments: Seq<SpecAttachment>,
    trusted: bool,
    intrinsic: IntrinsicMethodNames,
) -> AttachmentState
    decreases attachments.len(),
{
    if attachments.len() == 0 {
        AttachmentState { methods, issues: Seq::empty() }
    } else {
        after_attachment(
            after_attachments(methods, attachments.drop_last(), trusted, intrinsic),
            attachments.last(),
            trusted,
            intrinsic,
        )
    }
}

fn report_untyped(params: &Vec<DeclaredParam>, issues: &mut Vec<AttachmentIssue>) -> (types: Option<
    Vec<Type>,
>)
    ensures
        match types {
            Some(types) => {
                &&& all_typed(params_view(params@))
                &&& types_view(types@) == params_view(params@).map_values(
                    |param: SpecParam| param.ty->0,
                )
                &&& issues_view(final(issues)@) == issues_view(old(issues)@)
            },
            None => !all_typed(params_view(params@)) && issues_view(final(issues)@) == issues_view(
                old(issues)@,
            ) + untyped(params_view(params@)),
        },
{
    let ghost all = params_view(params@);
    let ghost before = issues_view(issues@);
    let mut types: Vec<Type> = Vec::new();
    let mut complete = true;
    let mut index: usize = 0;
    assert(before + untyped(all.take(0)) =~= before);
    while index < params.len()
        invariant
            index <= params.len(),
            all == params_view(params@),
            before == issues_view(old(issues)@),
            issues_view(issues@) == before + untyped(all.take(index as int)),
            complete == forall|i: int| 0 <= i < index ==> (#[trigger] all[i]).ty is Some,
            complete ==> issues_view(issues@) == before,
            complete ==> types.len() == index,
            complete ==> forall|i: int|
                0 <= i < index ==> (#[trigger] types@[i])@ == all[i].ty->0,
        decreases params.len() - index,
    {
        proof {
            let longer = all.take(index + 1);
            assert(longer.drop_last() =~= all.take(index as int));
            assert(longer.last() == all[index as int]);
            assert(all[index as int] == params@[index as int]@);
        }
        match &params[index].ty {
            Some(ty) => {
                types.push(ty.clone());
                assert(all[index as int].ty is Some);
            },
            None => {
                push_issue(
                    issues,
                    AttachmentIssue::UntypedParameter { span: params[index].name_span },
                );
                complete = false;
                assert(issues_view(issues@) =~= before + untyped(all.take(index + 1)));
            },
        }
        index += 1;
    }
    assert(all.take(all.len() as int) =~= all);
    if complete {
        assert(types_view(types@) =~= all.map_values(|param: SpecParam| param.ty->0));
        Some(types)
    } else {
        None
    }
}

fn push_method(methods: &mut Vec<BuiltinMethodType>, method: BuiltinMethodType)
    ensures
        builtin_methods_view(final(methods)@) == builtin_methods_view(old(methods)@).push(method@),
{
    let ghost before = builtin_methods_view(methods@);
    methods.push(method);
    assert(builtin_methods_view(methods@) =~= before.push(method@));
}

fn attach_member(
    attachment: &MethodAttachment,
    owner_variables: &Vec<String>,
    declared: &DeclaredMethod,
    intrinsic: &IntrinsicMethodNames,
    methods: &mut Vec<BuiltinMethodType>,
    issues: &mut Vec<AttachmentIssue>,
)
    requires
        texts_view(owner_variables@) == listing(variables(attachment@.owner)),
    ensures
        (AttachmentState {
            methods: builtin_methods_view(final(methods)@),
            issues: issues_view(final(issues)@),
        }) == after_member(
            AttachmentState {
                methods: builtin_methods_view(old(methods)@),
                issues: issues_view(old(issues)@),
            },
            attachment@,
            declared@,
            *intrinsic,
        ),
{
    let params = match report_untyped(&declared.params, issues) {
        Some(params) => params,
        None => {
            return ;
        },
    };
    let method = BuiltinMethodType {
        owner: attachment.owner.clone(),
        owner_variables: clone_texts(owner_variables),
        member: declared.name.clone(),
        params,
        result: declared.result.clone(),
        constraints: clone_constraints(&declared.constraints),
        owner_span: attachment.owner_span,
        member_span: declared.name_span,
    };
    assert(method@ == attached_from(attachment@, declared@));
    match builtin_method_collides(methods, &method, intrinsic) {
        Some(issue) => {
            push_issue(issues, issue);
        },
        None => {
            push_method(methods, method);
        },
    }
}

/// Attach the methods that a module declares for builtin types, and list what is
/// wrong with its attachments. The methods that are added stand behind those
/// that were known before.
pub fn lower_builtin_method_attachments(
    methods: &mut Vec<BuiltinMethodType>,
    attachments: &Vec<MethodAttachment>,
    trusted: bool,
    intrinsic: &IntrinsicMethodNames,
) -> (issues: Vec<AttachmentIssue>)
    ensures
        (AttachmentState {
            methods: builtin_methods_view(final(methods)@),
            issues: issues_view(issues@),
        }) == after_attachments(
            builtin_methods_view(old(methods)@),
            attachments_view(attachments@),
            trusted,
            *intrinsic,
        ),
{
    let ghost known = builtin_methods_view(methods@);
    let ghost all = attachments_view(attachments@);
    let mut issues: Vec<AttachmentIssue> = Vec::new();
    let mut index: usize = 0;
    assert(issues_view(issues@) =~= Seq::empty());
    while index < attachments.len()
        invariant
            index <= attachments.len(),
            all == attachments_view(attachments@),
            known == builtin_methods_view(old(methods)@),
            (AttachmentState {
                methods: builtin_methods_view(methods@),
                issues: issues_view(issues@),
            }) == after_attachments(known, all.take(index as int), trusted, *intrinsic),
        decreases attachments.len() - index,
    {
        let attachment = &attachments[index];
        proof {
            let longer = all.take(index + 1);
            assert(longer.drop_last() =~= all.take(index as int));
            assert(longer.last() == attachment@);
        }
        if !trusted {
            push_issue(&mut issues, AttachmentIssue::Untrusted { span: attachment.owner_span });
        } else {
            match lower_builtin_owner_pattern(&attachment.owner, attachment.owner_span) {
                Err(issue) => {
                    push_issue(&mut issues, issue);
                },
                Ok(owner_variables) => {
                    attach_members(attachment, &owner_variables, intrinsic, methods, &mut issues);
                },
            }
        }
        index += 1;
    }
    assert(all.take(all.len() as int) =~= all);
    issues
}

fn attach_members(
    attachment: &MethodAttachment,
    owner_variables: &Vec<String>,
    intrinsic: &IntrinsicMethodNames,
    methods: &mut Vec<BuiltinMethodType>,
    issues: &mut Vec<AttachmentIssue>,
)
    requires
        texts_view(owner_variables@) == listing(variables(attachment@.owner)),
    ensures
        (AttachmentState {
            methods: builtin_methods_view(final(methods)@),
            issues: issues_view(final(issues)@),
        }) == after_members(
            AttachmentState {
                methods: builtin_methods_view(old(methods)@),
                issues: issues_view(old(issues)@),
            },
            attachment@,
            attachment@.members,
            *intrinsic,
        ),
{
    let ghost before = AttachmentState {
        methods: builtin_methods_view(methods@),
        issues: issues_view(issues@),
    };
    let ghost all = attachment@.members;
    let mut index: usize = 0;
    while index < attachment.members.len()
        invariant
            index <= attachment.members.len(),
            all == attachment@.members,
            texts_view(owner_variables@) == listing(variables(attachment@.owner)),
            before == (AttachmentState {
                methods: builtin_methods_view(old(methods)@),
                issues: issues_view(old(issues)@),
            }),
            (AttachmentState {
                methods: builtin_methods_view(methods@),
                issues: issues_view(issues@),
            }) == after_members(before, attachment@, all.take(index as int), *intrinsic),
        decreases attachment.members.len() - index,
    {
        proof {
            let longer = all.take(index + 1);
            assert(longer.drop_last() =~= all.take(index as int));
            assert(longer.last() == attachment.members@[index as int]@);
        }
        attach_member(
            attachment,
            owner_variables,
            &attachment.members[index],
            intrinsic,
            methods,
            issues,
        );
        index += 1;
    }
    assert(all.take(all.len() as int) =~= all);
}

// ---------------------------------------------------------------------------
// Laws
// ---------------------------------------------------------------------------
/// Whether no two attached methods stand in each other's way.
pub open spec fn coherent(methods: Seq<SpecBuiltinMethod>) -> bool {
    forall|i: int, j: int|
        0 <= i < j < methods.len() ==> !clashes(#[trigger] methods[i], #[trigger] methods[j])
}

proof fn first_clash_is_none(
    methods: Seq<SpecBuiltinMethod>,
    candidate: SpecBuiltinMethod,
    from: int,
    index: int,
)
    requires
        0 <= from <= index < methods.len(),
        first_clash(methods, candidate, from) is None,
    ensures
        !clashes(methods[index], candidate),
    decreases methods.len() - from,
{
    if from < index {
        first_clash_is_none(methods, candidate, from + 1, index);
    }
}

proof fn members_stay_coherent(
    state: AttachmentState,
    attachment: SpecAttachment,
    members: Seq<SpecDeclared>,
    intrinsic: IntrinsicMethodNames,
)
    requires
        coherent(state.methods),
    ensures
        coherent(after_members(state, attachment, members, intrinsic).methods),
        state.methods.is_prefix_of(
            after_members(state, attachment, members, intrinsic).methods,
        ),
    decreases members.len(),
{
    if members.len() > 0 {
        members_stay_coherent(state, attachment, members.drop_last(), intrinsic);
        let earlier = after_members(state, attachment, members.drop_last(), intrinsic);
        let method = attached_from(attachment, members.last());
        let later = after_members(state, attachment, members, intrinsic).methods;
        assert forall|i: int, j: int| 0 <= i < j < later.len() implies !clashes(
            #[trigger] later[i],
            #[trigger] later[j],
        ) by {
            if j == earlier.methods.len() {
                first_clash_is_none(earlier.methods, method, 0, i);
            }
        }
    }
}

/// Attaching methods never makes two of them answer for one owner: a set of
/// attached methods without overlaps stays one, and keeps what it held.
pub proof fn attachments_stay_coherent(
    methods: Seq<SpecBuiltinMethod>,
    attachments: Seq<SpecAttachment>,
    trusted: bool,
    intrinsic: IntrinsicMethodNames,
)
    requires
        coherent(methods),
    ensures
        coherent(after_attachments(methods, attachments, trusted, intrinsic).methods),
        methods.is_prefix_of(after_attachments(methods, attachments, trusted, intrinsic).methods),
    decreases attachments.len(),
{
    if attachments.len() > 0 {
        let shorter = attachments.drop_last();
        attachments_stay_coherent(methods, shorter, trusted, intrinsic);
        members_stay_coherent(
            after_attachments(methods, shorter, trusted, intrinsic),
            attachments.last(),
            attachments.last().members,
            intrinsic,
        );
    }
}

/// In a coherent set at most one method answers for an owner and a name.
pub proof fn answers_are_unique(
    methods: Seq<SpecBuiltinMethod>,
    owner: SpecType,
    member: Seq<char>,
    left: int,
    right: int,
)
    requires
        coherent(methods),
        0 <= left < methods.len(),
        0 <= right < methods.len(),
        answers(methods[left], owner, member),
        answers(methods[right], owner, member),
    ensures
        left == right,
{
    let first = methods[left];
    let second = methods[right];
    common_receiver_means_overlap(
        first.owner,
        second.owner,
        owner,
        first.owner_variables.to_set(),
        second.owner_variables.to_set(),
    );
    overlap_is_symmetric(first.owner, second.owner);
    if left < right {
        assert(!clashes(methods[left], methods[right]));
    }
    if right < left {
        assert(!clashes(methods[right], methods[left]));
    }
}

/// An untrusted module attaches nothing.
pub proof fn untrusted_modules_attach_nothing(
    methods: Seq<SpecBuiltinMethod>,
    attachments: Seq<SpecAttachment>,
    intrinsic: IntrinsicMethodNames,
)
    ensures
        after_attachments(methods, attachments, false, intrinsic).methods == methods,
        after_attachments(methods, attachments, false, intrinsic).issues.len()
            == attachments.len(),
    decreases attachments.len(),
{
    if attachments.len() > 0 {
        untrusted_modules_attach_nothing(methods, attachments.drop_last(), intrinsic);
    }
}

} // verus!
