//! What each diagnostic says.
use crate::diagnostics::{Code, Diagnostic, DiagnosticLog, SpecDiagnostic, SpecLog};
use crate::patterns::OrPatternBindingMismatch;
use crate::rows::{
    is_result_type, literal_union_text, literals_view, render_literal_union, result_parts,
    EmptyValue,
};
use crate::span::Span;
use crate::text::{
    concat2, concat3, concat4, concat5, concat6, concat8, decimal, join, joined, texts_view,
    unsigned_text,
};
use crate::type_ops::{is_resolved_value_type, literal_text, render_literal_value, resolved};
use crate::types::{Literal, Type};
use vstd::prelude::*;

verus! {

/// The ending of a noun after a count.
pub open spec fn plural(count: nat) -> Seq<char> {
    if count == 1 {
        ""@
    } else {
        "s"@
    }
}

fn plural_suffix(count: usize) -> (suffix: &'static str)
    ensures
        suffix@ == plural(count as nat),
{
    if count == 1 {
        ""
    } else {
        "s"
    }
}

/// What is said of a result that is dropped.
pub open spec fn unused_result(span: Span) -> SpecDiagnostic {
    SpecDiagnostic::warning("unused `Result`"@).coded(Code::TypeUnusedResult).labelled(
        span,
        "this `Result` is unused"@,
    ).noted(
        "unwrap it with `?!` (panic on `@Err`), propagate it with `?^`, or discard it explicitly with `_ =`."@,
    )
}

/// What is said of an error that is passed on from something other than a result.
pub open spec fn propagated_from_other(span: Span) -> SpecDiagnostic {
    SpecDiagnostic::error("propagation operator requires a `Result` value"@).coded(
        Code::TypePropagateNotResult,
    ).labelled(span, "this value is not a `Result`"@).noted(
        "`?^`/`?!` operate on `Result[ok, err]` values"@,
    )
}

/// Names in backticks.
pub open spec fn quoted_names(names: Seq<Seq<char>>) -> Seq<Seq<char>> {
    names.map_values(|name: Seq<char>| "`"@ + name + "`"@)
}

/// Names in backticks, with commas between them.
pub open spec fn listed(names: Seq<Seq<char>>) -> Seq<char> {
    joined(quoted_names(names), ", "@)
}

/// List names in backticks.
pub fn list_names(names: &Vec<String>) -> (text: String)
    ensures
        text@ == listed(texts_view(names@)),
{
    let mut parts: Vec<String> = Vec::new();
    let mut index: usize = 0;
    while index < names.len()
        invariant
            index <= names.len(),
            parts.len() == index,
            forall|i: int|
                0 <= i < index ==> (#[trigger] parts@[i])@ == quoted_names(texts_view(names@))[i],
        decreases names.len() - index,
    {
        parts.push(concat3("`", names[index].as_str(), "`"));
        index += 1;
    }
    assert(texts_view(parts@) =~= quoted_names(texts_view(names@)));
    join(&parts, ", ")
}

/// Literals as they are written, with commas between them.
pub open spec fn listed_literals(literals: Seq<Literal>) -> Seq<char> {
    joined(literals.map_values(|literal: Literal| literal_text(literal@)), ", "@)
}

fn list_literals(literals: &Vec<Literal>) -> (text: String)
    ensures
        text@ == listed_literals(literals@),
{
    let mut parts: Vec<String> = Vec::new();
    let mut index: usize = 0;
    while index < literals.len()
        invariant
            index <= literals.len(),
            parts.len() == index,
            forall|i: int| 0 <= i < index ==> (#[trigger] parts@[i])@ == literal_text(literals@[i]@),
        decreases literals.len() - index,
    {
        parts.push(render_literal_value(&literals[index]).to_owned());
        index += 1;
    }
    assert(texts_view(parts@) =~= literals@.map_values(|literal: Literal| literal_text(literal@)));
    join(&parts, ", ")
}

/// Empty values as they are written, with commas between them.
pub open spec fn listed_empties(empties: Seq<EmptyValue>) -> Seq<char> {
    joined(empties.map_values(|value: EmptyValue| value.text()), ", "@)
}

fn list_empties(empties: &Vec<EmptyValue>) -> (text: String)
    ensures
        text@ == listed_empties(empties@),
{
    let mut parts: Vec<String> = Vec::new();
    let mut index: usize = 0;
    while index < empties.len()
        invariant
            index <= empties.len(),
            parts.len() == index,
            forall|i: int| 0 <= i < index ==> (#[trigger] parts@[i])@ == empties@[i].text(),
        decreases empties.len() - index,
    {
        parts.push(empties[index].render().to_owned());
        index += 1;
    }
    assert(texts_view(parts@) =~= empties@.map_values(|value: EmptyValue| value.text()));
    join(&parts, ", ")
}

impl SpecLog {
    /// The log with one more diagnostic.
    pub open spec fn with(self, diagnostic: SpecDiagnostic) -> SpecLog {
        SpecLog { diagnostics: self.diagnostics.push(diagnostic), ..self }
    }

    /// The log with a diagnostic unless it repeats one.
    pub open spec fn with_unique(self, diagnostic: SpecDiagnostic) -> SpecLog {
        SpecLog {
            diagnostics: crate::diagnostics::with_unique(self.diagnostics, diagnostic),
            ..self
        }
    }

    /// The log with a diagnostic unless a type mismatch is known at its place.
    pub open spec fn with_mismatch(self, diagnostic: SpecDiagnostic) -> SpecLog {
        SpecLog {
            diagnostics: crate::diagnostics::with_mismatch(self.diagnostics, diagnostic),
            ..self
        }
    }

    /// The log with a diagnostic on an import, once for each import.
    pub open spec fn with_import(self, span: Span, diagnostic: SpecDiagnostic) -> SpecLog {
        SpecLog {
            diagnostics: if self.imports.contains(span) {
                self.diagnostics
            } else {
                self.diagnostics.push(diagnostic)
            },
            imports: self.imports.insert(span),
            ..self
        }
    }

    /// The log with a diagnostic on a name, once for each place.
    pub open spec fn with_unbound(self, span: Span, diagnostic: SpecDiagnostic) -> SpecLog {
        SpecLog {
            diagnostics: if self.unbound.contains(span) {
                self.diagnostics
            } else {
                self.diagnostics.push(diagnostic)
            },
            unbound: self.unbound.insert(span),
            ..self
        }
    }
}

impl DiagnosticLog {
    /// An import whose specifier is not a string.
    pub fn report_dynamic_import(&mut self, span: Span)
        ensures
            final(self)@ == old(self)@.with_import(
                span,
                SpecDiagnostic::error(
                    "dynamic import is not supported yet"@,
                ).coded(Code::ModuleDynamicImport).labelled(
                    span,
                    "import specifier must be a static string literal"@,
                ).noted(
                    "Milestone Z1+Z2 only supports local relative imports with string literals"@,
                ).noted(
                    "dynamic import is deferred to Milestone Z"@,
                ),
            ),
    {
        if !self.report_import_once(span) {
            return ;
        }
        self.push(
            Diagnostic::error(
                "dynamic import is not supported yet".to_owned(),
            ).with_code(Code::ModuleDynamicImport).with_label(
                span,
                "import specifier must be a static string literal".to_owned(),
            ).with_note(
                "Milestone Z1+Z2 only supports local relative imports with string literals".to_owned(),
            ).with_note(
                "dynamic import is deferred to Milestone Z".to_owned(),
            ),
        );
    }

    /// An import of something other than a local file.
    pub fn report_unsupported_import_root(&mut self, specifier: &str, span: Span)
        ensures
            final(self)@ == old(self)@.with_import(
                span,
                SpecDiagnostic::error(
                    "unsupported import specifier `"@ + specifier@ + "`"@,
                ).coded(Code::ModuleUnsupportedRoot).labelled(
                    span,
                    "this import root is not supported in this milestone"@,
                ).noted(
                    "use a local relative specifier beginning with `./` or `../`"@,
                ).noted(
                    "`$/`, `~/`, `//`, standard libraries, and packages are deferred to Milestone Z"@,
                ),
            ),
    {
        if !self.report_import_once(span) {
            return ;
        }
        self.push(
            Diagnostic::error(
                concat3("unsupported import specifier `", specifier, "`"),
            ).with_code(Code::ModuleUnsupportedRoot).with_label(
                span,
                "this import root is not supported in this milestone".to_owned(),
            ).with_note(
                "use a local relative specifier beginning with `./` or `../`".to_owned(),
            ).with_note(
                "`$/`, `~/`, `//`, standard libraries, and packages are deferred to Milestone Z".to_owned(),
            ),
        );
    }

    /// An import whose module is not at hand. The specifier itself is sound, so this is a
    /// warning.
    pub fn report_unresolved_import(&mut self, specifier: &str, span: Span)
        ensures
            final(self)@ == old(self)@.with_import(
                span,
                SpecDiagnostic::warning(
                    "import `"@ + specifier@ + "` is not resolved here"@,
                ).coded(Code::ModuleUnresolvedImport).labelled(
                    span,
                    "this context checks one file at a time, so the module's contents are unknown"@,
                ).noted(
                    "`aven check` and `aven run` resolve local relative imports"@,
                ).noted(
                    "editor cross-file import support arrives later in Milestone Z"@,
                ),
            ),
    {
        if !self.report_import_once(span) {
            return ;
        }
        self.push(
            Diagnostic::warning(
                concat3("import `", specifier, "` is not resolved here"),
            ).with_code(Code::ModuleUnresolvedImport).with_label(
                span,
                "this context checks one file at a time, so the module's contents are unknown".to_owned(),
            ).with_note(
                "`aven check` and `aven run` resolve local relative imports".to_owned(),
            ).with_note(
                "editor cross-file import support arrives later in Milestone Z".to_owned(),
            ),
        );
    }

    /// A type name that nothing defines.
    pub fn report_unknown_type_name(&mut self, name: &str, span: Span)
        ensures
            final(self)@ == old(self)@.with(
                SpecDiagnostic::error(
                    "unknown type name `"@ + name@ + "`"@,
                ).coded(Code::TypeUnknownName).labelled(
                    span,
                    "type name not found"@,
                ).noted(
                    "define the type, import it, or use a lowercase type variable for a generic type"@,
                ),
            ),
    {
        self.push(
            Diagnostic::error(
                concat3("unknown type name `", name, "`"),
            ).with_code(Code::TypeUnknownName).with_label(
                span,
                "type name not found".to_owned(),
            ).with_note(
                "define the type, import it, or use a lowercase type variable for a generic type".to_owned(),
            ),
        );
    }

    /// A tag with a lowercase name.
    pub fn report_lowercase_variant_tag(&mut self, name: &str, span: Span)
        ensures
            final(self)@ == old(self)@.with(
                SpecDiagnostic::error(
                    "variant tag `"@ + name@ + "` must be an uppercase `@`-tag"@,
                ).coded(Code::TypeLowercaseVariantTag).labelled(
                    span,
                    "lowercase variant tag"@,
                ).noted(
                    "variant tags use uppercase names, for example `@Ok` or `@Err`"@,
                ),
            ),
    {
        self.push(
            Diagnostic::error(
                concat3("variant tag `", name, "` must be an uppercase `@`-tag"),
            ).with_code(Code::TypeLowercaseVariantTag).with_label(
                span,
                "lowercase variant tag".to_owned(),
            ).with_note(
                "variant tags use uppercase names, for example `@Ok` or `@Err`".to_owned(),
            ),
        );
    }

    /// A runtime name that is given a type.
    pub fn report_non_liftable_into_runtime(&mut self, span: Span)
        ensures
            final(self)@ == old(self)@.with(
                SpecDiagnostic::error(
                    "runtime binding cannot hold a non-liftable comptime artifact"@,
                ).coded(Code::ComptimeNonLiftableIntoRuntime).labelled(
                    span,
                    "this is a non-liftable comptime artifact"@,
                ).noted(
                    "types are compile-time artifacts; bind them with a capitalized name, or compute a runtime value here"@,
                ),
            ),
    {
        self.push(
            Diagnostic::error(
                "runtime binding cannot hold a non-liftable comptime artifact".to_owned(),
            ).with_code(Code::ComptimeNonLiftableIntoRuntime).with_label(
                span,
                "this is a non-liftable comptime artifact".to_owned(),
            ).with_note(
                "types are compile-time artifacts; bind them with a capitalized name, or compute a runtime value here".to_owned(),
            ),
        );
    }

    /// A value that cannot be computed at compile time.
    pub fn report_comptime_evaluation_unsupported(&mut self, span: Span)
        ensures
            final(self)@ == old(self)@.with(
                SpecDiagnostic::error(
                    "comptime evaluation is not supported yet, so this comptime binding's value cannot be computed"@,
                ).coded(Code::ComptimeEvaluationUnsupported).labelled(
                    span,
                    "this comptime binding needs evaluation"@,
                ).noted(
                    "the comptime evaluator is planned for Milestone 14; write a literal type or value here, or move the computation to a lowercase runtime binding if the result is a runtime value"@,
                ),
            ),
    {
        self.push(
            Diagnostic::error(
                "comptime evaluation is not supported yet, so this comptime binding's value cannot be computed".to_owned(),
            ).with_code(Code::ComptimeEvaluationUnsupported).with_label(
                span,
                "this comptime binding needs evaluation".to_owned(),
            ).with_note(
                "the comptime evaluator is planned for Milestone 14; write a literal type or value here, or move the computation to a lowercase runtime binding if the result is a runtime value".to_owned(),
            ),
        );
    }

    /// A name whose type could not be found.
    pub fn report_unresolved_binding(&mut self, name_span: Span)
        ensures
            final(self)@ == old(self)@.with(
                SpecDiagnostic::error(
                    "cannot determine a type for this binding"@,
                ).coded(Code::TypeUnresolvedBinding).labelled(
                    name_span,
                    "this binding's type could not be inferred"@,
                ).noted(
                    "add a type annotation, or change the value so its type resolves"@,
                ),
            ),
    {
        self.push(
            Diagnostic::error(
                "cannot determine a type for this binding".to_owned(),
            ).with_code(Code::TypeUnresolvedBinding).with_label(
                name_span,
                "this binding's type could not be inferred".to_owned(),
            ).with_note(
                "add a type annotation, or change the value so its type resolves".to_owned(),
            ),
        );
    }

    /// A spread of a record whose fields are not known.
    pub fn report_spread_shape_unknown(&mut self, span: Span)
        ensures
            final(self)@ == old(self)@.with_unique(
                SpecDiagnostic::error(
                    "record fields must be statically known for a block spread"@,
                ).coded(Code::TypeSpreadShapeUnknown).labelled(
                    span,
                    "the record's fields must be statically known to open it into scope"@,
                ).noted(
                    "use a static import, a closed record literal or transform, or bind a closed record type before spreading it"@,
                ),
            ),
    {
        self.push_unique_diagnostic(
            Diagnostic::error(
                "record fields must be statically known for a block spread".to_owned(),
            ).with_code(Code::TypeSpreadShapeUnknown).with_label(
                span,
                "the record's fields must be statically known to open it into scope".to_owned(),
            ).with_note(
                "use a static import, a closed record literal or transform, or bind a closed record type before spreading it".to_owned(),
            ),
        );
    }

    /// A pattern that would take a type from a module.
    pub fn report_unsupported_uppercase_pattern_binder(&mut self, name: &str, span: Span)
        ensures
            final(self)@ == old(self)@.with_unique(
                SpecDiagnostic::error(
                    "extracting type `"@ + name@ + "` from a module is not supported yet"@,
                ).coded(Code::TypeUppercasePatternBinderUnsupported).labelled(
                    span,
                    "uppercase pattern binder would extract a type"@,
                ).noted(
                    "extracting types from modules is not supported yet; this is deferred to Milestone Z"@,
                ),
            ),
    {
        self.push_unique_diagnostic(
            Diagnostic::error(
                concat3("extracting type `", name, "` from a module is not supported yet"),
            ).with_code(Code::TypeUppercasePatternBinderUnsupported).with_label(
                span,
                "uppercase pattern binder would extract a type".to_owned(),
            ).with_note(
                "extracting types from modules is not supported yet; this is deferred to Milestone Z".to_owned(),
            ),
        );
    }

    /// A spread that defines a local name again.
    pub fn report_duplicate_local_from_spread(&mut self, name: &str, span: Span)
        ensures
            final(self)@ == old(self)@.with_unique(
                SpecDiagnostic::error(
                    "duplicate local binding `"@ + name@ + "`"@,
                ).coded(Code::NameDuplicateLocal).labelled(
                    span,
                    "spread would introduce `"@ + name@ + "` here"@,
                ).noted(
                    "remove or rename the field before spreading, or use `:..` inside a block to replace intentionally"@,
                ),
            ),
    {
        self.push_unique_diagnostic(
            Diagnostic::error(
                concat3("duplicate local binding `", name, "`"),
            ).with_code(Code::NameDuplicateLocal).with_label(
                span,
                concat3("spread would introduce `", name, "` here"),
            ).with_note(
                "remove or rename the field before spreading, or use `:..` inside a block to replace intentionally".to_owned(),
            ),
        );
    }

    /// A spread that declares a name again.
    pub fn report_duplicate_declaration_from_spread(&mut self, name: &str, span: Span)
        ensures
            final(self)@ == old(self)@.with_unique(
                SpecDiagnostic::error(
                    "duplicate declaration `"@ + name@ + "`"@,
                ).coded(Code::NameDuplicateDeclaration).labelled(
                    span,
                    "spread would declare `"@ + name@ + "` here"@,
                ).noted(
                    "remove or rename the field before spreading so top-level declarations stay unique"@,
                ),
            ),
    {
        self.push_unique_diagnostic(
            Diagnostic::error(
                concat3("duplicate declaration `", name, "`"),
            ).with_code(Code::NameDuplicateDeclaration).with_label(
                span,
                concat3("spread would declare `", name, "` here"),
            ).with_note(
                "remove or rename the field before spreading so top-level declarations stay unique".to_owned(),
            ),
        );
    }

    /// A function that passes errors on and returns no result.
    pub fn report_propagate_needs_result(&mut self, span: Span)
        ensures
            final(self)@ == old(self)@.with_unique(
                SpecDiagnostic::error(
                    "function body uses `?^` but does not return a `Result`"@,
                ).coded(Code::TypePropagateNeedsResult).labelled(
                    span,
                    "this is the function's result, but `?^` requires it to be a Result"@,
                ).noted(
                    "wrap the final expression in `@Ok(...)`, or handle the errors instead of propagating them"@,
                ),
            ),
    {
        self.push_unique_diagnostic(
            Diagnostic::error(
                "function body uses `?^` but does not return a `Result`".to_owned(),
            ).with_code(Code::TypePropagateNeedsResult).with_label(
                span,
                "this is the function's result, but `?^` requires it to be a Result".to_owned(),
            ).with_note(
                "wrap the final expression in `@Ok(...)`, or handle the errors instead of propagating them".to_owned(),
            ),
        );
    }

    /// A value that is dropped, if it is a result.
    pub fn report_unused_result_if_dropped(&mut self, ty: &Type, span: Span)
        ensures
            final(self)@ == (if result_parts(ty@) is Some {
                old(self)@.with(unused_result(span))
            } else {
                old(self)@
            }),
    {
        if is_result_type(ty) {
            self.report_unused_result(span);
        }
    }

    /// An error that is passed on from a value, if that is known not to be a result.
    pub fn report_propagate_not_result_if_concrete(&mut self, ty: &Type, span: Span)
        ensures
            final(self)@ == (if result_parts(ty@) is None && resolved(ty@) {
                old(self)@.with_unique(propagated_from_other(span))
            } else {
                old(self)@
            }),
    {
        if !is_result_type(ty) && is_resolved_value_type(ty) {
            self.report_propagate_not_result(span);
        }
    }

    /// An error that is passed on from something other than a result.
    pub fn report_propagate_not_result(&mut self, span: Span)
        ensures
            final(self)@ == old(self)@.with_unique(propagated_from_other(span)),
    {
        self.push_unique_diagnostic(
            Diagnostic::error(
                "propagation operator requires a `Result` value".to_owned(),
            ).with_code(Code::TypePropagateNotResult).with_label(
                span,
                "this value is not a `Result`".to_owned(),
            ).with_note(
                "`?^`/`?!` operate on `Result[ok, err]` values".to_owned(),
            ),
        );
    }

    /// A literal of another type than expected.
    pub fn report_type_mismatch(&mut self, expected: &str, found: &str, span: Span)
        ensures
            final(self)@ == old(self)@.with_mismatch(
                SpecDiagnostic::error(
                    "expected `"@ + expected@ + "`, found a "@ + found@,
                ).coded(Code::TypeMismatch).labelled(
                    span,
                    "this is a "@ + found@,
                ).noted(
                    "change the value to produce `"@ + expected@
                        + "`, or change the annotation to match the literal"@,
                ),
            ),
    {
        self.push_type_mismatch_diagnostic(
            Diagnostic::error(
                concat4("expected `", expected, "`, found a ", found),
            ).with_code(Code::TypeMismatch).with_label(
                span,
                concat2("this is a ", found),
            ).with_note(
                concat3(
                    "change the value to produce `",
                    expected,
                    "`, or change the annotation to match the literal",
                ),
            ),
        );
    }

    /// A tuple of another length than expected.
    pub fn report_tuple_arity_mismatch(&mut self, expected: usize, found: usize, span: Span)
        ensures
            final(self)@ == old(self)@.with(
                SpecDiagnostic::error(
                    "expected a "@ + decimal(expected as nat) + "-element tuple, found a "@
                        + decimal(found as nat) + "-element tuple"@,
                ).coded(Code::TypeMismatch).labelled(
                    span,
                    "tuple length does not match annotation"@,
                ).noted(
                    "add or remove tuple elements to match the annotation"@,
                ),
            ),
    {
        let expected_text: String = unsigned_text(expected as u64);
        let found_text: String = unsigned_text(found as u64);
        self.push(
            Diagnostic::error(
                concat5(
                    "expected a ",
                    expected_text.as_str(),
                    "-element tuple, found a ",
                    found_text.as_str(),
                    "-element tuple",
                ),
            ).with_code(Code::TypeMismatch).with_label(
                span,
                "tuple length does not match annotation".to_owned(),
            ).with_note(
                "add or remove tuple elements to match the annotation".to_owned(),
            ),
        );
    }

    /// A tuple index that is not known at compile time.
    pub fn report_tuple_index_not_comptime(&mut self, span: Span)
        ensures
            final(self)@ == old(self)@.with(
                SpecDiagnostic::error(
                    "tuple index must be known at compile time"@,
                ).coded(Code::TypeTupleIndexNotComptime).labelled(
                    span,
                    "this index is not a compile-time integer"@,
                ).noted(
                    "tuple indices must be known at compile time; convert to an array for runtime indexing, or use a comptime index"@,
                ),
            ),
    {
        self.push(
            Diagnostic::error(
                "tuple index must be known at compile time".to_owned(),
            ).with_code(Code::TypeTupleIndexNotComptime).with_label(
                span,
                "this index is not a compile-time integer".to_owned(),
            ).with_note(
                "tuple indices must be known at compile time; convert to an array for runtime indexing, or use a comptime index".to_owned(),
            ),
        );
    }

    /// A tuple index past the end.
    pub fn report_tuple_index_out_of_range(&mut self, span: Span, index: usize, arity: usize)
        ensures
            final(self)@ == old(self)@.with(
                SpecDiagnostic::error(
                    "tuple index `"@ + decimal(index as nat) + "` is out of range"@,
                ).coded(Code::TypeTupleIndexOutOfRange).labelled(
                    span,
                    "this tuple has "@ + decimal(arity as nat) + " element"@
                        + plural(arity as nat),
                ).noted(
                    "use an in-range compile-time index, or convert the tuple to an array for runtime indexing"@,
                ),
            ),
    {
        let index_text: String = unsigned_text(index as u64);
        let arity_text: String = unsigned_text(arity as u64);
        self.push(
            Diagnostic::error(
                concat3("tuple index `", index_text.as_str(), "` is out of range"),
            ).with_code(Code::TypeTupleIndexOutOfRange).with_label(
                span,
                concat4(
                    "this tuple has ",
                    arity_text.as_str(),
                    " element",
                    plural_suffix(arity),
                ),
            ).with_note(
                "use an in-range compile-time index, or convert the tuple to an array for runtime indexing".to_owned(),
            ),
        );
    }

    /// A function with another number of parameters than expected.
    pub fn report_parameter_count_mismatch(&mut self, total: usize, found: usize, span: Span)
        ensures
            final(self)@ == old(self)@.with(
                SpecDiagnostic::error(
                    "expected a function with "@ + decimal(total as nat) + " parameter"@
                        + plural(total as nat) + ", found one with "@ + decimal(found as nat),
                ).coded(Code::TypeMismatch).labelled(
                    span,
                    "function parameter count does not match annotation"@,
                ).noted(
                    "add or remove parameters to match the annotation"@,
                ),
            ),
    {
        let total_text: String = unsigned_text(total as u64);
        let found_text: String = unsigned_text(found as u64);
        self.push(
            Diagnostic::error(
                concat6(
                    "expected a function with ",
                    total_text.as_str(),
                    " parameter",
                    plural_suffix(total),
                    ", found one with ",
                    found_text.as_str(),
                ),
            ).with_code(Code::TypeMismatch).with_label(
                span,
                "function parameter count does not match annotation".to_owned(),
            ).with_note(
                "add or remove parameters to match the annotation".to_owned(),
            ),
        );
    }

    /// A function with a number of parameters out of a range.
    pub fn report_argument_count_mismatch(
        &mut self,
        required: usize,
        total: usize,
        found: usize,
        span: Span,
    )
        ensures
            final(self)@ == old(self)@.with(
                SpecDiagnostic::error(
                    "expected between "@ + decimal(required as nat) + " and "@
                        + decimal(total as nat) + " arguments, found "@ + decimal(found as nat),
                ).coded(Code::TypeMismatch).labelled(
                    span,
                    "function parameter count does not match annotation"@,
                ).noted(
                    "add or remove parameters to match the annotation"@,
                ),
            ),
    {
        let required_text: String = unsigned_text(required as u64);
        let total_text: String = unsigned_text(total as u64);
        let found_text: String = unsigned_text(found as u64);
        self.push(
            Diagnostic::error(
                concat6(
                    "expected between ",
                    required_text.as_str(),
                    " and ",
                    total_text.as_str(),
                    " arguments, found ",
                    found_text.as_str(),
                ),
            ).with_code(Code::TypeMismatch).with_label(
                span,
                "function parameter count does not match annotation".to_owned(),
            ).with_note(
                "add or remove parameters to match the annotation".to_owned(),
            ),
        );
    }

    /// A tag that the variant does not list.
    pub fn report_variant_tag_mismatch(&mut self, tag: &str, span: Span)
        ensures
            final(self)@ == old(self)@.with(
                SpecDiagnostic::error(
                    "unexpected variant tag `"@ + tag@ + "`"@,
                ).coded(Code::TypeMismatch).labelled(
                    span,
                    "this tag is not in the variant type"@,
                ).noted(
                    "use a tag listed by the annotation, or change the annotation"@,
                ),
            ),
    {
        self.push(
            Diagnostic::error(
                concat3("unexpected variant tag `", tag, "`"),
            ).with_code(Code::TypeMismatch).with_label(
                span,
                "this tag is not in the variant type".to_owned(),
            ).with_note(
                "use a tag listed by the annotation, or change the annotation".to_owned(),
            ),
        );
    }

    /// A literal that the union does not list.
    pub fn report_literal_not_in_union(
        &mut self,
        literal: &Literal,
        expected: &Vec<&Literal>,
        span: Span,
    )
        ensures
            final(self)@ == old(self)@.with(
                SpecDiagnostic::error(
                    "literal "@ + literal_text(literal@) + " is not one of "@
                        + literal_union_text(literals_view(expected@)),
                ).coded(Code::TypeLiteralNotInUnion).labelled(
                    span,
                    "this literal is not allowed by the annotation"@,
                ).noted(
                    "use one of "@ + literal_union_text(literals_view(expected@))
                        + ", or change the literal-union annotation"@,
                ),
            ),
    {
        let expected_text: String = render_literal_union(expected);
        self.push(
            Diagnostic::error(
                concat4(
                    "literal ",
                    render_literal_value(literal),
                    " is not one of ",
                    expected_text.as_str(),
                ),
            ).with_code(Code::TypeLiteralNotInUnion).with_label(
                span,
                "this literal is not allowed by the annotation".to_owned(),
            ).with_note(
                concat3(
                    "use one of ",
                    expected_text.as_str(),
                    ", or change the literal-union annotation",
                ),
            ),
        );
    }

    /// A value of a wider type than a union of literals.
    pub fn report_wide_value_into_literal_union(
        &mut self,
        expected: &str,
        actual: &str,
        span: Span,
    )
        ensures
            final(self)@ == old(self)@.with(
                SpecDiagnostic::error(
                    "expected literal union `"@ + expected@ + "`, found `"@ + actual@ + "`"@,
                ).coded(Code::TypeWideValueIntoLiteralUnion).labelled(
                    span,
                    "this value has the wider `"@ + actual@ + "` type"@,
                ).noted(
                    "a bound value may be any value of its base type; use a fresh member literal here, or keep the narrower literal-union type on the value"@,
                ),
            ),
    {
        self.push(
            Diagnostic::error(
                concat5("expected literal union `", expected, "`, found `", actual, "`"),
            ).with_code(Code::TypeWideValueIntoLiteralUnion).with_label(
                span,
                concat3("this value has the wider `", actual, "` type"),
            ).with_note(
                "a bound value may be any value of its base type; use a fresh member literal here, or keep the narrower literal-union type on the value".to_owned(),
            ),
        );
    }

    /// Tags where literals are expected, or the other way round.
    pub fn report_variant_entry_kind_mismatch(&mut self, expected: &str, actual: &str, span: Span)
        ensures
            final(self)@ == old(self)@.with(
                SpecDiagnostic::error(
                    "expected `"@ + expected@ + "`, found `"@ + actual@ + "`"@,
                ).coded(Code::TypeMismatch).labelled(
                    span,
                    "variant row member kinds do not match"@,
                ).noted(
                    "use tag variants with tag variants, or literal unions with literal unions"@,
                ),
            ),
    {
        self.push(
            Diagnostic::error(
                concat5("expected `", expected, "`, found `", actual, "`"),
            ).with_code(Code::TypeMismatch).with_label(
                span,
                "variant row member kinds do not match".to_owned(),
            ).with_note(
                "use tag variants with tag variants, or literal unions with literal unions".to_owned(),
            ),
        );
    }

    /// A tag with another number of values than expected.
    pub fn report_variant_payload_arity_mismatch(
        &mut self,
        tag: &str,
        expected: usize,
        found: usize,
        span: Span,
    )
        ensures
            final(self)@ == old(self)@.with(
                SpecDiagnostic::error(
                    "expected variant tag `"@ + tag@ + "` with "@ + decimal(expected as nat)
                        + " payload value"@ + plural(expected as nat) + ", found "@
                        + decimal(found as nat),
                ).coded(Code::TypeMismatch).labelled(
                    span,
                    "variant payload count does not match annotation"@,
                ).noted(
                    "add or remove payload values to match the variant annotation"@,
                ),
            ),
    {
        let expected_text: String = unsigned_text(expected as u64);
        let found_text: String = unsigned_text(found as u64);
        self.push(
            Diagnostic::error(
                concat8(
                    "expected variant tag `",
                    tag,
                    "` with ",
                    expected_text.as_str(),
                    " payload value",
                    plural_suffix(expected),
                    ", found ",
                    found_text.as_str(),
                ),
            ).with_code(Code::TypeMismatch).with_label(
                span,
                "variant payload count does not match annotation".to_owned(),
            ).with_note(
                "add or remove payload values to match the variant annotation".to_owned(),
            ),
        );
    }

    /// An open variant where a closed one is expected.
    pub fn report_open_variant_not_assignable(&mut self, span: Span)
        ensures
            final(self)@ == old(self)@.with(
                SpecDiagnostic::error(
                    "open variant may contain tags not allowed by the annotation"@,
                ).coded(Code::TypeOpenVariantNotAssignable).labelled(
                    span,
                    "this value has an open variant type"@,
                ).noted(
                    "make the annotation open with `..`, or close the value's variant type before assigning it"@,
                ),
            ),
    {
        self.push(
            Diagnostic::error(
                "open variant may contain tags not allowed by the annotation".to_owned(),
            ).with_code(Code::TypeOpenVariantNotAssignable).with_label(
                span,
                "this value has an open variant type".to_owned(),
            ).with_note(
                "make the annotation open with `..`, or close the value's variant type before assigning it".to_owned(),
            ),
        );
    }

    /// A match on an open variant without a default.
    pub fn report_open_variant_non_exhaustive(&mut self, span: Span)
        ensures
            final(self)@ == old(self)@.with(
                SpecDiagnostic::error(
                    "non-exhaustive match on an open variant"@,
                ).coded(Code::TypeNonExhaustiveMatch).labelled(
                    span,
                    "this subject may contain tags beyond those listed"@,
                ).noted(
                    "add a default arm such as `_ => ...`"@,
                ),
            ),
    {
        self.push(
            Diagnostic::error(
                "non-exhaustive match on an open variant".to_owned(),
            ).with_code(Code::TypeNonExhaustiveMatch).with_label(
                span,
                "this subject may contain tags beyond those listed".to_owned(),
            ).with_note(
                "add a default arm such as `_ => ...`".to_owned(),
            ),
        );
    }

    /// An arm for a literal that the subject cannot be.
    pub fn report_unreachable_literal_match_arm(&mut self, literal: &Literal, span: Span)
        ensures
            final(self)@ == old(self)@.with(
                SpecDiagnostic::error(
                    "unreachable match arm for literal "@ + literal_text(literal@),
                ).coded(Code::TypeUnreachableMatchArm).labelled(
                    span,
                    "this literal pattern cannot match the subject"@,
                ).noted(
                    "literal "@ + literal_text(literal@)
                        + " is not a possible value of the subject"@,
                ),
            ),
    {
        self.push(
            Diagnostic::error(
                concat2("unreachable match arm for literal ", render_literal_value(literal)),
            ).with_code(Code::TypeUnreachableMatchArm).with_label(
                span,
                "this literal pattern cannot match the subject".to_owned(),
            ).with_note(
                concat3(
                    "literal ",
                    render_literal_value(literal),
                    " is not a possible value of the subject",
                ),
            ),
        );
    }

    /// A match that leaves out tags.
    pub fn report_missing_variant_match_tags(&mut self, missing: &Vec<String>, span: Span)
        ensures
            final(self)@ == old(self)@.with(
                SpecDiagnostic::error(
                    "non-exhaustive match; missing tag"@ + plural(missing@.len()) + " "@
                        + listed(texts_view(missing@)),
                ).coded(Code::TypeNonExhaustiveMatch).labelled(
                    span,
                    "this subject has variant tags without matching arms"@,
                ).noted(
                    "add the missing arm(s), or add `_ => ...` as a default"@,
                ),
            ),
    {
        let missing_text: String = list_names(missing);
        self.push(
            Diagnostic::error(
                concat4(
                    "non-exhaustive match; missing tag",
                    plural_suffix(missing.len()),
                    " ",
                    missing_text.as_str(),
                ),
            ).with_code(Code::TypeNonExhaustiveMatch).with_label(
                span,
                "this subject has variant tags without matching arms".to_owned(),
            ).with_note(
                "add the missing arm(s), or add `_ => ...` as a default".to_owned(),
            ),
        );
    }

    /// A match that leaves out literals.
    pub fn report_missing_literal_match_members(&mut self, missing: &Vec<Literal>, span: Span)
        ensures
            final(self)@ == old(self)@.with(
                SpecDiagnostic::error(
                    "non-exhaustive match; missing literal"@ + plural(missing@.len()) + " "@
                        + listed_literals(missing@),
                ).coded(Code::TypeNonExhaustiveMatch).labelled(
                    span,
                    "this subject has literal values without matching arms"@,
                ).noted(
                    "add the missing arm(s), or add `_ => ...` as a default"@,
                ),
            ),
    {
        let missing_text: String = list_literals(missing);
        self.push(
            Diagnostic::error(
                concat4(
                    "non-exhaustive match; missing literal",
                    plural_suffix(missing.len()),
                    " ",
                    missing_text.as_str(),
                ),
            ).with_code(Code::TypeNonExhaustiveMatch).with_label(
                span,
                "this subject has literal values without matching arms".to_owned(),
            ).with_note(
                "add the missing arm(s), or add `_ => ...` as a default".to_owned(),
            ),
        );
    }

    /// A match that leaves out empty values.
    pub fn report_missing_empty_match_values(&mut self, missing: &Vec<EmptyValue>, span: Span)
        ensures
            final(self)@ == old(self)@.with(
                SpecDiagnostic::error(
                    "non-exhaustive match; missing "@ + listed_empties(missing@),
                ).coded(Code::TypeNonExhaustiveMatch).labelled(
                    span,
                    "this subject has empty values without matching arms"@,
                ).noted(
                    "add the missing arm(s), or add `_ => ...` as a default"@,
                ),
            ),
    {
        let missing_text: String = list_empties(missing);
        self.push(
            Diagnostic::error(
                concat2("non-exhaustive match; missing ", missing_text.as_str()),
            ).with_code(Code::TypeNonExhaustiveMatch).with_label(
                span,
                "this subject has empty values without matching arms".to_owned(),
            ).with_note(
                "add the missing arm(s), or add `_ => ...` as a default".to_owned(),
            ),
        );
    }

    /// A value of another type than expected.
    pub fn report_type_mismatch_between_types(&mut self, expected: &str, actual: &str, span: Span)
        ensures
            final(self)@ == old(self)@.with_mismatch(
                SpecDiagnostic::error(
                    "expected `"@ + expected@ + "`, found `"@ + actual@ + "`"@,
                ).coded(Code::TypeMismatch).labelled(
                    span,
                    "this value has type `"@ + actual@ + "`"@,
                ).noted(
                    "change the value to produce `"@ + expected@
                        + "`, or change the annotation to `"@ + actual@ + "`"@,
                ),
            ),
    {
        self.push_type_mismatch_diagnostic(
            Diagnostic::error(
                concat5("expected `", expected, "`, found `", actual, "`"),
            ).with_code(Code::TypeMismatch).with_label(
                span,
                concat3("this value has type `", actual, "`"),
            ).with_note(
                concat5(
                    "change the value to produce `",
                    expected,
                    "`, or change the annotation to `",
                    actual,
                    "`",
                ),
            ),
        );
    }

    /// A field that is written as `undefined`.
    pub fn report_redundant_undefined_field(&mut self, span: Span, delete_suggestion: &str)
        ensures
            final(self)@ == old(self)@.with(
                SpecDiagnostic::error(
                    "redundant `undefined` field value"@,
                ).coded(Code::RecordRedundantUndefined).labelled(
                    span,
                    "this field is explicitly `undefined`"@,
                ).noted(
                    "omit the field (it defaults to `undefined`), or use "@ + delete_suggestion@
                        + " to delete it from a spread"@,
                ),
            ),
    {
        self.push(
            Diagnostic::error(
                "redundant `undefined` field value".to_owned(),
            ).with_code(Code::RecordRedundantUndefined).with_label(
                span,
                "this field is explicitly `undefined`".to_owned(),
            ).with_note(
                concat3(
                    "omit the field (it defaults to `undefined`), or use ",
                    delete_suggestion,
                    " to delete it from a spread",
                ),
            ),
        );
    }

    /// A record without a field that is required.
    pub fn report_missing_field(&mut self, name: &str, span: Span)
        ensures
            final(self)@ == old(self)@.with(
                SpecDiagnostic::error(
                    "missing field `"@ + name@ + "`"@,
                ).coded(Code::TypeMissingField).labelled(
                    span,
                    "this record is missing a required field"@,
                ).noted(
                    "add `"@ + name@ + ": ...`, or make the field type optional with `?T`"@,
                ),
            ),
    {
        self.push(
            Diagnostic::error(
                concat3("missing field `", name, "`"),
            ).with_code(Code::TypeMissingField).with_label(
                span,
                "this record is missing a required field".to_owned(),
            ).with_note(
                concat3("add `", name, ": ...`, or make the field type optional with `?T`"),
            ),
        );
    }

    /// A record with a field that is not expected.
    pub fn report_unexpected_field(&mut self, name: &str, span: Span)
        ensures
            final(self)@ == old(self)@.with(
                SpecDiagnostic::error(
                    "unexpected field `"@ + name@ + "`"@,
                ).coded(Code::TypeUnexpectedField).labelled(
                    span,
                    "this field is not in the record type"@,
                ).noted(
                    "remove the field, or open the record type with `..` to allow extra fields"@,
                ),
            ),
    {
        self.push(
            Diagnostic::error(
                concat3("unexpected field `", name, "`"),
            ).with_code(Code::TypeUnexpectedField).with_label(
                span,
                "this field is not in the record type".to_owned(),
            ).with_note(
                "remove the field, or open the record type with `..` to allow extra fields".to_owned(),
            ),
        );
    }

    /// A replacement of an entry that is not there.
    pub fn report_replace_absent_field(&mut self, name: &str, span: Span)
        ensures
            final(self)@ == old(self)@.with(
                SpecDiagnostic::error(
                    "cannot replace missing label `"@ + name@ + "`"@,
                ).coded(Code::TypeReplaceAbsentField).labelled(
                    span,
                    "this replacement has no existing label to replace"@,
                ).noted(
                    "use `"@ + name@
                        + ": ...` to add the label, or spread a closed row containing `"@ + name@
                        + "` first"@,
                ),
            ),
    {
        self.push(
            Diagnostic::error(
                concat3("cannot replace missing label `", name, "`"),
            ).with_code(Code::TypeReplaceAbsentField).with_label(
                span,
                "this replacement has no existing label to replace".to_owned(),
            ).with_note(
                concat5(
                    "use `",
                    name,
                    ": ...` to add the label, or spread a closed row containing `",
                    name,
                    "` first",
                ),
            ),
        );
    }

    /// A removal of an entry that is not there.
    pub fn report_delete_absent_field(&mut self, name: &str, span: Span)
        ensures
            final(self)@ == old(self)@.with(
                SpecDiagnostic::error(
                    "cannot delete missing label `"@ + name@ + "`"@,
                ).coded(Code::TypeDeleteAbsentField).labelled(
                    span,
                    "this delete has no existing label to remove"@,
                ).noted(
                    "spread or add `"@ + name@ + "` before deleting it, or remove this delete"@,
                ),
            ),
    {
        self.push(
            Diagnostic::error(
                concat3("cannot delete missing label `", name, "`"),
            ).with_code(Code::TypeDeleteAbsentField).with_label(
                span,
                "this delete has no existing label to remove".to_owned(),
            ).with_note(
                concat3("spread or add `", name, "` before deleting it, or remove this delete"),
            ),
        );
    }

    /// A renaming of an entry that is not there.
    pub fn report_rename_absent_field(&mut self, name: &str, span: Span)
        ensures
            final(self)@ == old(self)@.with(
                SpecDiagnostic::error(
                    "cannot rename missing label `"@ + name@ + "`"@,
                ).coded(Code::TypeRenameAbsentField).labelled(
                    span,
                    "this rename has no existing label to rename"@,
                ).noted(
                    "spread or add `"@ + name@ + "` before renaming it, or remove this rename"@,
                ),
            ),
    {
        self.push(
            Diagnostic::error(
                concat3("cannot rename missing label `", name, "`"),
            ).with_code(Code::TypeRenameAbsentField).with_label(
                span,
                "this rename has no existing label to rename".to_owned(),
            ).with_note(
                concat3("spread or add `", name, "` before renaming it, or remove this rename"),
            ),
        );
    }

    /// A renaming to a label that is there.
    pub fn report_rename_target_present(&mut self, from: &str, to: &str, span: Span)
        ensures
            final(self)@ == old(self)@.with(
                SpecDiagnostic::error(
                    "cannot rename `"@ + from@ + "` to existing label `"@ + to@ + "`"@,
                ).coded(Code::TypeRenameAbsentField).labelled(
                    span,
                    "the rename target is already present in the accumulated row"@,
                ).noted(
                    "delete or rename the existing `"@ + to@ + "` label before renaming `"@
                        + from@ + "`"@,
                ),
            ),
    {
        self.push(
            Diagnostic::error(
                concat5("cannot rename `", from, "` to existing label `", to, "`"),
            ).with_code(Code::TypeRenameAbsentField).with_label(
                span,
                "the rename target is already present in the accumulated row".to_owned(),
            ).with_note(
                concat5(
                    "delete or rename the existing `",
                    to,
                    "` label before renaming `",
                    from,
                    "`",
                ),
            ),
        );
    }

    /// An alternative that binds other names than the rest.
    pub fn report_or_pattern_binding_mismatch(&mut self, mismatch: &OrPatternBindingMismatch)
        ensures
            final(self)@ == old(self)@.with(
                SpecDiagnostic::error(
                    "or-pattern alternatives bind different names"@,
                ).coded(Code::TypeOrPatternBindingMismatch).labelled(
                    mismatch.span,
                    "this alternative binds a different set of names"@,
                ).noted(
                    "binder"@ + plural(mismatch.names@.len()) + " "@
                        + listed(texts_view(mismatch.names@))
                        + " must be bound by every alternative"@,
                ),
            ),
    {
        let names: String = list_names(&mismatch.names);
        self.push(
            Diagnostic::error(
                "or-pattern alternatives bind different names".to_owned(),
            ).with_code(Code::TypeOrPatternBindingMismatch).with_label(
                mismatch.span,
                "this alternative binds a different set of names".to_owned(),
            ).with_note(
                concat5(
                    "binder",
                    plural_suffix(mismatch.names.len()),
                    " ",
                    names.as_str(),
                    " must be bound by every alternative",
                ),
            ),
        );
    }

    /// An operator of its own that a dependency uses between operands.
    pub fn report_custom_infix_in_dependency(&mut self, operator: &str, operator_span: Span)
        ensures
            final(self)@ == old(self)@.with(
                SpecDiagnostic::error(
                    "custom operator `"@ + operator@
                        + "` cannot be used as bare infix in a dependency"@,
                ).coded(Code::ParseCustomInfixNotRoot).labelled(
                    operator_span,
                    "bare custom infix is allowed only in the compilation entry"@,
                ).noted(
                    "rewrite this use as `left."@ + operator@
                        + "(right)`, or move the expression into the designated entry"@,
                ),
            ),
    {
        self.push(
            Diagnostic::error(
                concat3(
                    "custom operator `",
                    operator,
                    "` cannot be used as bare infix in a dependency",
                ),
            ).with_code(Code::ParseCustomInfixNotRoot).with_label(
                operator_span,
                "bare custom infix is allowed only in the compilation entry".to_owned(),
            ).with_note(
                concat3(
                    "rewrite this use as `left.",
                    operator,
                    "(right)`, or move the expression into the designated entry",
                ),
            ),
        );
    }

    /// A comparison of functions.
    pub fn report_function_comparison(&mut self, span: Span)
        ensures
            final(self)@ == old(self)@.with(
                SpecDiagnostic::error(
                    "functions are not comparable"@,
                ).coded(Code::TypeMismatch).labelled(
                    span,
                    "this operand is a function"@,
                ).noted(
                    "compare the results of calling the functions instead of the functions themselves"@,
                ),
            ),
    {
        self.push(
            Diagnostic::error(
                "functions are not comparable".to_owned(),
            ).with_code(Code::TypeMismatch).with_label(
                span,
                "this operand is a function".to_owned(),
            ).with_note(
                "compare the results of calling the functions instead of the functions themselves".to_owned(),
            ),
        );
    }

    /// A divisor that is zero. The label says how that is known.
    pub fn report_division_by_zero(&mut self, label: &str, checked_method: &str, span: Span)
        ensures
            final(self)@ == old(self)@.with_unique(
                SpecDiagnostic::error(
                    "division by zero"@,
                ).coded(Code::TypeDivisionByZero).labelled(
                    span,
                    label@,
                ).noted(
                    "use checked `x."@ + checked_method@
                        + "(n)` (`?Int`) when the divisor may be zero"@,
                ),
            ),
    {
        self.push_unique_diagnostic(
            Diagnostic::error(
                "division by zero".to_owned(),
            ).with_code(Code::TypeDivisionByZero).with_label(
                span,
                label.to_owned(),
            ).with_note(
                concat3(
                    "use checked `x.",
                    checked_method,
                    "(n)` (`?Int`) when the divisor may be zero",
                ),
            ),
        );
    }

    /// A divisor that may be zero.
    pub fn report_divisor_not_static(&mut self, checked_method: &str, span: Span)
        ensures
            final(self)@ == old(self)@.with_unique(
                SpecDiagnostic::error(
                    "divisor is not statically known to be non-zero"@,
                ).coded(Code::TypeDivisorNotStatic).labelled(
                    span,
                    "this divisor is not a non-zero integer literal"@,
                ).noted(
                    "use checked `x."@ + checked_method@ + "(n)` (`?Int`) or convert to `Float`"@,
                ),
            ),
    {
        self.push_unique_diagnostic(
            Diagnostic::error(
                "divisor is not statically known to be non-zero".to_owned(),
            ).with_code(Code::TypeDivisorNotStatic).with_label(
                span,
                "this divisor is not a non-zero integer literal".to_owned(),
            ).with_note(
                concat3(
                    "use checked `x.",
                    checked_method,
                    "(n)` (`?Int`) or convert to `Float`",
                ),
            ),
        );
    }

    /// A fallback of another type than what it replaces.
    pub fn report_fallback_mismatch(&mut self, payload: &str, right: &str, span: Span)
        ensures
            final(self)@ == old(self)@.with(
                SpecDiagnostic::error(
                    "expected `"@ + payload@ + "`, found `"@ + right@ + "`"@,
                ).coded(Code::TypeMismatch).labelled(
                    span,
                    "this fallback has the wrong type"@,
                ).noted(
                    "the `??` fallback must match the value it replaces"@,
                ),
            ),
    {
        self.push(
            Diagnostic::error(
                concat5("expected `", payload, "`, found `", right, "`"),
            ).with_code(Code::TypeMismatch).with_label(
                span,
                "this fallback has the wrong type".to_owned(),
            ).with_note(
                "the `??` fallback must match the value it replaces".to_owned(),
            ),
        );
    }

    /// A fallback that is never used.
    pub fn report_coalesce_never_empty(&mut self, rendered: &str, span: Span)
        ensures
            final(self)@ == old(self)@.with(
                SpecDiagnostic::warning(
                    "left operand of `??` is never empty; the fallback is dead"@,
                ).coded(Code::TypeCoalesceNeverEmpty).labelled(
                    span,
                    "this value is never empty"@,
                ).noted(
                    "type `"@ + rendered@ + "` cannot be `null` or `undefined`"@,
                ),
            ),
    {
        self.push(
            Diagnostic::warning(
                "left operand of `??` is never empty; the fallback is dead".to_owned(),
            ).with_code(Code::TypeCoalesceNeverEmpty).with_label(
                span,
                "this value is never empty".to_owned(),
            ).with_note(
                concat3("type `", rendered, "` cannot be `null` or `undefined`"),
            ),
        );
    }

    /// A field of a value that may be empty.
    pub fn report_empty_field_access(&mut self, subject: &str, empties: &str, span: Span)
        ensures
            final(self)@ == old(self)@.with(
                SpecDiagnostic::error(
                    subject@ + " may be "@ + empties@
                        + "; accessing a field through it needs `?.`"@,
                ).coded(Code::TypeUnguardedEmptyAccess).labelled(
                    span,
                    "field accessed without guarding the empty"@,
                ).noted(
                    "use `?.` to propagate the empty, `??` to supply a default, or match the empty before access"@,
                ),
            ),
    {
        self.push(
            Diagnostic::error(
                concat4(
                    subject,
                    " may be ",
                    empties,
                    "; accessing a field through it needs `?.`",
                ),
            ).with_code(Code::TypeUnguardedEmptyAccess).with_label(
                span,
                "field accessed without guarding the empty".to_owned(),
            ).with_note(
                "use `?.` to propagate the empty, `??` to supply a default, or match the empty before access".to_owned(),
            ),
        );
    }

    /// A value of a family that is made from other fields than it has.
    pub fn report_inexact_construction(&mut self, owner: &str, span: Span)
        ensures
            final(self)@ == old(self)@.with(
                SpecDiagnostic::error(
                    "`"@ + owner@ + "` construction requires exactly its declared data fields"@,
                ).coded(Code::TypeMismatch).labelled(
                    span,
                    "payload has a different record shape"@,
                ).noted(
                    "pass a record with no missing or extra fields"@,
                ),
            ),
    {
        self.push(
            Diagnostic::error(
                concat3("`", owner, "` construction requires exactly its declared data fields"),
            ).with_code(Code::TypeMismatch).with_label(
                span,
                "payload has a different record shape".to_owned(),
            ).with_note(
                "pass a record with no missing or extra fields".to_owned(),
            ),
        );
    }

    /// A method on a receiver of another type than it needs.
    pub fn report_receiver_required(
        &mut self,
        field: &str,
        required: &str,
        receiver: &str,
        span: Span,
    )
        ensures
            final(self)@ == old(self)@.with(
                SpecDiagnostic::error(
                    "`"@ + field@ + "` requires receiver `"@ + required@ + "`"@,
                ).coded(Code::TypeMismatch).labelled(
                    span,
                    "receiver is `"@ + receiver@ + "`"@,
                ).noted(
                    "fixed owner-pattern components never infer an unresolved receiver type"@,
                ),
            ),
    {
        self.push(
            Diagnostic::error(
                concat5("`", field, "` requires receiver `", required, "`"),
            ).with_code(Code::TypeMismatch).with_label(
                span,
                concat3("receiver is `", receiver, "`"),
            ).with_note(
                "fixed owner-pattern components never infer an unresolved receiver type".to_owned(),
            ),
        );
    }

    /// A decoding without a format.
    pub fn report_decode_missing_format(&mut self, hint: &str, field_span: Span)
        ensures
            final(self)@ == old(self)@.with(
                SpecDiagnostic::error(
                    "`text.decode` needs a format as its first argument"@,
                ).coded(Code::TypeDecodeFormat).labelled(
                    field_span,
                    "missing the format to decode with"@,
                ).noted(
                    "pass a format type as the first argument, such as "@ + hint@,
                ),
            ),
    {
        self.push(
            Diagnostic::error(
                "`text.decode` needs a format as its first argument".to_owned(),
            ).with_code(Code::TypeDecodeFormat).with_label(
                field_span,
                "missing the format to decode with".to_owned(),
            ).with_note(
                concat2("pass a format type as the first argument, such as ", hint),
            ),
        );
    }

    /// A decoding with something other than a format.
    pub fn report_decode_invalid_format(&mut self, hint: &str, span: Span)
        ensures
            final(self)@ == old(self)@.with(
                SpecDiagnostic::error(
                    "the first argument to `text.decode` must be a format type"@,
                ).coded(Code::TypeDecodeFormat).labelled(
                    span,
                    "not a format type carrying a `decode` implementation"@,
                ).noted(
                    "use a format type such as "@ + hint@,
                ),
            ),
    {
        self.push(
            Diagnostic::error(
                "the first argument to `text.decode` must be a format type".to_owned(),
            ).with_code(Code::TypeDecodeFormat).with_label(
                span,
                "not a format type carrying a `decode` implementation".to_owned(),
            ).with_note(
                concat2("use a format type such as ", hint),
            ),
        );
    }

    /// An encoding without a format.
    pub fn report_encode_missing_format(&mut self, hint: &str, field_span: Span)
        ensures
            final(self)@ == old(self)@.with(
                SpecDiagnostic::error(
                    "`value.encode` needs a format as its first argument"@,
                ).coded(Code::TypeEncodeFormat).labelled(
                    field_span,
                    "missing the format to encode with"@,
                ).noted(
                    "pass a format type as the first argument, such as "@ + hint@,
                ),
            ),
    {
        self.push(
            Diagnostic::error(
                "`value.encode` needs a format as its first argument".to_owned(),
            ).with_code(Code::TypeEncodeFormat).with_label(
                field_span,
                "missing the format to encode with".to_owned(),
            ).with_note(
                concat2("pass a format type as the first argument, such as ", hint),
            ),
        );
    }

    /// An encoding with something other than a format.
    pub fn report_encode_invalid_format(&mut self, hint: &str, span: Span)
        ensures
            final(self)@ == old(self)@.with(
                SpecDiagnostic::error(
                    "the first argument to `value.encode` must be a format type"@,
                ).coded(Code::TypeEncodeFormat).labelled(
                    span,
                    "not a format type carrying an `encode` implementation"@,
                ).noted(
                    "use a format type such as "@ + hint@,
                ),
            ),
    {
        self.push(
            Diagnostic::error(
                "the first argument to `value.encode` must be a format type".to_owned(),
            ).with_code(Code::TypeEncodeFormat).with_label(
                span,
                "not a format type carrying an `encode` implementation".to_owned(),
            ).with_note(
                concat2("use a format type such as ", hint),
            ),
        );
    }

    /// A call of a host function that failed at compile time.
    pub fn report_host_comptime_error(&mut self, message: &str, code: Code, span: Span)
        ensures
            final(self)@ == old(self)@.with(
                SpecDiagnostic::error(
                    message@,
                ).coded(code).labelled(
                    span,
                    "this compile-time host function call could not be resolved"@,
                ),
            ),
    {
        self.push(
            Diagnostic::error(
                message.to_owned(),
            ).with_code(code).with_label(
                span,
                "this compile-time host function call could not be resolved".to_owned(),
            ),
        );
    }

    /// A receiver outside of a method.
    pub fn report_missing_receiver(&mut self, span: Span)
        ensures
            final(self)@ == old(self)@.with_unbound(
                span,
                SpecDiagnostic::error(
                    "receiver focus `.` is only available inside a method body"@,
                ).coded(Code::NameUnbound).labelled(
                    span,
                    "no hidden receiver is in scope"@,
                ),
            ),
    {
        if !self.report_unbound_once(span) {
            return ;
        }
        self.push(
            Diagnostic::error(
                "receiver focus `.` is only available inside a method body".to_owned(),
            ).with_code(Code::NameUnbound).with_label(
                span,
                "no hidden receiver is in scope".to_owned(),
            ),
        );
    }

    /// A name that is not bound.
    pub fn report_unbound_name(&mut self, name: &str, span: Span)
        ensures
            final(self)@ == old(self)@.with_unbound(
                span,
                SpecDiagnostic::error(
                    "unbound name `"@ + name@ + "`"@,
                ).coded(Code::NameUnbound).labelled(
                    span,
                    "this name is not bound"@,
                ).noted(
                    "check the spelling, or define `"@ + name@ + "` before it is used"@,
                ),
            ),
    {
        if !self.report_unbound_once(span) {
            return ;
        }
        self.push(
            Diagnostic::error(
                concat3("unbound name `", name, "`"),
            ).with_code(Code::NameUnbound).with_label(
                span,
                "this name is not bound".to_owned(),
            ).with_note(
                concat3("check the spelling, or define `", name, "` before it is used"),
            ),
        );
    }

    /// A result that is dropped.
    pub fn report_unused_result(&mut self, span: Span)
        ensures
            final(self)@ == old(self)@.with(unused_result(span)),
    {
        self.push(
            Diagnostic::warning(
                "unused `Result`".to_owned(),
            ).with_code(Code::TypeUnusedResult).with_label(
                span,
                "this `Result` is unused".to_owned(),
            ).with_note(
                "unwrap it with `?!` (panic on `@Err`), propagate it with `?^`, or discard it explicitly with `_ =`.".to_owned(),
            ),
        );
    }

    /// Arms of a match with different types.
    pub fn report_incompatible_match_arm_type_conflict(
        &mut self,
        earlier: &str,
        diverging: &str,
        span: Span,
    )
        ensures
            final(self)@ == old(self)@.with(
                SpecDiagnostic::error(
                    "match arms produce incompatible types"@,
                ).coded(Code::TypeIncompatibleMatchArms).labelled(
                    span,
                    "this arm produces `"@ + diverging@ + "`"@,
                ).noted(
                    "earlier arms produce `"@ + earlier@
                        + "`; make all arms produce the same type, or annotate the match result type"@,
                ),
            ),
    {
        self.push(
            Diagnostic::error(
                "match arms produce incompatible types".to_owned(),
            ).with_code(Code::TypeIncompatibleMatchArms).with_label(
                span,
                concat3("this arm produces `", diverging, "`"),
            ).with_note(
                concat3(
                    "earlier arms produce `",
                    earlier,
                    "`; make all arms produce the same type, or annotate the match result type",
                ),
            ),
        );
    }

    /// A method that is taken from a type with parameters.
    pub fn report_unbound_method_parameterized_owner(
        &mut self,
        owner: &str,
        member: &str,
        span: Span,
    )
        ensures
            final(self)@ == old(self)@.with_unique(
                SpecDiagnostic::error(
                    "cannot form unbound method `"@ + member@ + "` from parameterized type `"@
                        + owner@ + "`"@,
                ).coded(Code::TypeUnboundMethodParameterizedOwner).labelled(
                    span,
                    "`"@ + owner@ + "` takes type parameters"@,
                ).noted(
                    "an unbound method value needs a concrete instantiation to bind against; call `"@
                        + member@ + "` on a value of type `"@ + owner@ + "(...)` instead"@,
                ),
            ),
    {
        self.push_unique_diagnostic(
            Diagnostic::error(
                concat5(
                    "cannot form unbound method `",
                    member,
                    "` from parameterized type `",
                    owner,
                    "`",
                ),
            ).with_code(Code::TypeUnboundMethodParameterizedOwner).with_label(
                span,
                concat3("`", owner, "` takes type parameters"),
            ).with_note(
                concat5(
                    "an unbound method value needs a concrete instantiation to bind against; call `",
                    member,
                    "` on a value of type `",
                    owner,
                    "(...)` instead",
                ),
            ),
        );
    }

    /// Methods that are asked for by an open type.
    pub fn report_open_slot_target(&mut self, span: Span)
        ensures
            final(self)@ == old(self)@.with(
                SpecDiagnostic::error(
                    "method-slot reification requires a closed target"@,
                ).coded(Code::TypeMismatch).labelled(
                    span,
                    "the target still has an open row"@,
                ).noted(
                    "use a closed slot record at a deliberate forgetting boundary"@,
                ),
            ),
    {
        self.push(
            Diagnostic::error(
                "method-slot reification requires a closed target".to_owned(),
            ).with_code(Code::TypeMismatch).with_label(
                span,
                "the target still has an open row".to_owned(),
            ).with_note(
                "use a closed slot record at a deliberate forgetting boundary".to_owned(),
            ),
        );
    }

    /// Methods of a value whose type is not known.
    pub fn report_generic_slot_source(&mut self, span: Span)
        ensures
            final(self)@ == old(self)@.with(
                SpecDiagnostic::error(
                    "generic-source method-slot reification is not available"@,
                ).coded(Code::TypeMismatch).labelled(
                    span,
                    "the source owner is not statically known here"@,
                ).noted(
                    "this boundary needs generic-source thunk materialization, which the current runtime does not provide"@,
                ),
            ),
    {
        self.push(
            Diagnostic::error(
                "generic-source method-slot reification is not available".to_owned(),
            ).with_code(Code::TypeMismatch).with_label(
                span,
                "the source owner is not statically known here".to_owned(),
            ).with_note(
                "this boundary needs generic-source thunk materialization, which the current runtime does not provide".to_owned(),
            ),
        );
    }

    /// Fields that are asked for of a builtin value.
    pub fn report_fields_of_builtin(&mut self, fields: &str, span: Span)
        ensures
            final(self)@ == old(self)@.with(
                SpecDiagnostic::error(
                    "builtin values reify only to pure-behavior targets"@,
                ).coded(Code::TypeMismatch).labelled(
                    span,
                    "target requires structural data field "@ + fields@,
                ).noted(
                    "builtin methods do not create structural data fields during reification"@,
                ),
            ),
    {
        self.push(
            Diagnostic::error(
                "builtin values reify only to pure-behavior targets".to_owned(),
            ).with_code(Code::TypeMismatch).with_label(
                span,
                concat2("target requires structural data field ", fields),
            ).with_note(
                "builtin methods do not create structural data fields during reification".to_owned(),
            ),
        );
    }

    /// A stored function where a method is asked for.
    pub fn report_stored_function_field(&mut self, name: &str, span: Span)
        ensures
            final(self)@ == old(self)@.with(
                SpecDiagnostic::error(
                    "stored function field `"@ + name@ + "` cannot fill a method slot"@,
                ).coded(Code::TypeMismatch).labelled(
                    span,
                    "member kinds differ at this boundary"@,
                ).noted(
                    "construct `{ "@ + name@ + ": value."@ + name@
                        + " }` explicitly to store a function field"@,
                ),
            ),
    {
        self.push(
            Diagnostic::error(
                concat3("stored function field `", name, "` cannot fill a method slot"),
            ).with_code(Code::TypeMismatch).with_label(
                span,
                "member kinds differ at this boundary".to_owned(),
            ).with_note(
                concat5(
                    "construct `{ ",
                    name,
                    ": value.",
                    name,
                    " }` explicitly to store a function field",
                ),
            ),
        );
    }

    /// A record where a value of a family is expected.
    pub fn report_explicit_construction(&mut self, owner: &str, span: Span)
        ensures
            final(self)@ == old(self)@.with(
                SpecDiagnostic::error(
                    "construct `"@ + owner@ + "` explicitly"@,
                ).coded(Code::TypeMismatch).labelled(
                    span,
                    "a structural record does not carry this method owner"@,
                ).noted(
                    "write `"@ + owner@ + "({ ... })` to attach its methods"@,
                ),
            ),
    {
        self.push(
            Diagnostic::error(
                concat3("construct `", owner, "` explicitly"),
            ).with_code(Code::TypeMismatch).with_label(
                span,
                "a structural record does not carry this method owner".to_owned(),
            ).with_note(
                concat3("write `", owner, "({ ... })` to attach its methods"),
            ),
        );
    }

    /// An operator on an operand whose type is not known.
    pub fn report_unresolved_method_receiver(&mut self, member: &str, operator_span: Span)
        ensures
            final(self)@ == old(self)@.with_unique(
                SpecDiagnostic::error(
                    "operator `"@ + member@ + "` has an unresolved receiver"@,
                ).coded(Code::TypeUnresolvedBinding).labelled(
                    operator_span,
                    "the left operand's type is still unknown here"@,
                ).noted(
                    "add a concrete annotation or a method requirement to the surrounding binding"@,
                ),
            ),
    {
        self.push_unique_diagnostic(
            Diagnostic::error(
                concat3("operator `", member, "` has an unresolved receiver"),
            ).with_code(Code::TypeUnresolvedBinding).with_label(
                operator_span,
                "the left operand's type is still unknown here".to_owned(),
            ).with_note(
                "add a concrete annotation or a method requirement to the surrounding binding".to_owned(),
            ),
        );
    }

    /// An operator that the requirements of a name do not cover.
    pub fn report_missing_requirement(
        &mut self,
        member: &str,
        requirement: &str,
        operator_span: Span,
    )
        ensures
            final(self)@ == old(self)@.with_unique(
                SpecDiagnostic::error(
                    "operator `"@ + member@
                        + "` is not covered by this binding's declared requirements"@,
                ).coded(Code::TypeMismatch).labelled(
                    operator_span,
                    "this generic operator use needs another requirement line"@,
                ).noted(
                    "add a requirement such as `t: "@ + requirement@
                        + "` for the left operand's generic type"@,
                ),
            ),
    {
        self.push_unique_diagnostic(
            Diagnostic::error(
                concat3(
                    "operator `",
                    member,
                    "` is not covered by this binding's declared requirements",
                ),
            ).with_code(Code::TypeMismatch).with_label(
                operator_span,
                "this generic operator use needs another requirement line".to_owned(),
            ).with_note(
                concat3(
                    "add a requirement such as `t: ",
                    requirement,
                    "` for the left operand's generic type",
                ),
            ),
        );
    }

    /// A requirement on more than one type.
    pub fn report_relational_requirement(&mut self, member: &str, operator_span: Span)
        ensures
            final(self)@ == old(self)@.with_unique(
                SpecDiagnostic::error(
                    "operator `"@ + member@
                        + "` relates more than one generic type, which is not supported in v0"@,
                ).coded(Code::TypeMismatch).labelled(
                    operator_span,
                    "this method signature contains a free scheme variable other than its candidate"@,
                ).noted(
                    "the reserved later form is `Op(t, \""@ + member@ + "\", u) = w`"@,
                ).noted(
                    "for v0, pass the operation explicitly as a parameter of type `(t, u) -> w`"@,
                ),
            ),
    {
        self.push_unique_diagnostic(
            Diagnostic::error(
                concat3(
                    "operator `",
                    member,
                    "` relates more than one generic type, which is not supported in v0",
                ),
            ).with_code(Code::TypeMismatch).with_label(
                operator_span,
                "this method signature contains a free scheme variable other than its candidate".to_owned(),
            ).with_note(
                concat3("the reserved later form is `Op(t, \"", member, "\", u) = w`"),
            ).with_note(
                "for v0, pass the operation explicitly as a parameter of type `(t, u) -> w`".to_owned(),
            ),
        );
    }

    /// A requirement on a type that nothing fixes.
    pub fn report_ambiguous_subject(&mut self, subject: &str, span: Span)
        ensures
            final(self)@ == old(self)@.with_unique(
                SpecDiagnostic::error(
                    subject@ + " has an ambiguous method requirement"@,
                ).coded(Code::TypeMismatch).labelled(
                    span,
                    "this constrained type does not occur in the ordinary function type"@,
                ).noted(
                    "every constrained generic type must occur in a parameter or result type"@,
                ),
            ),
    {
        self.push_unique_diagnostic(
            Diagnostic::error(
                concat2(subject, " has an ambiguous method requirement"),
            ).with_code(Code::TypeMismatch).with_label(
                span,
                "this constrained type does not occur in the ordinary function type".to_owned(),
            ).with_note(
                "every constrained generic type must occur in a parameter or result type".to_owned(),
            ),
        );
    }

    /// A requirement that nothing defines.
    pub fn report_unknown_requirement(&mut self, name: &str, span: Span)
        ensures
            final(self)@ == old(self)@.with_unique(
                SpecDiagnostic::error(
                    "unknown method requirement `"@ + name@ + "`"@,
                ).coded(Code::TypeUnknownName).labelled(
                    span,
                    "requirement row not found"@,
                ).noted(
                    "define an open method row or write the requirement inline"@,
                ),
            ),
    {
        self.push_unique_diagnostic(
            Diagnostic::error(
                concat3("unknown method requirement `", name, "`"),
            ).with_code(Code::TypeUnknownName).with_label(
                span,
                "requirement row not found".to_owned(),
            ).with_note(
                "define an open method row or write the requirement inline".to_owned(),
            ),
        );
    }

    /// A requirement that is no list of methods.
    pub fn report_invalid_requirement_bound(&mut self, span: Span)
        ensures
            final(self)@ == old(self)@.with_unique(
                SpecDiagnostic::error(
                    "method requirement must name or contain an open method row"@,
                ).coded(Code::TypeMismatch).labelled(
                    span,
                    "not a method requirement row"@,
                ),
            ),
    {
        self.push_unique_diagnostic(
            Diagnostic::error(
                "method requirement must name or contain an open method row".to_owned(),
            ).with_code(Code::TypeMismatch).with_label(
                span,
                "not a method requirement row".to_owned(),
            ),
        );
    }

    /// A requirement that is no method.
    pub fn report_invalid_requirement_member(&mut self, member: &str, span: Span)
        ensures
            final(self)@ == old(self)@.with_unique(
                SpecDiagnostic::error(
                    "method requirement member `"@ + member@ + "` must be a method signature"@,
                ).coded(Code::TypeMismatch).labelled(
                    span,
                    "expected a method signature such as `<(Self): Bool`"@,
                ),
            ),
    {
        self.push_unique_diagnostic(
            Diagnostic::error(
                concat3("method requirement member `", member, "` must be a method signature"),
            ).with_code(Code::TypeMismatch).with_label(
                span,
                "expected a method signature such as `<(Self): Bool`".to_owned(),
            ),
        );
    }

    /// A list of required methods that is closed.
    pub fn report_closed_requirement(&mut self, span: Span)
        ensures
            final(self)@ == old(self)@.with_unique(
                SpecDiagnostic::error(
                    "missing `..` on a method bound"@,
                ).coded(Code::ParseMissingMethodBoundOpen).labelled(
                    span,
                    "method bounds must end with `..`"@,
                ).noted(
                    "insert `..` before the closing `}`"@,
                ),
            ),
    {
        self.push_unique_diagnostic(
            Diagnostic::error(
                "missing `..` on a method bound".to_owned(),
            ).with_code(Code::ParseMissingMethodBoundOpen).with_label(
                span,
                "method bounds must end with `..`".to_owned(),
            ).with_note(
                "insert `..` before the closing `}`".to_owned(),
            ),
        );
    }

    /// Methods for something other than a builtin type.
    pub fn report_invalid_builtin_owner_pattern(&mut self, span: Span)
        ensures
            final(self)@ == old(self)@.with(
                SpecDiagnostic::error(
                    "builtin method attachments require a builtin owner pattern"@,
                ).coded(Code::TypeMismatch).labelled(
                    span,
                    "invalid owner pattern"@,
                ).noted(
                    "write a pattern such as `Array(a)`, `Array(Int)`, or `Array(Array(a))`"@,
                ),
            ),
    {
        self.push(
            Diagnostic::error(
                "builtin method attachments require a builtin owner pattern".to_owned(),
            ).with_code(Code::TypeMismatch).with_label(
                span,
                "invalid owner pattern".to_owned(),
            ).with_note(
                "write a pattern such as `Array(a)`, `Array(Int)`, or `Array(Array(a))`".to_owned(),
            ),
        );
    }

    /// A member of an attachment that is no method.
    pub fn report_attachment_member(&mut self, span: Span)
        ensures
            final(self)@ == old(self)@.with(
                SpecDiagnostic::error(
                    "builtin method attachments contain only method members"@,
                ).coded(Code::TypeMismatch).labelled(
                    span,
                    "unsupported attachment member"@,
                ),
            ),
    {
        self.push(
            Diagnostic::error(
                "builtin method attachments contain only method members".to_owned(),
            ).with_code(Code::TypeMismatch).with_label(
                span,
                "unsupported attachment member".to_owned(),
            ),
        );
    }

    /// A method of an attachment without a body.
    pub fn report_attachment_without_body(&mut self, name: &str, span: Span)
        ensures
            final(self)@ == old(self)@.with(
                SpecDiagnostic::error(
                    "builtin method slot `"@ + name@ + "` requires a source implementation"@,
                ).coded(Code::TypeMismatch).labelled(
                    span,
                    "method signature has no body"@,
                ),
            ),
    {
        self.push(
            Diagnostic::error(
                concat3("builtin method slot `", name, "` requires a source implementation"),
            ).with_code(Code::TypeMismatch).with_label(
                span,
                "method signature has no body".to_owned(),
            ),
        );
    }

    /// An attachment inside of a function.
    pub fn report_nested_attachment(&mut self, span: Span)
        ensures
            final(self)@ == old(self)@.with(
                SpecDiagnostic::error(
                    "builtin method attachments are top-level declarations"@,
                ).coded(Code::TypeMismatch).labelled(
                    span,
                    "nested attachment"@,
                ),
            ),
    {
        self.push(
            Diagnostic::error(
                "builtin method attachments are top-level declarations".to_owned(),
            ).with_code(Code::TypeMismatch).with_label(
                span,
                "nested attachment".to_owned(),
            ),
        );
    }
}

} // verus!
