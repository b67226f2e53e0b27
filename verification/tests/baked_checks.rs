//! Results of checks that are kept.
use aven_check::baked::{BakedCheck, HostComptimeParam, HostGlobals, ModuleImports, ModuleRole};
use aven_check::collections::{StringMap, StringSet};
use aven_check::methods::{
    BuiltinMethodType, NamedFamilyType, NamedMethodOrigin, NamedMethodType,
};
use aven_check::normalize::RecursiveTypes;
use aven_check::providers::ModuleIdentity;
use aven_check::same::{QualifiedType, Same};
use aven_check::span::Span;
use aven_check::type_ops::named_builtin;
use aven_check::types::{RecursiveTypeId, Row, RowTail, Type};

fn types_only(types: Vec<(String, Type)>) -> HostGlobals {
    HostGlobals {
        types,
        type_definitions: vec![],
        statics: vec![],
        comptime_fns: vec![],
        type_definition_module: ModuleIdentity::Current,
    }
}

fn specifier() -> ModuleIdentity {
    ModuleIdentity::Specifier("test".to_string())
}

/// A host whose `external` is a text.
fn text_host() -> HostGlobals {
    types_only(vec![("external".to_string(), named_builtin("Text"))])
}

const SOURCE: &str = "value: Text = external\n{ value }\n";

/// What a check of the module gives.
fn fresh() -> Vec<String> {
    vec!["{ value: Text }".to_string()]
}

fn baked() -> BakedCheck<Vec<String>> {
    BakedCheck::check(
        SOURCE,
        &text_host(),
        ModuleImports::new(),
        specifier(),
        ModuleRole::Dependency,
        fresh(),
        false,
    )
    .expect("module never calls a host callback")
}

#[test]
fn checked_output_matches_fresh_and_rejects_context_changes() {
    let globals = text_host();
    let imports = ModuleImports::new();
    let identity = specifier();
    assert_eq!(
        baked().into_checked(SOURCE, &globals, &imports, &identity, ModuleRole::Dependency),
        Some(fresh())
    );
    let different = types_only(vec![("external".to_string(), named_builtin("Int"))]);
    assert!(baked()
        .into_checked(SOURCE, &different, &imports, &identity, ModuleRole::Dependency)
        .is_none());
    let mut different = ModuleImports::new();
    different.values.insert("other".to_string(), named_builtin("Int"));
    assert!(baked()
        .into_checked(SOURCE, &globals, &different, &identity, ModuleRole::Dependency)
        .is_none());
    let mut different = ModuleImports::new();
    different.trusted_builtin_method_source = true;
    assert!(baked()
        .into_checked(SOURCE, &globals, &different, &identity, ModuleRole::Dependency)
        .is_none());
    assert!(baked()
        .into_checked("{ value: 1 }", &globals, &imports, &identity, ModuleRole::Dependency)
        .is_none());
    assert!(baked()
        .into_checked(SOURCE, &globals, &imports, &identity, ModuleRole::Entry)
        .is_none());
    assert!(baked()
        .into_checked(
            SOURCE,
            &globals,
            &imports,
            &ModuleIdentity::Current,
            ModuleRole::Dependency
        )
        .is_none());
}

#[test]
fn callback_dependent_modules_are_not_baked() {
    let mut globals = types_only(vec![(
        "lookup".to_string(),
        Type::Function {
            params: vec![named_builtin("Text")],
            result: Box::new(named_builtin("Text")),
            required: 1,
        },
    )]);
    globals
        .comptime_fns
        .push(("lookup".to_string(), vec![HostComptimeParam::Value(0)]));
    let source = "value = lookup(\"key\")\n{ value }\n";
    assert!(BakedCheck::check(
        source,
        &globals,
        ModuleImports::new(),
        ModuleIdentity::Current,
        ModuleRole::Entry,
        fresh(),
        true,
    )
    .is_none());
}

fn two_functions(names: [(&str, usize); 2]) -> HostGlobals {
    let mut globals = types_only(vec![]);
    for (name, position) in names {
        globals
            .comptime_fns
            .push((name.to_string(), vec![HostComptimeParam::Value(position)]));
    }
    globals
}

#[test]
fn comptime_params_match_independent_of_registration_order() {
    let globals = two_functions([("first", 0), ("second", 1)]);
    let source = "{ 1 }\n";
    let baked = BakedCheck::check(
        source,
        &globals,
        ModuleImports::new(),
        specifier(),
        ModuleRole::Dependency,
        fresh(),
        false,
    )
    .expect("module never calls a host callback");
    let reversed = two_functions([("second", 1), ("first", 0)]);
    assert!(baked
        .into_checked(
            source,
            &reversed,
            &ModuleImports::new(),
            &specifier(),
            ModuleRole::Dependency,
        )
        .is_some());
}

#[test]
fn every_part_of_the_imports_counts() {
    let refused = |imports: ModuleImports| {
        baked()
            .into_checked(
                SOURCE,
                &text_host(),
                &imports,
                &specifier(),
                ModuleRole::Dependency,
            )
            .is_none()
    };
    assert!(!refused(ModuleImports::new()));
    let mut imports = ModuleImports::new();
    imports
        .type_exports
        .insert("m".to_string(), StringMap::new());
    assert!(refused(imports));
    let mut imports = ModuleImports::new();
    let mut exports = StringMap::new();
    exports.insert(
        "f".to_string(),
        QualifiedType {
            ty: named_builtin("Int"),
            constraints: vec![],
        },
    );
    imports.qualified_exports.insert("m".to_string(), exports);
    assert!(refused(imports));
    let mut imports = ModuleImports::new();
    imports
        .comptime_exports
        .insert("m".to_string(), StringMap::new());
    assert!(refused(imports));
    let mut imports = ModuleImports::new();
    imports
        .named_family_exports
        .insert("m".to_string(), StringMap::new());
    assert!(refused(imports));
    let mut imports = ModuleImports::new();
    imports.builtin_methods.push(BuiltinMethodType {
        owner: named_builtin("Int"),
        owner_variables: vec![],
        member: "double".to_string(),
        params: vec![],
        result: named_builtin("Int"),
        constraints: vec![],
        owner_span: Span::new(0, 1),
        member_span: Span::new(0, 1),
    });
    assert!(refused(imports));
    let mut imports = ModuleImports::new();
    imports
        .recursive_types
        .entries
        .push((RecursiveTypeId(1), named_builtin("Int")));
    assert!(refused(imports));
}

fn family(fields: &[&str]) -> NamedFamilyType {
    let mut defaulted_fields = StringSet::new();
    for field in fields {
        defaulted_fields.insert(field.to_string());
    }
    NamedFamilyType {
        owner: "User".to_string(),
        data: Row {
            entries: vec![],
            tail: RowTail::Closed,
        },
        defaulted_fields,
        primitive_base: None,
        methods: StringMap::new(),
    }
}

#[test]
fn values_are_the_same_if_they_say_the_same() {
    assert!(family(&["a", "b"]).same(&family(&["b", "a"])));
    assert!(!family(&["a", "b"]).same(&family(&["a"])));
    let first = RecursiveTypes {
        entries: vec![
            (RecursiveTypeId(1), named_builtin("Int")),
            (RecursiveTypeId(2), named_builtin("Text")),
        ],
    };
    let second = RecursiveTypes {
        entries: vec![
            (RecursiveTypeId(2), named_builtin("Text")),
            (RecursiveTypeId(1), named_builtin("Int")),
        ],
    };
    assert!(first.same(&second));
    let inherited = |lifted: bool| NamedMethodType {
        params: vec![],
        result: named_builtin("Int"),
        constraints: vec![],
        variables: vec![],
        origin: NamedMethodOrigin::Inherited {
            base_owner: named_builtin("Int"),
            base_member: "abs".to_string(),
            lifted_params: vec![],
            lifted_result: lifted,
        },
    };
    assert!(inherited(true).equals(&inherited(true)));
    assert!(!inherited(true).equals(&inherited(false)));
}

#[test]
fn other_parameters_are_not_the_same_host() {
    let globals = two_functions([("first", 0), ("second", 1)]);
    let changed = two_functions([("first", 0), ("second", 0)]);
    let baked = BakedCheck::check(
        "{ 1 }",
        &globals,
        ModuleImports::new(),
        ModuleIdentity::Path("a.av".to_string()),
        ModuleRole::Entry,
        7u8,
        false,
    )
    .unwrap();
    assert_eq!(
        baked.into_checked(
            "{ 1 }",
            &changed,
            &ModuleImports::new(),
            &ModuleIdentity::Path("a.av".to_string()),
            ModuleRole::Entry,
        ),
        None
    );
}
