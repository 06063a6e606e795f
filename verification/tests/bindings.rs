use biome_bindings::bindings::{
    create_workspace_of, description_comment, export_clause_kind, export_declaration,
    generate_workspace_bindings, interface_of, member_of, method_request_path, signature_of,
    Declaration, DeclarationClauseKind, DeclarationKind, WorkspaceMethod,
};

fn method(name: &str, params: &str, result: &str) -> WorkspaceMethod {
    WorkspaceMethod {
        name: name.to_string(),
        params: params.to_string(),
        result: result.to_string(),
    }
}

fn declaration(kind: DeclarationKind, code: &str, description: Option<&str>) -> Declaration {
    Declaration {
        kind,
        code: code.to_string(),
        description: description.map(|d| d.to_string()),
    }
}

#[test]
fn request_path_prefixes_biome() {
    assert_eq!(method_request_path("file_features"), "biome/file_features");
}

#[test]
fn description_comment_layout() {
    assert_eq!(description_comment("A path"), "/**\n * A path\n */\n");
    assert_eq!(description_comment("trailing space  "), "/**\n * trailing space\n */\n");
    assert_eq!(description_comment(""), "/**\n *\n */\n");
    assert_eq!(description_comment("First.\n\nSecond."), "/**\n\t* First.\n\nSecond. \n\t */\n");
}

#[test]
fn long_signature_breaks_its_parameter() {
    let m = method("pull_diagnostics", "PullDiagnosticsParams", "PullDiagnosticsResult");
    assert_eq!(
        signature_of(&m),
        "pullDiagnostics(\n\t\tparams: PullDiagnosticsParams,\n\t): Promise<PullDiagnosticsResult>;"
    );
    let fits = method("update_settings", "UpdateSettingsParams", "UpdateSettingsResult");
    assert_eq!(
        signature_of(&fits),
        "updateSettings(params: UpdateSettingsParams): Promise<UpdateSettingsResult>;"
    );
}

#[test]
fn long_request_breaks_its_arguments() {
    let m = method("a_very_long_method_name_for_test", "P", "R");
    assert_eq!(
        member_of(&m),
        "\n\t\taVeryLongMethodNameForTest(params) {\n\t\t\treturn transport.request(\n\t\t\t\t\"biome/a_very_long_method_name_for_test\",\n\t\t\t\tparams,\n\t\t\t);\n\t\t}"
    );
    let short = method("a_very_long_method_name_for_tes", "P", "R");
    assert!(member_of(&short).contains("return transport.request(\"biome/a_very_long_method_name_for_tes\", params);"));
}

#[test]
fn clause_kinds() {
    assert_eq!(export_clause_kind(DeclarationKind::Variable), DeclarationClauseKind::VariableClause);
    assert_eq!(export_clause_kind(DeclarationKind::Interface), DeclarationClauseKind::Interface);
    assert_eq!(export_clause_kind(DeclarationKind::TypeAlias), DeclarationClauseKind::TypeAlias);
    assert_eq!(export_clause_kind(DeclarationKind::Class), DeclarationClauseKind::Class);
    assert_eq!(export_clause_kind(DeclarationKind::Enum), DeclarationClauseKind::Enum);
    assert_eq!(export_clause_kind(DeclarationKind::Module), DeclarationClauseKind::Module);
}

#[test]
fn export_declarations() {
    let plain = declaration(DeclarationKind::TypeAlias, "type ProjectKey = number;", None);
    assert_eq!(export_declaration(&plain), "export type ProjectKey = number;\n");

    let described = declaration(
        DeclarationKind::Interface,
        "interface BiomePath {\n\tpath: string;\n}",
        Some("A path on disk"),
    );
    assert_eq!(
        export_declaration(&described),
        "/**\n * A path on disk\n */\nexport interface BiomePath {\n\tpath: string;\n}\n"
    );

    let variable = declaration(DeclarationKind::Variable, "const VERSION = 1", None);
    assert_eq!(export_declaration(&variable), "export const VERSION = 1;\n");
}

#[test]
fn signature_and_member_of_a_method() {
    let m = method("file_features", "SupportsFeatureParams", "FileFeaturesResult");
    assert_eq!(
        signature_of(&m),
        "fileFeatures(params: SupportsFeatureParams): Promise<FileFeaturesResult>;"
    );
    assert_eq!(
        member_of(&m),
        "\n\t\tfileFeatures(params) {\n\t\t\treturn transport.request(\"biome/file_features\", params);\n\t\t}"
    );
}

#[test]
fn interface_without_methods_has_destroy() {
    assert_eq!(
        interface_of(&vec![]),
        "export interface Workspace {\n\tdestroy(): void;\n}\n"
    );
}

#[test]
fn create_workspace_without_methods() {
    assert_eq!(
        create_workspace_of(&vec![]),
        "export function createWorkspace(transport: Transport): Workspace {\n\treturn {\n\t\tdestroy() {\n\t\t\ttransport.destroy();\n\t\t},\n\t};\n}\n"
    );
}

#[test]
fn every_object_member_followed_by_comma() {
    let ms = vec![
        method("open_file", "OpenFileParams", "null"),
        method("close_file", "CloseFileParams", "null"),
    ];
    let code = create_workspace_of(&ms);
    assert_eq!(code.matches("\n\t\t},").count(), 3);
    assert!(code.contains("openFile(params) {"));
    assert!(code.contains("transport.request(\"biome/close_file\", params)"));
}

#[test]
fn full_module() {
    let methods = vec![
        method("file_features", "SupportsFeatureParams", "FileFeaturesResult"),
        method("update_settings", "UpdateSettingsParams", "UpdateSettingsResult"),
    ];
    let declarations = vec![
        declaration(
            DeclarationKind::Interface,
            "interface SupportsFeatureParams {\n\tpath: BiomePath;\n}",
            None,
        ),
        declaration(
            DeclarationKind::TypeAlias,
            "type SupportKind = \"supported\" | \"ignored\";",
            Some("Whether a feature is supported"),
        ),
    ];
    let expected = "// Generated file, do not edit by hand, see `xtask/codegen`\n\
import type { Transport } from \"./transport\";\n\
export interface SupportsFeatureParams {\n\tpath: BiomePath;\n}\n\
/**\n * Whether a feature is supported\n */\n\
export type SupportKind = \"supported\" | \"ignored\";\n\
export interface Workspace {\n\
\tfileFeatures(params: SupportsFeatureParams): Promise<FileFeaturesResult>;\n\
\tupdateSettings(params: UpdateSettingsParams): Promise<UpdateSettingsResult>;\n\
\tdestroy(): void;\n\
}\n\
export function createWorkspace(transport: Transport): Workspace {\n\
\treturn {\n\
\t\tfileFeatures(params) {\n\
\t\t\treturn transport.request(\"biome/file_features\", params);\n\
\t\t},\n\
\t\tupdateSettings(params) {\n\
\t\t\treturn transport.request(\"biome/update_settings\", params);\n\
\t\t},\n\
\t\tdestroy() {\n\
\t\t\ttransport.destroy();\n\
\t\t},\n\
\t};\n\
}\n";
    assert_eq!(generate_workspace_bindings(&methods, &declarations), expected);
}

#[test]
fn module_without_methods_or_declarations() {
    let code = generate_workspace_bindings(&vec![], &vec![]);
    assert!(code.starts_with("// Generated file, do not edit by hand, see `xtask/codegen`\n"));
    assert!(code.contains("export interface Workspace {\n\tdestroy(): void;\n}\n"));
}

#[test]
fn module_breaks_long_signature_in_interface() {
    let methods = vec![method("pull_diagnostics", "PullDiagnosticsParams", "PullDiagnosticsResult")];
    let code = generate_workspace_bindings(&methods, &vec![]);
    assert!(code.contains(
        "export interface Workspace {\n\tpullDiagnostics(\n\t\tparams: PullDiagnosticsParams,\n\t): Promise<PullDiagnosticsResult>;\n\tdestroy(): void;\n}\n"
    ));
    assert!(code.contains(
        "\t\tpullDiagnostics(params) {\n\t\t\treturn transport.request(\"biome/pull_diagnostics\", params);\n\t\t},\n"
    ));
}
