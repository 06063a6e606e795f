use biome_bindings::casing::to_camel_case;

#[test]
fn camel_case_of_snake_case_names() {
    assert_eq!(to_camel_case("file_features"), "fileFeatures");
    assert_eq!(to_camel_case("update_settings"), "updateSettings");
    assert_eq!(to_camel_case("open_project"), "openProject");
    assert_eq!(to_camel_case("get_syntax_tree"), "getSyntaxTree");
    assert_eq!(to_camel_case("version_2"), "version2");
    assert_eq!(to_camel_case("a__b"), "aB");
}

#[test]
fn camel_case_keeps_camel_case_names() {
    assert_eq!(to_camel_case("format"), "format");
    assert_eq!(to_camel_case("fileFeatures"), "fileFeatures");
    assert_eq!(to_camel_case(""), "");
}

#[test]
fn camel_case_splits_at_other_boundaries() {
    assert_eq!(to_camel_case("Ab"), "ab");
    assert_eq!(to_camel_case("FileFeatures"), "fileFeatures");
    assert_eq!(to_camel_case("a-b"), "aB");
    assert_eq!(to_camel_case("HTTPServer"), "httpServer");
    assert_eq!(to_camel_case("SCREAMING_CASE"), "screamingCase");
    assert_eq!(to_camel_case("some name"), "someName");
}

#[test]
fn camel_case_keeps_leading_and_trailing_marks() {
    assert_eq!(to_camel_case("_private"), "_private");
    assert_eq!(to_camel_case("trailing_"), "trailing_");
    assert_eq!(to_camel_case("$ref_name"), "$refName");
}

#[test]
fn camel_case_uses_unicode_case() {
    assert_eq!(to_camel_case("é_été"), "éÉté");
    assert_eq!(to_camel_case("Éa"), "éa");
}

#[test]
fn camel_case_is_stable_on_its_result() {
    for name in ["file_features", "a__b", "pull_diagnostics", "HTTPServer"] {
        let once = to_camel_case(name);
        assert_eq!(to_camel_case(&once), once);
    }
}
