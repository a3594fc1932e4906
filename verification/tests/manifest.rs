use cpm::error::{check_exit, ToolchainError};
use cpm::manifest::{
    declares_twice, parse_module_type, validate, ManifestError, Module, ModuleType, Project,
    RawModule, RawProject, RawSources, Sources,
};

fn pair(a: &str, b: &str) -> (String, String) {
    (a.to_string(), b.to_string())
}

fn complete() -> RawModule {
    RawModule {
        project: Some(RawProject {
            name: Some("app".to_string()),
            version: Some("0.1.0".to_string()),
            module_type: Some("Executable".to_string()),
        }),
        dependencies: Some(vec![pair("mathlib", "1.0"), pair("io", "*")]),
        flags: Some(vec![pair("opt", "2")]),
        sources: Some(RawSources {
            source: Some(vec!["main.cpp".to_string()]),
            header: Some(vec!["main.h".to_string()]),
        }),
    }
}

fn refused(raw: RawModule) -> String {
    match validate(raw) {
        Err(ManifestError::Parse { field }) => field,
        other => panic!("expected a parse error, got {:?}", other),
    }
}

#[test]
fn complete_manifest_is_accepted() {
    let m = validate(complete()).unwrap();
    assert_eq!(
        m,
        Module {
            project: Project {
                name: "app".to_string(),
                version: "0.1.0".to_string(),
                module_type: ModuleType::Executable,
            },
            dependencies: vec![pair("mathlib", "1.0"), pair("io", "*")],
            flags: vec![pair("opt", "2")],
            sources: Sources {
                source: vec!["main.cpp".to_string()],
                header: vec!["main.h".to_string()],
            },
        }
    );
}

#[test]
fn missing_sources_section_is_named() {
    let mut raw = complete();
    raw.sources = None;
    assert_eq!(
        validate(raw),
        Err(ManifestError::Parse { field: "sources".to_string() })
    );
}

#[test]
fn missing_project_is_named() {
    let mut raw = complete();
    raw.project = None;
    assert_eq!(refused(raw), "project");
}

#[test]
fn missing_or_empty_name_is_named() {
    let mut raw = complete();
    raw.project.as_mut().unwrap().name = None;
    assert_eq!(refused(raw), "project.name");
    let mut raw = complete();
    raw.project.as_mut().unwrap().name = Some(String::new());
    assert_eq!(refused(raw), "project.name");
}

#[test]
fn missing_version_is_named() {
    let mut raw = complete();
    raw.project.as_mut().unwrap().version = None;
    assert_eq!(refused(raw), "project.version");
}

#[test]
fn missing_or_unknown_module_type_is_named() {
    let mut raw = complete();
    raw.project.as_mut().unwrap().module_type = None;
    assert_eq!(refused(raw), "project.module_type");
    let mut raw = complete();
    raw.project.as_mut().unwrap().module_type = Some("plugin".to_string());
    assert_eq!(refused(raw), "project.module_type");
}

#[test]
fn missing_dependencies_and_flags_are_named() {
    let mut raw = complete();
    raw.dependencies = None;
    assert_eq!(refused(raw), "dependencies");
    let mut raw = complete();
    raw.flags = None;
    assert_eq!(refused(raw), "flags");
}

#[test]
fn dependency_declared_twice_is_refused() {
    let mut raw = complete();
    raw.dependencies = Some(vec![pair("a", "1"), pair("b", "1"), pair("a", "2")]);
    assert_eq!(refused(raw), "dependencies");
}

#[test]
fn missing_source_and_header_lists_are_named() {
    let mut raw = complete();
    raw.sources.as_mut().unwrap().source = None;
    assert_eq!(refused(raw), "sources.source");
    let mut raw = complete();
    raw.sources.as_mut().unwrap().header = None;
    assert_eq!(refused(raw), "sources.header");
}

#[test]
fn first_offending_field_wins() {
    let mut raw = complete();
    raw.sources = None;
    raw.project.as_mut().unwrap().version = None;
    assert_eq!(refused(raw), "project.version");
}

#[test]
fn empty_lists_are_valid() {
    let mut raw = complete();
    raw.dependencies = Some(vec![]);
    raw.flags = Some(vec![]);
    raw.sources = Some(RawSources { source: Some(vec![]), header: Some(vec![]) });
    let m = validate(raw).unwrap();
    assert!(m.dependencies.is_empty());
    assert!(m.sources.source.is_empty());
}

#[test]
fn module_type_names() {
    assert_eq!(parse_module_type("Executable"), Some(ModuleType::Executable));
    assert_eq!(parse_module_type("executable"), Some(ModuleType::Executable));
    assert_eq!(parse_module_type("Library"), Some(ModuleType::Library));
    assert_eq!(parse_module_type("library"), Some(ModuleType::Library));
    assert_eq!(parse_module_type("LIBRARY"), None);
    assert_eq!(parse_module_type(""), None);
}

#[test]
fn duplicates_are_found() {
    assert!(!declares_twice(&vec![]));
    assert!(!declares_twice(&vec![pair("a", "1")]));
    assert!(!declares_twice(&vec![pair("a", "1"), pair("b", "1")]));
    assert!(declares_twice(&vec![pair("a", "1"), pair("a", "1")]));
    assert!(declares_twice(&vec![pair("a", "1"), pair("b", "1"), pair("c", "3"), pair("b", "2")]));
}

#[test]
fn exit_codes() {
    assert_eq!(check_exit(0), Ok(()));
    assert_eq!(check_exit(1), Err(ToolchainError::NonZeroExit { code: 1 }));
    assert_eq!(check_exit(-7), Err(ToolchainError::NonZeroExit { code: -7 }));
    assert_eq!(check_exit(i32::MIN), Err(ToolchainError::NonZeroExit { code: i32::MIN }));
}
