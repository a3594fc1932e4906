use cpm::error::{BuildError, ToolchainError};
use cpm::manifest::{ManifestError, RawModule, RawProject, RawSources};
use cpm::options::CompilerType;
use cpm::walker::{
    artifact_of, assemble, dependency_dir, library_dir, Action, LoadOutcome, Phase, Walker,
};

fn strings(items: &[&str]) -> Vec<String> {
    items.iter().map(|s| s.to_string()).collect()
}

fn raw(name: &str, kind: &str, deps: &[&str], sources: &[&str]) -> RawModule {
    RawModule {
        project: Some(RawProject {
            name: Some(name.to_string()),
            version: Some("1.0".to_string()),
            module_type: Some(kind.to_string()),
        }),
        dependencies: Some(deps.iter().map(|d| (d.to_string(), "*".to_string())).collect()),
        flags: Some(vec![]),
        sources: Some(RawSources { source: Some(strings(sources)), header: Some(vec![]) }),
    }
}

fn load(location: &str) -> Action {
    Action::Load { location: location.to_string(), path: format!("{}/module.toml", location) }
}

fn invoke(dir: &str, args: &[&str]) -> Action {
    Action::Invoke { program: "g++".to_string(), dir: dir.to_string(), args: strings(args) }
}

/// A walker of the project at `p` that waits for the root manifest.
fn started() -> Walker {
    let mut w = Walker::new("p", "p", CompilerType::GCC);
    assert_eq!(w.current_phase(), Phase::Idle);
    assert_eq!(w.start(), Action::EnsureDir { path: "p/modules/lib".to_string() });
    assert_eq!(w.current_phase(), Phase::Preparing);
    assert_eq!(w.dir_ready(Ok(())), load("p"));
    assert_eq!(w.current_phase(), Phase::Loading);
    w
}

#[test]
fn locations() {
    assert_eq!(dependency_dir("p", "mathlib"), "p/modules/mathlib");
    assert_eq!(library_dir("p"), "p/modules/lib");
    assert_eq!(library_dir("."), "./modules/lib");
}

#[test]
fn single_executable_is_built_from_the_root() {
    let mut w = started();
    let a = w.loaded(LoadOutcome::Read(raw("app", "Executable", &[], &["main.cpp"])));
    assert_eq!(a, invoke("p", &["main.cpp", "-Ip", "-Lp/modules/lib", "-o", "p/app"]));
    assert_eq!(w.current_phase(), Phase::Compiling);
    assert!(!w.is_built("p"));
    let a = w.invoked(Ok(()));
    assert_eq!(a, Action::Finished { artifact: "p/app".to_string() });
    assert_eq!(w.current_phase(), Phase::Finished);
    assert!(w.is_built("p"));
    assert_eq!(w.built_count(), 1);
}

#[test]
fn sources_come_in_declaration_order() {
    let mut w = started();
    let a = w.loaded(LoadOutcome::Read(raw("t", "Executable", &[], &["z.c", "a.c", "m.c"])));
    assert_eq!(a, invoke("p", &["z.c", "a.c", "m.c", "-Ip", "-Lp/modules/lib", "-o", "p/t"]));
}

#[test]
fn no_sources_at_all() {
    let mut w = started();
    let a = w.loaded(LoadOutcome::Read(raw("t", "Executable", &[], &[])));
    assert_eq!(a, invoke("p", &["-Ip", "-Lp/modules/lib", "-o", "p/t"]));
}

#[test]
fn output_directory_of_the_caller() {
    let mut w = Walker::new("p", "out/bin", CompilerType::GCC);
    w.start();
    w.dir_ready(Ok(()));
    let a = w.loaded(LoadOutcome::Read(raw("app", "executable", &[], &["main.cpp"])));
    assert_eq!(a, invoke("p", &["main.cpp", "-Ip", "-Lp/modules/lib", "-o", "out/bin/app"]));
    assert_eq!(w.invoked(Ok(())), Action::Finished { artifact: "out/bin/app".to_string() });
}

#[test]
fn library_is_built_before_its_dependent() {
    let mut w = started();
    let a = w.loaded(LoadOutcome::Read(raw("app", "Executable", &["mathlib"], &["main.cpp"])));
    assert_eq!(a, load("p/modules/mathlib"));
    assert_eq!(w.current_phase(), Phase::Loading);
    let a = w.loaded(LoadOutcome::Read(raw("mathlib", "Library", &[], &["add.cpp", "mul.cpp"])));
    assert_eq!(
        a,
        invoke(
            "p/modules/mathlib",
            &[
                "add.cpp",
                "mul.cpp",
                "-Ip/modules/mathlib",
                "-Lp/modules/lib",
                "-o",
                "p/modules/lib/libmathlib.a"
            ]
        )
    );
    assert!(!w.is_built("p/modules/mathlib"));
    let a = w.invoked(Ok(()));
    assert!(w.is_built("p/modules/mathlib"));
    assert!(!w.is_built("p"));
    assert_eq!(
        a,
        invoke("p", &["main.cpp", "-Ip", "-Lp/modules/lib", "-lmathlib", "-o", "p/app"])
    );
    assert_eq!(w.invoked(Ok(())), Action::Finished { artifact: "p/app".to_string() });
    assert_eq!(w.built_count(), 2);
}

#[test]
fn cycle_is_refused() {
    let mut w = started();
    let a = w.loaded(LoadOutcome::Read(raw("root", "Executable", &["a"], &["r.c"])));
    assert_eq!(a, load("p/modules/a"));
    let a = w.loaded(LoadOutcome::Read(raw("a", "Library", &["b"], &["a.c"])));
    assert_eq!(a, load("p/modules/b"));
    let a = w.loaded(LoadOutcome::Read(raw("b", "Library", &["a"], &["b.c"])));
    assert_eq!(
        a,
        Action::Failed {
            error: BuildError::CyclicDependency {
                path: strings(&["p", "p/modules/a", "p/modules/b", "p/modules/a"])
            }
        }
    );
    assert_eq!(w.current_phase(), Phase::Failed);
    assert_eq!(w.built_count(), 0);
}

#[test]
fn module_that_depends_on_itself_is_refused() {
    let mut w = started();
    w.loaded(LoadOutcome::Read(raw("root", "Executable", &["a"], &[])));
    let a = w.loaded(LoadOutcome::Read(raw("a", "Library", &["a"], &[])));
    assert_eq!(
        a,
        Action::Failed {
            error: BuildError::CyclicDependency {
                path: strings(&["p", "p/modules/a", "p/modules/a"])
            }
        }
    );
}

#[test]
fn diamond_builds_the_shared_module_once() {
    let mut w = started();
    let mut invocations: Vec<String> = Vec::new();
    let mut loads: Vec<String> = Vec::new();
    let mut a = w.loaded(LoadOutcome::Read(raw("root", "Executable", &["a", "b"], &["r.c"])));
    let last = loop {
        a = match a {
            Action::Load { location, path } => {
                loads.push(path);
                let m = match location.as_str() {
                    "p/modules/a" => raw("a", "Library", &["c"], &["a.c"]),
                    "p/modules/b" => raw("b", "Library", &["c"], &["b.c"]),
                    "p/modules/c" => raw("c", "Library", &[], &["c.c"]),
                    other => panic!("unexpected load of {}", other),
                };
                w.loaded(LoadOutcome::Read(m))
            }
            Action::Invoke { dir, .. } => {
                invocations.push(dir);
                w.invoked(Ok(()))
            }
            other => break other,
        };
    };
    assert_eq!(last, Action::Finished { artifact: "p/root".to_string() });
    assert_eq!(invocations, strings(&["p/modules/c", "p/modules/a", "p/modules/b", "p"]));
    assert_eq!(
        loads,
        strings(&[
            "p/modules/a/module.toml",
            "p/modules/c/module.toml",
            "p/modules/b/module.toml"
        ])
    );
    assert_eq!(w.built_count(), 4);
}

#[test]
fn missing_sources_stops_the_walk() {
    let mut w = started();
    let mut m = raw("app", "Executable", &[], &[]);
    m.sources = None;
    let a = w.loaded(LoadOutcome::Read(m));
    assert_eq!(
        a,
        Action::Failed {
            error: BuildError::Manifest {
                path: "p/module.toml".to_string(),
                error: ManifestError::Parse { field: "sources".to_string() },
            }
        }
    );
    assert_eq!(w.current_phase(), Phase::Failed);
    assert_eq!(w.built_count(), 0);
}

#[test]
fn missing_manifest_of_a_dependency_names_its_file() {
    let mut w = started();
    w.loaded(LoadOutcome::Read(raw("app", "Executable", &["gone"], &["main.cpp"])));
    let a = w.loaded(LoadOutcome::NotFound);
    assert_eq!(
        a,
        Action::Failed {
            error: BuildError::Manifest {
                path: "p/modules/gone/module.toml".to_string(),
                error: ManifestError::NotFound,
            }
        }
    );
    assert_eq!(w.current_phase(), Phase::Failed);
}

#[test]
fn non_zero_exit_aborts_the_build() {
    let mut w = started();
    w.loaded(LoadOutcome::Read(raw("app", "Executable", &["mathlib"], &["main.cpp"])));
    w.loaded(LoadOutcome::Read(raw("mathlib", "Library", &[], &["add.cpp"])));
    let a = w.invoked(Err(ToolchainError::NonZeroExit { code: 2 }));
    assert_eq!(
        a,
        Action::Failed {
            error: BuildError::Toolchain {
                module: "p/modules/mathlib".to_string(),
                error: ToolchainError::NonZeroExit { code: 2 },
            }
        }
    );
    assert_eq!(w.current_phase(), Phase::Failed);
    assert!(!w.is_built("p/modules/mathlib"));
    assert_eq!(w.built_count(), 0);
}

#[test]
fn launch_failure_is_passed_on() {
    let mut w = started();
    w.loaded(LoadOutcome::Read(raw("app", "Executable", &[], &["main.cpp"])));
    let cause = ToolchainError::LaunchFailed { cause: "not found".to_string() };
    assert_eq!(
        w.invoked(Err(cause.clone())),
        Action::Failed { error: BuildError::Toolchain { module: "p".to_string(), error: cause } }
    );
}

#[test]
fn directory_failure_ends_the_walk() {
    let mut w = Walker::new("p", "p", CompilerType::GCC);
    w.start();
    let a = w.dir_ready(Err("permission denied".to_string()));
    assert_eq!(
        a,
        Action::Failed {
            error: BuildError::FileSystem {
                path: "p/modules/lib".to_string(),
                cause: "permission denied".to_string(),
            }
        }
    );
    assert_eq!(w.current_phase(), Phase::Failed);
}

#[test]
fn msvc_walk() {
    let mut w = Walker::new("p", "p", CompilerType::MSVC);
    w.start();
    w.dir_ready(Ok(()));
    w.loaded(LoadOutcome::Read(raw("app", "Executable", &["m"], &["main.cpp"])));
    let a = w.loaded(LoadOutcome::Read(raw("m", "Library", &[], &["m.cpp"])));
    assert_eq!(
        a,
        Action::Invoke {
            program: "cl".to_string(),
            dir: "p/modules/m".to_string(),
            args: strings(&[
                "m.cpp",
                "/Ip/modules/m",
                "/LIBPATH:p/modules/lib",
                "/OUT:p/modules/lib/libm.lib"
            ]),
        }
    );
    let a = w.invoked(Ok(()));
    assert_eq!(
        a,
        Action::Invoke {
            program: "cl".to_string(),
            dir: "p".to_string(),
            args: strings(&["main.cpp", "/Ip", "/LIBPATH:p/modules/lib", "m.lib", "/OUT:p/app"]),
        }
    );
}

#[test]
fn assemble_and_artifact() {
    let m = cpm::manifest::validate(raw("core", "Library", &["x", "y"], &["a.c", "b.c"])).unwrap();
    assert_eq!(artifact_of(CompilerType::GCC, "r", "o", &m), "r/modules/lib/libcore.a");
    assert_eq!(artifact_of(CompilerType::CLANG, "r", "o", &m), "r/modules/lib/libcore.a");
    assert_eq!(artifact_of(CompilerType::MSVC, "r", "o", &m), "r/modules/lib/libcore.lib");
    let b = assemble(CompilerType::CLANG, "r", "o", "r/modules/core", &m);
    assert_eq!(
        b.render(),
        strings(&[
            "a.c",
            "b.c",
            "-Ir/modules/core",
            "-Lr/modules/lib",
            "-lx",
            "-ly",
            "-o",
            "r/modules/lib/libcore.a"
        ])
    );
}

#[test]
fn malformed_manifest_names_file_and_field() {
    let mut w = started();
    let a = w.loaded(LoadOutcome::Malformed { field: "sources.source".to_string() });
    assert_eq!(
        a,
        Action::Failed {
            error: BuildError::Manifest {
                path: "p/module.toml".to_string(),
                error: ManifestError::Parse { field: "sources.source".to_string() },
            }
        }
    );
    assert_eq!(w.current_phase(), Phase::Failed);
}
