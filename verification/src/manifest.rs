//! The manifest of a module: its identity, dependencies, flags and sources,
//! and the validation that turns a freshly read manifest into one.

use vstd::prelude::*;
use vstd::string::*;
use crate::text::views;

verus! {

/// The kind of artifact that a module is built into.
#[derive(Clone, Copy, Debug, PartialEq, Eq)]
pub enum ModuleType {
    Executable,
    Library,
}

/// Names mapped to strings, in the order of declaration. No name occurs
/// twice in the dependencies of a well-formed manifest.
pub type Deps = Vec<(String, String)>;

pub type Flags = Vec<(String, String)>;

#[derive(Clone, Debug, PartialEq, Eq)]
pub struct Project {
    pub name: String,
    pub version: String,
    pub module_type: ModuleType,
}

#[derive(Clone, Debug, PartialEq, Eq)]
pub struct Sources {
    pub source: Vec<String>,
    pub header: Vec<String>,
}

#[derive(Clone, Debug, PartialEq, Eq)]
pub struct Module {
    pub project: Project,
    pub dependencies: Deps,
    pub flags: Flags,
    pub sources: Sources,
}

/// The names of a list of pairs.
pub open spec fn names_of(pairs: Seq<(String, String)>) -> Seq<Seq<char>> {
    pairs.map_values(|p: (String, String)| p.0@)
}

/// Some name occurs at two places.
pub open spec fn has_duplicate(names: Seq<Seq<char>>) -> bool {
    exists|i: int, j: int| 0 <= i < j < names.len() && names[i] == names[j]
}

impl Module {
    /// The names of the declared dependencies, in the order of declaration.
    pub open spec fn dep_names(&self) -> Seq<Seq<char>> {
        names_of(self.dependencies@)
    }

    /// The declared source files, relative to the module's directory.
    pub open spec fn source_paths(&self) -> Seq<Seq<char>> {
        views(self.sources.source@)
    }

    /// The project has a name and no dependency is declared twice.
    pub open spec fn wf(&self) -> bool {
        &&& self.project.name@.len() > 0
        &&& !has_duplicate(self.dep_names())
    }
}

/// A manifest as it was read, before anything is known to be present.
#[derive(Clone, Debug, PartialEq, Eq)]
pub struct RawProject {
    pub name: Option<String>,
    pub version: Option<String>,
    pub module_type: Option<String>,
}

#[derive(Clone, Debug, PartialEq, Eq)]
pub struct RawSources {
    pub source: Option<Vec<String>>,
    pub header: Option<Vec<String>>,
}

#[derive(Clone, Debug, PartialEq, Eq)]
pub struct RawModule {
    pub project: Option<RawProject>,
    pub dependencies: Option<Deps>,
    pub flags: Option<Flags>,
    pub sources: Option<RawSources>,
}

/// Why no manifest could be had from a module's directory.
#[derive(Clone, Debug, PartialEq, Eq)]
pub enum ManifestError {
    /// The directory holds no manifest file.
    NotFound,
    /// The field `field` is missing or malformed.
    Parse { field: String },
}

/// The module type that a manifest's text names, if it names one.
pub open spec fn module_type_of(s: Seq<char>) -> Option<ModuleType> {
    if s == "Executable"@ || s == "executable"@ {
        Some(ModuleType::Executable)
    } else if s == "Library"@ || s == "library"@ {
        Some(ModuleType::Library)
    } else {
        None
    }
}

/// Reads a module type from its name, with or without a capital.
pub fn parse_module_type(s: &str) -> (r: Option<ModuleType>)
    ensures
        r == module_type_of(s@),
{
    let t = s.to_owned();
    if t == "Executable".to_owned() || t == "executable".to_owned() {
        Some(ModuleType::Executable)
    } else if t == "Library".to_owned() || t == "library".to_owned() {
        Some(ModuleType::Library)
    } else {
        None
    }
}

/// The first field of `raw` that is missing or malformed, in the order
/// project, dependencies, flags, sources.
pub open spec fn offending_field(raw: RawModule) -> Option<Seq<char>> {
    if raw.project is None {
        Some("project"@)
    } else if raw.project->0.name is None || raw.project->0.name->0@.len() == 0 {
        Some("project.name"@)
    } else if raw.project->0.version is None {
        Some("project.version"@)
    } else if raw.project->0.module_type is None || module_type_of(
        raw.project->0.module_type->0@,
    ) is None {
        Some("project.module_type"@)
    } else if raw.dependencies is None || has_duplicate(names_of(raw.dependencies->0@)) {
        Some("dependencies"@)
    } else if raw.flags is None {
        Some("flags"@)
    } else if raw.sources is None {
        Some("sources"@)
    } else if raw.sources->0.source is None {
        Some("sources.source"@)
    } else if raw.sources->0.header is None {
        Some("sources.header"@)
    } else {
        None
    }
}

/// The manifest that a complete `raw` stands for.
pub open spec fn validated(raw: RawModule) -> Module
    recommends
        offending_field(raw) is None,
{
    Module {
        project: Project {
            name: raw.project->0.name->0,
            version: raw.project->0.version->0,
            module_type: module_type_of(raw.project->0.module_type->0@)->0,
        },
        dependencies: raw.dependencies->0,
        flags: raw.flags->0,
        sources: Sources { source: raw.sources->0.source->0, header: raw.sources->0.header->0 },
    }
}

/// Whether some name is declared twice in `pairs`.
pub fn declares_twice(pairs: &Vec<(String, String)>) -> (r: bool)
    ensures
        r == has_duplicate(names_of(pairs@)),
{
    let ghost names = names_of(pairs@);
    let mut j: usize = 0;
    while j < pairs.len()
        invariant
            j <= pairs.len(),
            names == names_of(pairs@),
            forall|a: int, b: int| 0 <= a < b < j ==> names[a] != names[b],
        decreases pairs.len() - j,
    {
        let mut i: usize = 0;
        while i < j
            invariant
                i <= j < pairs.len(),
                names == names_of(pairs@),
                forall|a: int| 0 <= a < i ==> names[a] != names[j as int],
            decreases j - i,
        {
            if pairs[i].0 == pairs[j].0 {
                assert(names[i as int] == names[j as int]);
                return true;
            }
            i += 1;
        }
        j += 1;
    }
    false
}

fn parse_error(field: &str) -> (r: Result<Module, ManifestError>)
    ensures
        r matches Err(ManifestError::Parse { field: f }) && f@ == field@,
{
    Err(ManifestError::Parse { field: field.to_owned() })
}

/// Checks that every section and field of `raw` is present and well formed.
/// Returns the manifest, or the first field that is not.
pub fn validate(raw: RawModule) -> (r: Result<Module, ManifestError>)
    ensures
        r is Ok <==> offending_field(raw) is None,
        r matches Ok(m) ==> m == validated(raw) && m.wf(),
        r matches Err(e) ==> e matches ManifestError::Parse { field } && Some(field@)
            == offending_field(raw),
{
    let RawModule { project, dependencies, flags, sources } = raw;
    let project = match project {
        Some(p) => p,
        None => { return parse_error("project"); },
    };
    let RawProject { name, version, module_type } = project;
    let name = match name {
        Some(n) => n,
        None => { return parse_error("project.name"); },
    };
    if name.as_str().is_empty() {
        return parse_error("project.name");
    }
    let version = match version {
        Some(v) => v,
        None => { return parse_error("project.version"); },
    };
    let module_type = match module_type {
        Some(t) => match parse_module_type(t.as_str()) {
            Some(k) => k,
            None => { return parse_error("project.module_type"); },
        },
        None => { return parse_error("project.module_type"); },
    };
    let dependencies = match dependencies {
        Some(d) => d,
        None => { return parse_error("dependencies"); },
    };
    if declares_twice(&dependencies) {
        return parse_error("dependencies");
    }
    let flags = match flags {
        Some(f) => f,
        None => { return parse_error("flags"); },
    };
    let sources = match sources {
        Some(s) => s,
        None => { return parse_error("sources"); },
    };
    let RawSources { source, header } = sources;
    let source = match source {
        Some(s) => s,
        None => { return parse_error("sources.source"); },
    };
    let header = match header {
        Some(h) => h,
        None => { return parse_error("sources.header"); },
    };
    Ok(
        Module {
            project: Project { name, version, module_type },
            dependencies,
            flags,
            sources: Sources { source, header },
        },
    )
}

/// A manifest that lacks its `sources` section, and nothing else, is refused
/// with that section's name: `raw` is such a manifest if putting some
/// complete section `filled` in the empty place makes it valid.
pub proof fn lemma_missing_sources_is_refused(raw: RawModule, filled: RawSources)
    requires
        raw.sources is None,
        offending_field(RawModule { sources: Some(filled), ..raw }) is None,
    ensures
        offending_field(raw) == Some("sources"@),
{
}

} // verus!
