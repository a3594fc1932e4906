//! The walk over the build graph, as a state machine.
//!
//! The walker performs no I/O. Each of its transitions returns an [`Action`]
//! for the caller to carry out, and the caller reports the outcome through
//! the transition that the action calls for: [`Walker::dir_ready`] after
//! `EnsureDir`, [`Walker::loaded`] after `Load`, [`Walker::invoked`] after
//! `Invoke`. `Finished` and `Failed` end the walk.

use vstd::prelude::*;
use vstd::string::*;
use crate::error::{BuildError, ToolchainError};
use crate::manifest::{
    offending_field, validate, validated, ManifestError, Module, ModuleType, RawModule,
};
use crate::options::{
    render_options, render_output, Build, BuildView, CompilerType, OptionView,
};
use crate::text::{catenate, join, joined, push_string, views};

verus! {

/// The directory that holds the dependency modules of the project at `root`.
pub open spec fn modules_dir(root: Seq<char>) -> Seq<char> {
    joined(root, "modules"@)
}

/// The directory that the library artifacts are written to.
pub open spec fn lib_dir(root: Seq<char>) -> Seq<char> {
    joined(modules_dir(root), "lib"@)
}

/// The directory of the dependency `name`, whichever module declares it.
pub open spec fn dep_location(root: Seq<char>, name: Seq<char>) -> Seq<char> {
    joined(modules_dir(root), name)
}

/// The manifest file of the module at `location`.
pub open spec fn manifest_path(location: Seq<char>) -> Seq<char> {
    joined(location, "module.toml"@)
}

/// The file name of the library `name`.
pub open spec fn library_file(c: CompilerType, name: Seq<char>) -> Seq<char> {
    "lib"@ + name + "."@ + c.library_extension()
}

/// Where the artifact of the module `m` is written.
pub open spec fn artifact_path(
    c: CompilerType,
    root: Seq<char>,
    out_dir: Seq<char>,
    m: Module,
) -> Seq<char> {
    match m.project.module_type {
        ModuleType::Library => joined(lib_dir(root), library_file(c, m.project.name@)),
        ModuleType::Executable => joined(out_dir, m.project.name@),
    }
}

/// The options of a module at `location`: its own directory to find headers
/// in, the shared directory to find libraries in, and one library to link
/// for each dependency, in the order of declaration.
pub open spec fn unit_options(root: Seq<char>, location: Seq<char>, deps: Seq<Seq<char>>) -> Seq<
    OptionView,
> {
    seq![OptionView::IncludeDir(location), OptionView::LibDir(lib_dir(root))] + deps.map_values(
        |d: Seq<char>| OptionView::LinkLib(d),
    )
}

/// The option set of the module `m` at `location`. The sources stand as the
/// manifest declares them, relative to the module's directory, in which the
/// invocation runs.
pub open spec fn unit_build(
    c: CompilerType,
    root: Seq<char>,
    out_dir: Seq<char>,
    location: Seq<char>,
    m: Module,
) -> BuildView {
    BuildView {
        compiler_type: c,
        out: artifact_path(c, root, out_dir, m),
        options: unit_options(root, location, m.dep_names()),
        inputs: m.source_paths(),
    }
}

/// `k` is the place of the first of `deps` whose location is not in `built`,
/// or their number if there is none.
pub open spec fn is_first_pending(
    root: Seq<char>,
    deps: Seq<Seq<char>>,
    built: Seq<Seq<char>>,
    k: int,
) -> bool {
    &&& 0 <= k <= deps.len()
    &&& forall|j: int| 0 <= j < k ==> built.contains(#[trigger] dep_location(root, deps[j]))
    &&& k < deps.len() ==> !built.contains(dep_location(root, deps[k]))
}

/// No location occurs at two places.
pub open spec fn distinct(s: Seq<Seq<char>>) -> bool {
    forall|i: int, j: int| 0 <= i < j < s.len() ==> s[i] != s[j]
}

/// What the caller is to do next.
#[derive(Clone, Debug, PartialEq, Eq)]
pub enum Action {
    /// Create the directory `path` unless it exists.
    EnsureDir { path: String },
    /// Read the manifest file `path` of the module in `location`.
    Load { location: String, path: String },
    /// Run `program` with `args` in the directory `dir` and wait for it.
    Invoke { program: String, dir: String, args: Vec<String> },
    /// The root artifact was written to `artifact`.
    Finished { artifact: String },
    /// The build was given up.
    Failed { error: BuildError },
}

/// What a read of a manifest file gave.
#[derive(Clone, Debug, PartialEq, Eq)]
pub enum LoadOutcome {
    /// The module's directory holds no manifest file.
    NotFound,
    /// The file is no manifest, or names what does not exist; `field` says
    /// where.
    Malformed { field: String },
    /// The file was read; which of its sections and fields are there is
    /// still to be checked.
    Read(RawModule),
}

/// Where the walk stands.
#[derive(Clone, Copy, Debug, PartialEq, Eq)]
pub enum Phase {
    Idle,
    Preparing,
    Loading,
    Compiling,
    Finished,
    Failed,
}

/// The state of one module in a walk.
#[derive(Clone, Copy, Debug, PartialEq, Eq)]
pub enum NodeState {
    Unvisited,
    Loading,
    BuildingDependencies,
    Compiling,
    Done,
    Failed,
}

/// A module on the active path: loaded, and not built yet.
struct BuildUnit {
    location: String,
    manifest: Module,
}

/// The walk over the build graph of one project.
pub struct Walker {
    root: String,
    out_dir: String,
    compiler: CompilerType,
    done: Vec<String>,
    stack: Vec<BuildUnit>,
    loading: String,
    phase: Phase,
}

/// The place of `s` in `v`, if it is there.
fn position(v: &Vec<String>, s: &str) -> (r: Option<usize>)
    ensures
        r is Some <==> views(v@).contains(s@),
        r matches Some(i) ==> i < v.len() && v[i as int]@ == s@,
{
    let mut i: usize = 0;
    while i < v.len()
        invariant
            i <= v.len(),
            forall|a: int| 0 <= a < i ==> views(v@)[a] != s@,
        decreases v.len() - i,
    {
        if v[i].as_str().to_owned() == s.to_owned() {
            assert(views(v@)[i as int] == s@);
            return Some(i);
        }
        i += 1;
    }
    None
}

/// The directory of the dependency `name` of the project at `root`.
pub fn dependency_dir(root: &str, name: &str) -> (r: String)
    ensures
        r@ == dep_location(root@, name@),
{
    let modules = join(root, "modules");
    join(modules.as_str(), name)
}

/// The shared directory of the library artifacts of the project at `root`.
pub fn library_dir(root: &str) -> (r: String)
    ensures
        r@ == lib_dir(root@),
{
    dependency_dir(root, "lib")
}

/// The path that the artifact of `m` is written to.
pub fn artifact_of(c: CompilerType, root: &str, out_dir: &str, m: &Module) -> (r: String)
    ensures
        r@ == artifact_path(c, root@, out_dir@, *m),
{
    match m.project.module_type {
        ModuleType::Library => {
            let mut file = catenate("lib", m.project.name.as_str());
            file.append(".");
            file.append(c.library_ext());
            let dir = library_dir(root);
            join(dir.as_str(), file.as_str())
        },
        ModuleType::Executable => join(out_dir, m.project.name.as_str()),
    }
}

/// The option set of the module `m` at `location`.
pub fn assemble(c: CompilerType, root: &str, out_dir: &str, location: &str, m: &Module) -> (b:
    Build)
    ensures
        b@ == unit_build(c, root@, out_dir@, location@, *m),
{
    let mut b = Build::new();
    b.compiler(c);
    let mut i: usize = 0;
    assert(m.source_paths().take(0) =~= Seq::empty());
    while i < m.sources.source.len()
        invariant
            i <= m.sources.source.len(),
            b@ == (BuildView {
                compiler_type: c,
                out: Seq::empty(),
                options: Seq::empty(),
                inputs: m.source_paths().take(i as int),
            }),
        decreases m.sources.source.len() - i,
    {
        b.source(m.sources.source[i].as_str());
        assert(m.source_paths().take(i + 1) =~= m.source_paths().take(i as int).push(
            m.sources.source[i as int]@,
        ));
        i += 1;
    }
    assert(m.source_paths().take(i as int) =~= m.source_paths());
    b.includedir(location);
    let libs = library_dir(root);
    b.libdir(libs.as_str());
    let ghost links = m.dep_names().map_values(|d: Seq<char>| OptionView::LinkLib(d));
    let ghost fixed = seq![OptionView::IncludeDir(location@), OptionView::LibDir(lib_dir(root@))];
    assert(b@.options =~= fixed + links.take(0));
    let mut j: usize = 0;
    while j < m.dependencies.len()
        invariant
            j <= m.dependencies.len(),
            links == m.dep_names().map_values(|d: Seq<char>| OptionView::LinkLib(d)),
            b@ == (BuildView {
                compiler_type: c,
                out: Seq::empty(),
                options: fixed + links.take(j as int),
                inputs: m.source_paths(),
            }),
        decreases m.dependencies.len() - j,
    {
        b.linklib(m.dependencies[j].0.as_str());
        assert(fixed + links.take(j + 1) =~= (fixed + links.take(j as int)).push(
            OptionView::LinkLib(m.dependencies[j as int].0@),
        ));
        j += 1;
    }
    assert(links.take(j as int) =~= links);
    let out = artifact_of(c, root, out_dir, m);
    b.output(out.as_str());
    b
}

impl Walker {
    /// The directory of the root module.
    pub closed spec fn root(&self) -> Seq<char> {
        self.root@
    }

    /// The directory that an executable artifact is written to.
    pub closed spec fn out_dir(&self) -> Seq<char> {
        self.out_dir@
    }

    /// The dialect of every invocation of the walk.
    pub closed spec fn compiler(&self) -> CompilerType {
        self.compiler
    }

    pub closed spec fn phase(&self) -> Phase {
        self.phase
    }

    /// The locations of the modules that were built, in the order in which
    /// they were.
    pub closed spec fn built(&self) -> Seq<Seq<char>> {
        views(self.done@)
    }

    /// The locations of the modules that are loaded and not yet built: the
    /// root module first, then each time a dependency of the one before.
    pub closed spec fn active_path(&self) -> Seq<Seq<char>> {
        self.stack@.map_values(|f: BuildUnit| f.location@)
    }

    /// The manifests of the modules on the active path.
    pub closed spec fn manifests(&self) -> Seq<Module> {
        self.stack@.map_values(|f: BuildUnit| f.manifest)
    }

    /// The location whose manifest was last asked for.
    pub closed spec fn loading(&self) -> Seq<char> {
        self.loading@
    }

    /// The root, the output directory and the dialect are those of `other`.
    pub open spec fn same_project(&self, other: &Walker) -> bool {
        &&& self.root() == other.root()
        &&& self.out_dir() == other.out_dir()
        &&& self.compiler() == other.compiler()
    }

    /// Every dependency of the module on top of the active path is built.
    pub open spec fn dependencies_built(&self) -> bool {
        forall|j: int|
            0 <= j < self.manifests().last().dep_names().len() ==> self.built().contains(
                #[trigger] dep_location(self.root(), self.manifests().last().dep_names()[j]),
            )
    }

    /// No module is built twice, none stands twice on the active path, none
    /// that is built stands on it, and the active path starts at the root
    /// module.
    pub open spec fn consistent(&self) -> bool {
        &&& distinct(self.built())
        &&& distinct(self.active_path())
        &&& self.manifests().len() == self.active_path().len()
        &&& self.active_path().len() > 0 ==> self.active_path()[0] == self.root()
        &&& forall|i: int|
            0 <= i < self.active_path().len() ==> !self.built().contains(
                #[trigger] self.active_path()[i],
            )
    }

    /// What holds in every state of a walk: it is consistent; a module whose
    /// manifest is asked for is neither built nor on the active path, and is
    /// the root module if the path is empty; while a module is being
    /// compiled all its dependencies are built; and a finished walk has
    /// built the root module.
    pub open spec fn wf(&self) -> bool {
        &&& self.consistent()
        &&& match self.phase() {
            Phase::Idle | Phase::Preparing => self.active_path().len() == 0 && self.built().len()
                == 0,
            Phase::Loading => {
                &&& !self.built().contains(self.loading())
                &&& !self.active_path().contains(self.loading())
                &&& self.active_path().len() == 0 ==> self.loading() == self.root()
            },
            Phase::Compiling => self.active_path().len() > 0 && self.dependencies_built(),
            Phase::Finished => self.active_path().len() == 0 && self.built().contains(
                self.root(),
            ),
            Phase::Failed => true,
        }
    }

    /// The state of the module at `location`.
    pub open spec fn state_of(&self, location: Seq<char>) -> NodeState {
        if self.built().contains(location) {
            NodeState::Done
        } else if self.active_path().contains(location) {
            if self.phase() is Failed {
                NodeState::Failed
            } else if self.phase() is Compiling && self.active_path().last() == location {
                NodeState::Compiling
            } else {
                NodeState::BuildingDependencies
            }
        } else if self.loading() == location && self.phase() is Failed {
            NodeState::Failed
        } else if self.loading() == location && self.phase() is Loading {
            NodeState::Loading
        } else {
            NodeState::Unvisited
        }
    }

    /// The action `a` is the one that the walk waits on in its phase.
    pub open spec fn asks(&self, a: Action) -> bool {
        match a {
            Action::EnsureDir { path } => self.phase() is Preparing && path@ == lib_dir(self.root()),
            Action::Load { location, path } => {
                &&& self.phase() is Loading
                &&& location@ == self.loading()
                &&& path@ == manifest_path(self.loading())
            },
            Action::Invoke { program, dir, args } => {
                &&& self.phase() is Compiling
                &&& program@ == self.compiler().program_name()
                &&& dir@ == self.active_path().last()
                &&& views(args@) == unit_build(
                    self.compiler(),
                    self.root(),
                    self.out_dir(),
                    self.active_path().last(),
                    self.manifests().last(),
                ).rendered()
            },
            Action::Finished { artifact } => self.phase() is Finished,
            Action::Failed { error } => self.phase() is Failed,
        }
    }

    /// What the walker does once the module on top of the active path is
    /// loaded or one of its dependencies is built: it asks for the manifest
    /// of the first dependency that is not built; it gives up if that one
    /// stands on the active path; it invokes the compiler if every
    /// dependency is built.
    pub open spec fn next_move(&self, a: Action) -> bool {
        let deps = self.manifests().last().dep_names();
        let location = self.active_path().last();
        &&& self.dependencies_built() ==> {
            &&& self.phase() is Compiling
            &&& a matches Action::Invoke { program, dir, args }
            &&& program@ == self.compiler().program_name()
            &&& dir@ == location
            &&& views(args@) == unit_build(
                self.compiler(),
                self.root(),
                self.out_dir(),
                location,
                self.manifests().last(),
            ).rendered()
        }
        &&& forall|k: int|
            k < deps.len() && #[trigger] is_first_pending(self.root(), deps, self.built(), k) ==> {
                let next = dep_location(self.root(), deps[k]);
                if self.active_path().contains(next) {
                    &&& self.phase() is Failed
                    &&& a matches Action::Failed { error: BuildError::CyclicDependency { path } }
                    &&& views(path@) == self.active_path().push(next)
                } else {
                    &&& self.phase() is Loading
                    &&& self.loading() == next
                    &&& a matches Action::Load { location, path }
                    &&& location@ == next
                    &&& path@ == manifest_path(next)
                }
            }
    }

    /// A walk of the project at `root` that has not started. An executable
    /// artifact goes to `out_dir`.
    pub fn new(root: &str, out_dir: &str, compiler: CompilerType) -> (w: Walker)
        ensures
            w.wf(),
            w.phase() is Idle,
            w.root() == root@,
            w.out_dir() == out_dir@,
            w.compiler() == compiler,
            w.built().len() == 0,
            w.active_path().len() == 0,
    {
        Walker {
            root: root.to_owned(),
            out_dir: out_dir.to_owned(),
            compiler,
            done: Vec::new(),
            stack: Vec::new(),
            loading: String::new(),
            phase: Phase::Idle,
        }
    }

    /// Where the walk stands.
    pub fn current_phase(&self) -> (p: Phase)
        ensures
            p == self.phase(),
    {
        self.phase
    }

    /// Whether the module at `location` was built.
    pub fn is_built(&self, location: &str) -> (r: bool)
        ensures
            r == self.built().contains(location@),
    {
        position(&self.done, location).is_some()
    }

    /// How many modules were built.
    pub fn built_count(&self) -> (n: usize)
        ensures
            n == self.built().len(),
    {
        self.done.len()
    }

    /// Whether the module at `location` stands on the active path.
    fn on_path(&self, location: &str) -> (r: bool)
        ensures
            r == self.active_path().contains(location@),
    {
        let mut i: usize = 0;
        while i < self.stack.len()
            invariant
                i <= self.stack.len(),
                forall|a: int| 0 <= a < i ==> self.active_path()[a] != location@,
            decreases self.stack.len() - i,
        {
            if self.stack[i].location.as_str().to_owned() == location.to_owned() {
                assert(self.active_path()[i as int] == location@);
                return true;
            }
            i += 1;
        }
        false
    }

    /// The active path followed by `location`.
    fn path_to(&self, location: &str) -> (path: Vec<String>)
        ensures
            views(path@) == self.active_path().push(location@),
    {
        let mut path: Vec<String> = Vec::new();
        assert(views(path@) =~= self.active_path().take(0));
        let mut i: usize = 0;
        while i < self.stack.len()
            invariant
                i <= self.stack.len(),
                views(path@) == self.active_path().take(i as int),
            decreases self.stack.len() - i,
        {
            push_string(&mut path, self.stack[i].location.clone());
            assert(self.active_path().take(i + 1) =~= self.active_path().take(i as int).push(
                self.stack[i as int].location@,
            ));
            i += 1;
        }
        assert(self.active_path().take(i as int) =~= self.active_path());
        push_string(&mut path, location.to_owned());
        path
    }

    /// Starts the walk: the shared library directory is to exist before
    /// anything is written to it.
    pub fn start(&mut self) -> (a: Action)
        requires
            old(self).wf(),
            old(self).phase() is Idle,
        ensures
            final(self).wf(),
            final(self).same_project(old(self)),
            final(self).asks(a),
            a is EnsureDir,
            final(self).built() == old(self).built(),
            final(self).active_path() == old(self).active_path(),
    {
        self.phase = Phase::Preparing;
        Action::EnsureDir { path: library_dir(self.root.as_str()) }
    }

    /// Takes the outcome of `EnsureDir`: `Ok` where the directory exists
    /// now, else the cause. With the directory there the root manifest is
    /// asked for.
    pub fn dir_ready(&mut self, outcome: Result<(), String>) -> (a: Action)
        requires
            old(self).wf(),
            old(self).phase() is Preparing,
        ensures
            final(self).wf(),
            final(self).asks(a),
            final(self).same_project(old(self)),
            final(self).built() == old(self).built(),
            final(self).active_path() == old(self).active_path(),
            outcome is Ok ==> {
                &&& final(self).phase() is Loading
                &&& final(self).loading() == old(self).root()
                &&& a matches Action::Load { location, path }
                &&& location@ == old(self).root()
                &&& path@ == manifest_path(old(self).root())
            },
            outcome matches Err(c) ==> {
                &&& final(self).phase() is Failed
                &&& a matches Action::Failed { error: BuildError::FileSystem { path, cause } }
                &&& path@ == lib_dir(old(self).root())
                &&& cause == c
            },
    {
        match outcome {
            Ok(()) => {
                self.loading = self.root.clone();
                self.phase = Phase::Loading;
                Action::Load {
                    location: self.root.clone(),
                    path: join(self.root.as_str(), "module.toml"),
                }
            },
            Err(cause) => {
                self.phase = Phase::Failed;
                Action::Failed {
                    error: BuildError::FileSystem { path: library_dir(self.root.as_str()), cause },
                }
            },
        }
    }

    /// Decides what follows for the module on top of the active path.
    fn advance(&mut self) -> (a: Action)
        requires
            old(self).consistent(),
            old(self).active_path().len() > 0,
        ensures
            final(self).wf(),
            final(self).asks(a),
            final(self).same_project(old(self)),
            final(self).built() == old(self).built(),
            final(self).active_path() == old(self).active_path(),
            final(self).manifests() == old(self).manifests(),
            final(self).next_move(a),
    {
        let n = self.stack.len();
        let ghost deps = self.manifests().last().dep_names();
        let count = self.stack[n - 1].manifest.dependencies.len();
        let mut i: usize = 0;
        while i < count
            invariant
                i <= count,
                *self == *old(self),
                old(self).consistent(),
                n == self.stack.len(),
                n > 0,
                deps == self.manifests().last().dep_names(),
                count == deps.len(),
                count == self.stack[n - 1].manifest.dependencies.len(),
                is_first_pending(self.root(), deps.take(i as int), self.built(), i as int),
            decreases count - i,
        {
            let next = dependency_dir(
                self.root.as_str(),
                self.stack[n - 1].manifest.dependencies[i].0.as_str(),
            );
            assert(next@ == dep_location(self.root(), deps[i as int]));
            if !self.is_built(next.as_str()) {
                assert(is_first_pending(self.root(), deps, self.built(), i as int)) by {
                    assert forall|j: int| 0 <= j < i implies self.built().contains(
                        #[trigger] dep_location(self.root(), deps[j]),
                    ) by {
                        assert(deps.take(i as int)[j] == deps[j]);
                    }
                }
                let ghost first = i as int;
                if self.on_path(next.as_str()) {
                    let path = self.path_to(next.as_str());
                    self.phase = Phase::Failed;
                    let a = Action::Failed { error: BuildError::CyclicDependency { path } };
                    proof {
                        self.lemma_first_pending_unique(first);
                        assert(!self.dependencies_built()) by {
                            if self.dependencies_built() {
                                assert(self.built().contains(dep_location(self.root(), deps[first])));
                            }
                        }
                    }
                    return a;
                } else {
                    let path = join(next.as_str(), "module.toml");
                    self.loading = next.clone();
                    self.phase = Phase::Loading;
                    let a = Action::Load { location: next, path };
                    proof {
                        self.lemma_first_pending_unique(first);
                        assert(!self.dependencies_built()) by {
                            if self.dependencies_built() {
                                assert(self.built().contains(dep_location(self.root(), deps[first])));
                            }
                        }
                    }
                    return a;
                }
            }
            proof {
                assert forall|j: int| 0 <= j < i + 1 implies self.built().contains(
                    #[trigger] dep_location(self.root(), deps.take(i + 1)[j]),
                ) by {
                    if j < i {
                        assert(deps.take(i as int)[j] == deps.take(i + 1)[j]);
                    }
                }
            }
            i += 1;
        }
        proof {
            assert(deps.take(i as int) =~= deps);
            assert(self.dependencies_built());
            assert forall|k: int|
                k < deps.len() && #[trigger] is_first_pending(
                    self.root(),
                    deps,
                    self.built(),
                    k,
                ) implies false by {
                assert(self.built().contains(dep_location(self.root(), deps[k])));
            }
        }
        let top = &self.stack[n - 1];
        let b = assemble(
            self.compiler,
            self.root.as_str(),
            self.out_dir.as_str(),
            top.location.as_str(),
            &top.manifest,
        );
        let args = b.render();
        let dir = top.location.clone();
        let program = self.compiler.program().to_owned();
        self.phase = Phase::Compiling;
        Action::Invoke { program, dir, args }
    }

    /// At most one place is that of the first dependency that is not built.
    proof fn lemma_first_pending_unique(&self, first: int)
        requires
            is_first_pending(
                self.root(),
                self.manifests().last().dep_names(),
                self.built(),
                first,
            ),
            first < self.manifests().last().dep_names().len(),
        ensures
            forall|k: int|
                k < self.manifests().last().dep_names().len() && #[trigger] is_first_pending(
                    self.root(),
                    self.manifests().last().dep_names(),
                    self.built(),
                    k,
                ) ==> k == first,
    {
        let deps = self.manifests().last().dep_names();
        assert forall|k: int|
            k < deps.len() && #[trigger] is_first_pending(
                self.root(),
                deps,
                self.built(),
                k,
            ) implies k == first by {
            if k < first {
                assert(self.built().contains(dep_location(self.root(), deps[k])));
            }
            if first < k {
                assert(self.built().contains(dep_location(self.root(), deps[first])));
            }
        }
    }

    /// Takes the outcome of `Load`. A manifest that is missing or not valid
    /// ends the walk, and names its file; a valid one puts its module on the
    /// active path.
    pub fn loaded(&mut self, outcome: LoadOutcome) -> (a: Action)
        requires
            old(self).wf(),
            old(self).phase() is Loading,
        ensures
            final(self).wf(),
            final(self).asks(a),
            final(self).same_project(old(self)),
            final(self).built() == old(self).built(),
            outcome is NotFound ==> {
                &&& final(self).phase() is Failed
                &&& final(self).active_path() == old(self).active_path()
                &&& final(self).loading() == old(self).loading()
                &&& a matches Action::Failed { error: BuildError::Manifest { path, error } }
                &&& path@ == manifest_path(old(self).loading())
                &&& error is NotFound
            },
            outcome matches LoadOutcome::Malformed { field: named } ==> {
                &&& final(self).phase() is Failed
                &&& final(self).active_path() == old(self).active_path()
                &&& final(self).loading() == old(self).loading()
                &&& a matches Action::Failed { error: BuildError::Manifest { path, error } }
                &&& path@ == manifest_path(old(self).loading())
                &&& error matches ManifestError::Parse { field }
                &&& field == named
            },
            outcome matches LoadOutcome::Read(raw) ==> (match offending_field(raw) {
                Some(missing) => {
                    &&& final(self).phase() is Failed
                    &&& final(self).active_path() == old(self).active_path()
                    &&& final(self).loading() == old(self).loading()
                    &&& a matches Action::Failed { error: BuildError::Manifest { path, error } }
                    &&& path@ == manifest_path(old(self).loading())
                    &&& error matches ManifestError::Parse { field }
                    &&& field@ == missing
                },
                None => {
                    &&& final(self).active_path() == old(self).active_path().push(
                        old(self).loading(),
                    )
                    &&& final(self).manifests() == old(self).manifests().push(validated(raw))
                    &&& final(self).next_move(a)
                },
            }),
    {
        let checked = match outcome {
            LoadOutcome::NotFound => Err(ManifestError::NotFound),
            LoadOutcome::Malformed { field } => Err(ManifestError::Parse { field }),
            LoadOutcome::Read(raw) => validate(raw),
        };
        match checked {
            Err(error) => {
                self.phase = Phase::Failed;
                let path = join(self.loading.as_str(), "module.toml");
                Action::Failed { error: BuildError::Manifest { path, error } }
            },
            Ok(manifest) => {
                let location = self.loading.clone();
                self.stack.push(BuildUnit { location, manifest });
                proof {
                    assert(self.active_path() =~= old(self).active_path().push(
                        old(self).loading(),
                    ));
                    assert(self.manifests() =~= old(self).manifests().push(manifest));
                    let path = self.active_path();
                    assert forall|i: int, j: int| 0 <= i < j < path.len() implies path[i]
                        != path[j] by {
                        if j == path.len() - 1 {
                            assert(old(self).active_path()[i] == path[i]);
                            assert(old(self).active_path().contains(path[i]));
                        }
                    }
                }
                self.advance()
            },
        }
    }

    /// Takes the outcome of `Invoke`. A failure ends the walk and the module
    /// is not built. After a success the module is built and leaves the
    /// active path; the walk is finished if it was the root module, and goes
    /// on with the module that depends on it if not.
    pub fn invoked(&mut self, outcome: Result<(), ToolchainError>) -> (a: Action)
        requires
            old(self).wf(),
            old(self).phase() is Compiling,
        ensures
            final(self).wf(),
            final(self).asks(a),
            final(self).same_project(old(self)),
            outcome matches Err(e) ==> {
                &&& final(self).phase() is Failed
                &&& final(self).built() == old(self).built()
                &&& final(self).active_path() == old(self).active_path()
                &&& a matches Action::Failed { error: BuildError::Toolchain { module, error } }
                &&& module@ == old(self).active_path().last()
                &&& error == e
                &&& final(self).state_of(old(self).active_path().last()) is Failed
            },
            outcome is Ok ==> {
                &&& final(self).built() == old(self).built().push(old(self).active_path().last())
                &&& final(self).state_of(old(self).active_path().last()) is Done
                &&& final(self).active_path() == old(self).active_path().drop_last()
                &&& final(self).manifests() == old(self).manifests().drop_last()
                &&& if old(self).active_path().len() == 1 {
                    &&& final(self).phase() is Finished
                    &&& a matches Action::Finished { artifact }
                    &&& artifact@ == artifact_path(
                        old(self).compiler(),
                        old(self).root(),
                        old(self).out_dir(),
                        old(self).manifests().last(),
                    )
                } else {
                    final(self).next_move(a)
                }
            },
    {
        match outcome {
            Err(error) => {
                self.phase = Phase::Failed;
                let module = self.stack[self.stack.len() - 1].location.clone();
                proof {
                    let top = self.active_path().len() - 1;
                    assert(self.active_path()[top] == module@);
                    assert(self.active_path().contains(module@));
                }
                Action::Failed { error: BuildError::Toolchain { module, error } }
            },
            Ok(()) => {
                let unit = self.stack.pop().unwrap();
                let artifact = artifact_of(
                    self.compiler,
                    self.root.as_str(),
                    self.out_dir.as_str(),
                    &unit.manifest,
                );
                let BuildUnit { location, manifest: _ } = unit;
                push_string(&mut self.done, location);
                proof {
                    assert(self.active_path() =~= old(self).active_path().drop_last());
                    assert(self.manifests() =~= old(self).manifests().drop_last());
                    assert(self.built() == old(self).built().push(old(self).active_path().last()));
                    assert(self.built().last() == old(self).active_path().last());
                    let built = self.built();
                    let path = self.active_path();
                    assert forall|i: int, j: int| 0 <= i < j < path.len() implies path[i]
                        != path[j] by {
                        assert(path[i] == old(self).active_path()[i]);
                        assert(path[j] == old(self).active_path()[j]);
                    }
                    assert forall|i: int, j: int| 0 <= i < j < built.len() implies built[i]
                        != built[j] by {
                        if j == built.len() - 1 {
                            assert(old(self).built()[i] == built[i]);
                            assert(old(self).built().contains(built[i]));
                        }
                    }
                    assert forall|i: int| 0 <= i < self.active_path().len() implies !built.contains(
                        #[trigger] self.active_path()[i],
                    ) by {
                        let l = self.active_path()[i];
                        assert(l == old(self).active_path()[i]);
                        if built.contains(l) {
                            let w = choose|w: int| 0 <= w < built.len() && built[w] == l;
                            if w < built.len() - 1 {
                                assert(old(self).built()[w] == l);
                            }
                        }
                    }
                }
                if self.stack.len() == 0 {
                    self.phase = Phase::Finished;
                    Action::Finished { artifact }
                } else {
                    self.advance()
                }
            },
        }
    }
}

/// Dependencies come before dependents: when an invocation is asked for,
/// the module to compile is on top of the active path and every one of its
/// dependencies is built.
pub proof fn lemma_dependencies_before_dependent(w: Walker, a: Action, j: int)
    requires
        w.wf(),
        w.asks(a),
        a is Invoke,
        0 <= j < w.manifests().last().dep_names().len(),
    ensures
        w.state_of(w.active_path().last()) is Compiling,
        w.state_of(dep_location(w.root(), w.manifests().last().dep_names()[j])) is Done,
{
    let top = w.active_path().len() - 1;
    assert(!w.built().contains(w.active_path()[top]));
    assert(w.built().contains(dep_location(w.root(), w.manifests().last().dep_names()[j])));
}

/// No module is built twice: a location stands at one place of the built
/// modules at most, and neither a manifest nor an invocation is asked for a
/// module that is built.
pub proof fn lemma_built_once(w: Walker, a: Action, i: int, j: int)
    requires
        w.wf(),
        w.asks(a),
        0 <= i < w.built().len(),
        0 <= j < w.built().len(),
        w.built()[i] == w.built()[j],
    ensures
        i == j,
        a is Load ==> w.state_of(w.loading()) is Loading,
        a is Invoke ==> !w.built().contains(w.active_path().last()),
{
    if a is Invoke {
        let top = w.active_path().len() - 1;
        assert(!w.built().contains(w.active_path()[top]));
    }
}

/// A walk is bounded by the number of modules: where every location that it
/// has seen lies in the finite set `modules`, the modules that are built and
/// those on the active path are together no more than `modules` holds. As
/// each manifest that is asked for is that of a module seen for the first
/// time, no walk goes on for ever.
pub proof fn lemma_walk_is_bounded(w: Walker, modules: Set<Seq<char>>)
    requires
        w.wf(),
        modules.finite(),
        forall|i: int| 0 <= i < w.built().len() ==> modules.contains(#[trigger] w.built()[i]),
        forall|i: int|
            0 <= i < w.active_path().len() ==> modules.contains(#[trigger] w.active_path()[i]),
    ensures
        w.built().len() + w.active_path().len() <= modules.len(),
{
    let built = w.built();
    let path = w.active_path();
    let seen = built + path;
    assert forall|i: int, j: int| 0 <= i < built.len() && 0 <= j < path.len() implies built[i]
        != path[j] by {
        assert(!built.contains(path[j]));
    }
    assert(built.no_duplicates());
    assert(path.no_duplicates());
    vstd::seq_lib::lemma_no_dup_in_concat(built, path);
    seen.unique_seq_to_set();
    assert(seen.to_set().subset_of(modules)) by {
        assert forall|l: Seq<char>| seen.to_set().contains(l) implies modules.contains(l) by {
            let i = choose|i: int| 0 <= i < seen.len() && seen[i] == l;
            if i < built.len() {
                assert(seen[i] == built[i]);
            } else {
                assert(seen[i] == path[i - built.len()]);
            }
        }
    }
    vstd::set_lib::lemma_len_subset(seen.to_set(), modules);
}

/// The states of the modules follow the walk: a built module is done; the
/// module whose manifest is asked for is loading; the module on top of the
/// active path is compiling while its invocation runs; and unless the walk
/// has failed, every module below it is building its dependencies.
pub proof fn lemma_states_follow_the_walk(w: Walker, i: int)
    requires
        w.wf(),
    ensures
        0 <= i < w.built().len() ==> w.state_of(w.built()[i]) is Done,
        w.phase() is Loading ==> w.state_of(w.loading()) is Loading,
        w.phase() is Compiling ==> w.state_of(w.active_path().last()) is Compiling,
        0 <= i < w.active_path().len() - 1 && !(w.phase() is Failed) ==> w.state_of(
            w.active_path()[i],
        ) is BuildingDependencies,
        0 <= i < w.active_path().len() && w.phase() is Failed ==> w.state_of(w.active_path()[i])
            is Failed,
{
    let path = w.active_path();
    if 0 <= i < path.len() {
        assert(!w.built().contains(path[i]));
        assert(path.contains(path[i]));
    }
    if path.len() > 0 {
        assert(!w.built().contains(path[path.len() - 1]));
        assert(path.contains(path[path.len() - 1]));
    }
}

/// A walk is finished only once the root module is built.
pub proof fn lemma_finished_with_root_built(w: Walker)
    requires
        w.wf(),
        w.phase() is Finished,
    ensures
        w.state_of(w.root()) is Done,
{
}

/// A dependency that stands on the active path ends the walk: where the
/// first dependency that is not built is such a one, the move is a failure
/// that names the path and the dependency.
pub proof fn lemma_cycle_is_refused(w: Walker, a: Action, k: int)
    requires
        w.next_move(a),
        k < w.manifests().last().dep_names().len(),
        is_first_pending(w.root(), w.manifests().last().dep_names(), w.built(), k),
        w.active_path().contains(dep_location(w.root(), w.manifests().last().dep_names()[k])),
    ensures
        w.phase() is Failed,
        a matches Action::Failed { error: BuildError::CyclicDependency { path } } && views(path@)
            == w.active_path().push(
            dep_location(w.root(), w.manifests().last().dep_names()[k]),
        ),
{
}

/// A module without dependencies is compiled from its sources, in the order
/// of declaration, its own directory for headers, the shared directory for
/// libraries, and the output target last.
pub proof fn lemma_unit_without_dependencies(
    c: CompilerType,
    root: Seq<char>,
    out_dir: Seq<char>,
    location: Seq<char>,
    m: Module,
)
    requires
        m.dep_names().len() == 0,
    ensures
        unit_build(c, root, out_dir, location, m).rendered() == m.source_paths() + seq![
            c.include_prefix() + location,
            c.libdir_prefix() + lib_dir(root),
        ] + render_output(c, artifact_path(c, root, out_dir, m)),
{
    let opts = unit_options(root, location, m.dep_names());
    assert(opts =~= seq![OptionView::IncludeDir(location), OptionView::LibDir(lib_dir(root))]);
    assert(opts.drop_last() =~= seq![OptionView::IncludeDir(location)]);
    assert(opts.drop_last().drop_last() =~= Seq::<OptionView>::empty());
    assert(render_options(c, opts.drop_last().drop_last()) =~= Seq::<Seq<char>>::empty());
    assert(render_options(c, opts.drop_last()) =~= seq![c.include_prefix() + location]);
    assert(render_options(c, opts) =~= seq![
        c.include_prefix() + location,
        c.libdir_prefix() + lib_dir(root),
    ]);
}

} // verus!
