//! The option set of one build unit and its rendering into the argument
//! dialect of a compiler front end.

use vstd::prelude::*;
use vstd::string::*;
use crate::text::{catenate, push_string, views};

verus! {

/// The family of compiler front end whose argument dialect is spoken.
#[derive(Clone, Copy, Debug, PartialEq, Eq)]
pub enum CompilerType {
    GCC,
    CLANG,
    MSVC,
}

/// One option other than a source file or the output target.
#[derive(Clone, Debug, PartialEq, Eq)]
pub enum OptionType {
    IncludeDir(String),
    LibDir(String),
    LinkLib(String),
    Flag(String),
    FlagWithArgument(String, String),
}

/// What an [`OptionType`] holds, as plain sequences of characters.
pub enum OptionView {
    IncludeDir(Seq<char>),
    LibDir(Seq<char>),
    LinkLib(Seq<char>),
    Flag(Seq<char>),
    FlagWithArgument(Seq<char>, Seq<char>),
}

impl View for OptionType {
    type V = OptionView;

    open spec fn view(&self) -> OptionView {
        match self {
            OptionType::IncludeDir(d) => OptionView::IncludeDir(d@),
            OptionType::LibDir(d) => OptionView::LibDir(d@),
            OptionType::LinkLib(n) => OptionView::LinkLib(n@),
            OptionType::Flag(f) => OptionView::Flag(f@),
            OptionType::FlagWithArgument(f, a) => OptionView::FlagWithArgument(f@, a@),
        }
    }
}

impl CompilerType {
    pub open spec fn is_msvc(self) -> bool {
        self is MSVC
    }

    /// The name of the front end's executable.
    pub open spec fn program_name(self) -> Seq<char> {
        match self {
            CompilerType::GCC => "g++"@,
            CompilerType::CLANG => "clang++"@,
            CompilerType::MSVC => "cl"@,
        }
    }

    pub open spec fn include_prefix(self) -> Seq<char> {
        if self.is_msvc() { "/I"@ } else { "-I"@ }
    }

    pub open spec fn libdir_prefix(self) -> Seq<char> {
        if self.is_msvc() { "/LIBPATH:"@ } else { "-L"@ }
    }

    /// The extension of a library artifact.
    pub open spec fn library_extension(self) -> Seq<char> {
        if self.is_msvc() { "lib"@ } else { "a"@ }
    }

    /// The dialect that the name of a front end or of its family selects.
    pub open spec fn selected_by(name: Seq<char>) -> Option<CompilerType> {
        if name == "gcc"@ || name == "g++"@ {
            Some(CompilerType::GCC)
        } else if name == "clang"@ || name == "clang++"@ {
            Some(CompilerType::CLANG)
        } else if name == "msvc"@ || name == "cl"@ {
            Some(CompilerType::MSVC)
        } else {
            None
        }
    }

    /// Selects the dialect by the name of a front end or of its family.
    pub fn named(name: &str) -> (r: Option<CompilerType>)
        ensures
            r == CompilerType::selected_by(name@),
    {
        let n = name.to_owned();
        if n == "gcc".to_owned() || n == "g++".to_owned() {
            Some(CompilerType::GCC)
        } else if n == "clang".to_owned() || n == "clang++".to_owned() {
            Some(CompilerType::CLANG)
        } else if n == "msvc".to_owned() || n == "cl".to_owned() {
            Some(CompilerType::MSVC)
        } else {
            None
        }
    }

    pub fn program(self) -> (r: &'static str)
        ensures
            r@ == self.program_name(),
    {
        match self {
            CompilerType::GCC => "g++",
            CompilerType::CLANG => "clang++",
            CompilerType::MSVC => "cl",
        }
    }

    pub fn library_ext(self) -> (r: &'static str)
        ensures
            r@ == self.library_extension(),
    {
        match self {
            CompilerType::MSVC => "lib",
            _ => "a",
        }
    }
}

/// The arguments that one option becomes in the dialect of `c`.
pub open spec fn render_option(c: CompilerType, o: OptionView) -> Seq<Seq<char>> {
    match o {
        OptionView::IncludeDir(d) => seq![c.include_prefix() + d],
        OptionView::LibDir(d) => seq![c.libdir_prefix() + d],
        OptionView::LinkLib(n) => if c.is_msvc() {
            seq![n + ".lib"@]
        } else {
            seq!["-l"@ + n]
        },
        OptionView::Flag(f) => seq![f],
        OptionView::FlagWithArgument(f, a) => if c.is_msvc() {
            seq![f, a]
        } else {
            seq![f + "="@ + a]
        },
    }
}

/// The arguments of a list of options, in the order of the list.
pub open spec fn render_options(c: CompilerType, opts: Seq<OptionView>) -> Seq<Seq<char>>
    decreases opts.len(),
{
    if opts.len() == 0 {
        Seq::empty()
    } else {
        render_options(c, opts.drop_last()) + render_option(c, opts.last())
    }
}

/// The arguments that name the output target.
pub open spec fn render_output(c: CompilerType, out: Seq<char>) -> Seq<Seq<char>> {
    if c.is_msvc() {
        seq!["/OUT:"@ + out]
    } else {
        seq!["-o"@, out]
    }
}

/// What a [`Build`] holds, as plain values.
pub struct BuildView {
    pub compiler_type: CompilerType,
    pub out: Seq<char>,
    pub options: Seq<OptionView>,
    pub inputs: Seq<Seq<char>>,
}

impl BuildView {
    /// The argument vector: the sources in the order they were added, then
    /// the options in the order they were added, then the output target.
    pub open spec fn rendered(self) -> Seq<Seq<char>> {
        self.inputs + render_options(self.compiler_type, self.options) + render_output(
            self.compiler_type,
            self.out,
        )
    }

    pub open spec fn with_option(self, o: OptionView) -> BuildView {
        BuildView { options: self.options.push(o), ..self }
    }

    pub open spec fn with_input(self, path: Seq<char>) -> BuildView {
        BuildView { inputs: self.inputs.push(path), ..self }
    }

    pub open spec fn with_output(self, out: Seq<char>) -> BuildView {
        BuildView { out, ..self }
    }
}

/// The option set of one build unit.
pub struct Build {
    compiler_type: CompilerType,
    out: String,
    options: Vec<OptionType>,
    inputs: Vec<String>,
}

impl View for Build {
    type V = BuildView;

    closed spec fn view(&self) -> BuildView {
        BuildView {
            compiler_type: self.compiler_type,
            out: self.out@,
            options: self.options@.map_values(|o: OptionType| o@),
            inputs: views(self.inputs@),
        }
    }
}

impl Build {
    /// An empty option set in the GCC dialect.
    pub fn new() -> (b: Build)
        ensures
            b@ == (BuildView {
                compiler_type: CompilerType::GCC,
                out: Seq::empty(),
                options: Seq::empty(),
                inputs: Seq::empty(),
            }),
    {
        let b = Build {
            compiler_type: CompilerType::GCC,
            out: String::new(),
            options: Vec::new(),
            inputs: Vec::new(),
        };
        assert(b@.options =~= Seq::empty());
        assert(b@.inputs =~= Seq::empty());
        b
    }

    /// Selects the dialect in which the option set is rendered.
    pub fn compiler(&mut self, compiler_type: CompilerType)
        ensures
            final(self)@ == (BuildView { compiler_type, ..old(self)@ }),
    {
        self.compiler_type = compiler_type;
    }

    /// Sets the output target, replacing an earlier one.
    pub fn output(&mut self, path: &str)
        ensures
            final(self)@ == old(self)@.with_output(path@),
    {
        self.out = path.to_owned();
    }

    fn push_option(&mut self, o: OptionType)
        ensures
            final(self)@ == old(self)@.with_option(o@),
    {
        self.options.push(o);
        assert(self@.options =~= old(self)@.options.push(o@));
    }

    /// Adds a directory in which libraries are searched, after those added
    /// before.
    pub fn libdir(&mut self, dir: &str)
        ensures
            final(self)@ == old(self)@.with_option(OptionView::LibDir(dir@)),
    {
        self.push_option(OptionType::LibDir(dir.to_owned()));
    }

    /// Adds a directory in which headers are searched, after those added
    /// before.
    pub fn includedir(&mut self, dir: &str)
        ensures
            final(self)@ == old(self)@.with_option(OptionView::IncludeDir(dir@)),
    {
        self.push_option(OptionType::IncludeDir(dir.to_owned()));
    }

    /// Adds a source file, after those added before.
    pub fn source(&mut self, path: &str)
        ensures
            final(self)@ == old(self)@.with_input(path@),
    {
        push_string(&mut self.inputs, path.to_owned());
    }

    /// Adds a library to link against, by its logical name.
    pub fn linklib(&mut self, name: &str)
        ensures
            final(self)@ == old(self)@.with_option(OptionView::LinkLib(name@)),
    {
        self.push_option(OptionType::LinkLib(name.to_owned()));
    }

    /// Adds a flag that is passed through as it is.
    pub fn flag(&mut self, flag: &str)
        ensures
            final(self)@ == old(self)@.with_option(OptionView::Flag(flag@)),
    {
        self.push_option(OptionType::Flag(flag.to_owned()));
    }

    /// Adds a flag that carries a value.
    pub fn flag_with_argument(&mut self, flag: &str, argument: &str)
        ensures
            final(self)@ == old(self)@.with_option(
                OptionView::FlagWithArgument(flag@, argument@),
            ),
    {
        self.push_option(OptionType::FlagWithArgument(flag.to_owned(), argument.to_owned()));
    }

    /// The argument vector for the selected dialect.
    pub fn render(&self) -> (args: Vec<String>)
        ensures
            views(args@) == self@.rendered(),
    {
        let c = self.compiler_type;
        let mut args: Vec<String> = Vec::new();
        assert(views(args@) =~= Seq::empty());
        let mut i: usize = 0;
        while i < self.inputs.len()
            invariant
                i <= self.inputs.len(),
                views(args@) == views(self.inputs@).take(i as int),
            decreases self.inputs.len() - i,
        {
            push_string(&mut args, self.inputs[i].clone());
            assert(views(self.inputs@).take(i + 1) =~= views(self.inputs@).take(i as int).push(
                self.inputs[i as int]@,
            ));
            i += 1;
        }
        assert(views(self.inputs@).take(i as int) =~= self@.inputs);
        let mut j: usize = 0;
        assert(self@.options.take(0) =~= Seq::empty());
        assert(views(args@) =~= self@.inputs + render_options(c, self@.options.take(0)));
        while j < self.options.len()
            invariant
                j <= self.options.len(),
                c == self.compiler_type,
                views(args@) == self@.inputs + render_options(c, self@.options.take(j as int)),
            decreases self.options.len() - j,
        {
            let ghost o = self.options[j as int]@;
            append_option(&mut args, c, &self.options[j]);
            proof {
                assert(self@.options.take(j + 1).drop_last() =~= self@.options.take(j as int));
                assert(self@.options.take(j + 1).last() == o);
                assert(views(args@) =~= self@.inputs + render_options(
                    c,
                    self@.options.take(j + 1),
                ));
            }
            j += 1;
        }
        assert(self@.options.take(j as int) =~= self@.options);
        let ghost before = views(args@);
        match c {
            CompilerType::MSVC => {
                push_string(&mut args, catenate("/OUT:", self.out.as_str()));
            },
            _ => {
                push_string(&mut args, "-o".to_owned());
                push_string(&mut args, self.out.clone());
            },
        }
        assert(views(args@) =~= before + render_output(c, self@.out));
        args
    }
}

/// Appends the arguments of one option to `args`.
fn append_option(args: &mut Vec<String>, c: CompilerType, o: &OptionType)
    ensures
        views(final(args)@) == views(old(args)@) + render_option(c, o@),
{
    let msvc = matches!(c, CompilerType::MSVC);
    match o {
        OptionType::IncludeDir(d) => {
            let prefix = if msvc { "/I" } else { "-I" };
            push_string(args, catenate(prefix, d.as_str()));
        },
        OptionType::LibDir(d) => {
            let prefix = if msvc { "/LIBPATH:" } else { "-L" };
            push_string(args, catenate(prefix, d.as_str()));
        },
        OptionType::LinkLib(n) => {
            if msvc {
                push_string(args, catenate(n.as_str(), ".lib"));
            } else {
                push_string(args, catenate("-l", n.as_str()));
            }
        },
        OptionType::Flag(f) => {
            push_string(args, f.clone());
        },
        OptionType::FlagWithArgument(f, a) => {
            if msvc {
                push_string(args, f.clone());
                push_string(args, a.clone());
            } else {
                let mut s = catenate(f.as_str(), "=");
                s.append(a.as_str());
                push_string(args, s);
            }
        },
    }
    assert(views(args@) =~= views(old(args)@) + render_option(c, o@));
}

/// In every dialect the rendered vector starts with the sources, in the order
/// in which they were added, and ends with the output target; what lies
/// between comes from the options alone.
pub proof fn lemma_sources_first_output_last(b: BuildView)
    ensures
        b.rendered().len() >= b.inputs.len() + 1,
        b.rendered().take(b.inputs.len() as int) == b.inputs,
        b.rendered().last() == if b.compiler_type.is_msvc() {
            "/OUT:"@ + b.out
        } else {
            b.out
        },
        !b.compiler_type.is_msvc() ==> b.rendered()[b.rendered().len() - 2] == "-o"@,
        b.rendered().subrange(
            b.inputs.len() as int,
            b.rendered().len() - render_output(b.compiler_type, b.out).len(),
        ) == render_options(b.compiler_type, b.options),
{
    let opts = render_options(b.compiler_type, b.options);
    let out = render_output(b.compiler_type, b.out);
    assert(b.rendered().take(b.inputs.len() as int) =~= b.inputs);
    assert(b.rendered().subrange(b.inputs.len() as int, b.rendered().len() - out.len()) =~= opts);
}

/// With no options the rendered vector is the sources followed by the output
/// target.
pub proof fn lemma_render_without_options(b: BuildView)
    requires
        b.options.len() == 0,
    ensures
        b.rendered() == b.inputs + render_output(b.compiler_type, b.out),
{
    assert(b.rendered() =~= b.inputs + render_output(b.compiler_type, b.out));
}

} // verus!
