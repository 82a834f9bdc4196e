use vstd::prelude::*;

use crate::common::text::push_str;

verus! {

/// The default project file written by `koi init`.
pub const DEFAULT_KOI_TOML: &'static str = "# Koi project configuration

[project]
name = \"myApp\"    # Project name
type = \"app\"      # Project type (app|package)
src = \"src\"       # Source code directory
bin = \"bin\"       # Output directory for temporary files
out = \".\"         # Output directory of targets
ignore-dirs = []  # Source directories to ignore
link-with=[]      # Additional libraries to link with

[options]
debug-mode = false
codegen = \"c\"
";

/// A project file: its project table and its options table.
pub struct ConfigFile {
    pub project: Project,
    pub options: Options,
}

/// The code generator to build with.
#[derive(Clone, Copy, Debug, PartialEq, Eq, Structural)]
pub enum Codegen {
    X86_64,
    C,
}

impl Codegen {
    /// The code generator used when the project file names none.
    pub fn default() -> (r: Codegen)
        ensures
            r == Codegen::C,
    {
        Codegen::C
    }

    /// Every code generator.
    pub fn all() -> (r: Vec<Codegen>)
        ensures
            r@ == seq![Codegen::X86_64, Codegen::C],
    {
        let mut v = Vec::new();
        v.push(Codegen::X86_64);
        v.push(Codegen::C);
        assert(v@ =~= seq![Codegen::X86_64, Codegen::C]);
        v
    }
}

/// The target architecture a project is built for.
#[derive(Clone, Copy, Debug, PartialEq, Eq, Structural)]
pub enum Target {
    X86_64,
}

/// Whether a project builds an executable or a library.
#[derive(Clone, Copy, Debug, PartialEq, Eq, Structural)]
pub enum ProjectType {
    App,
    Package,
}

/// The `[project]` table of a project file.
pub struct Project {
    pub name: String,
    pub bin: String,
    pub src: String,
    pub out: String,
    pub project_type: ProjectType,
    pub includes: Option<Vec<String>>,
    pub ignore_dirs: Vec<String>,
    pub link_with: Vec<String>,
}

/// The `[options]` table of a project file.
pub struct Options {
    pub debug_mode: bool,
    pub install_dir: Option<String>,
    pub codegen: Codegen,
}

/// The phase after which the driver stops.
#[derive(Debug, Clone, Copy, PartialEq, Eq, Structural)]
pub enum DriverPhase {
    Full,
    Parse,
    TypeCheck,
    Ir,
    Build,
}

/// Internal compiler configuration.
#[derive(Debug, Clone, Copy, PartialEq, Eq, Structural)]
pub struct Config {
    pub dump_types: bool,
    pub print_symbol_tables: bool,
    pub no_mangle_names: bool,
    pub comment_assembly: bool,
    pub driver_phase: DriverPhase,
}

impl Config {
    pub fn normal() -> (r: Self)
        ensures
            r == (Config {
                dump_types: false,
                no_mangle_names: false,
                print_symbol_tables: false,
                comment_assembly: true,
                driver_phase: DriverPhase::Full,
            }),
    {
        Self {
            dump_types: false,
            no_mangle_names: false,
            print_symbol_tables: false,
            comment_assembly: true,
            driver_phase: DriverPhase::Full,
        }
    }

    /// The configuration used when nothing else is asked for: the normal one.
    pub fn default() -> (r: Self)
        ensures
            r == Config::spec_normal(),
    {
        Config::normal()
    }

    pub fn test() -> (r: Self)
        ensures
            r == (Config {
                dump_types: false,
                no_mangle_names: true,
                print_symbol_tables: false,
                comment_assembly: false,
                driver_phase: DriverPhase::Full,
            }),
    {
        Self {
            dump_types: false,
            no_mangle_names: true,
            print_symbol_tables: false,
            comment_assembly: false,
            driver_phase: DriverPhase::Full,
        }
    }

    pub fn debug() -> (r: Self)
        ensures
            r == (Config {
                dump_types: true,
                no_mangle_names: false,
                print_symbol_tables: true,
                comment_assembly: true,
                driver_phase: DriverPhase::Full,
            }),
    {
        Self {
            dump_types: true,
            no_mangle_names: false,
            print_symbol_tables: true,
            comment_assembly: true,
            driver_phase: DriverPhase::Full,
        }
    }

    /// The configuration that a project's options call for: the debug
    /// configuration in debug mode, else the normal one.
    pub fn for_options(options: &Options) -> (r: Self)
        ensures
            options.debug_mode ==> r == Config::spec_debug(),
            !options.debug_mode ==> r == Config::spec_normal(),
    {
        if options.debug_mode {
            Config::debug()
        } else {
            Config::normal()
        }
    }

    pub open spec fn spec_normal() -> Config {
        Config {
            dump_types: false,
            no_mangle_names: false,
            print_symbol_tables: false,
            comment_assembly: true,
            driver_phase: DriverPhase::Full,
        }
    }

    pub open spec fn spec_debug() -> Config {
        Config {
            dump_types: true,
            no_mangle_names: false,
            print_symbol_tables: true,
            comment_assembly: true,
            driver_phase: DriverPhase::Full,
        }
    }
}


/// Splits a parsed project file into the project, its options and the
/// configuration they call for.
pub fn load_config_file(file: ConfigFile) -> (r: (Project, Options, Config))
    ensures
        file.options.debug_mode ==> r.2 == Config::spec_debug(),
        !file.options.debug_mode ==> r.2 == Config::spec_normal(),
        r.0 == file.project,
        r.1 == file.options,
{
    let config = Config::for_options(&file.options);
    (file.project, file.options, config)
}

/// How the linker combines the object files.
#[derive(Clone, Copy, Debug, PartialEq, Eq, Structural)]
pub enum LinkMode {
    /// Link as executable ELF file
    Executable,
    /// Link to static library file (.a)
    Library,
}

/// Where a build puts its files and what it links with.
pub struct BuildConfig {
    pub linkmode: LinkMode,
    /// Where to output temp files (.s .o)
    pub tmpdir: String,
    /// Filepath of output executable/object file
    pub target_name: String,
    /// Directory to output target file(s)
    pub outdir: String,
    /// List of libraries to link with
    pub additional_libraries: Vec<String>,
}

/// A path joined with one more component: the component alone when the
/// path is empty, else the two separated by `/`.
pub open spec fn path_join(root: Seq<char>, part: Seq<char>) -> Seq<char> {
    if root.len() == 0 {
        part
    } else if root.last() == '/' {
        root + part
    } else {
        root + seq!['/'] + part
    }
}

pub fn join_path(root: &str, part: &str) -> (r: String)
    ensures
        r@ == path_join(root@, part@),
{
    let mut s = String::from_str(root);
    if root.is_empty() {
        return String::from_str(part);
    }
    let n = root.unicode_len();
    if root.get_char(n - 1) != '/' {
        push_str(&mut s, "/");
        proof {
            reveal_strlit("/");
        }
    }
    push_str(&mut s, part);
    s
}

/// Paths of a Koi installation, all relative to its root directory.
pub struct PathManager {
    root: String,
}

impl PathManager {
    pub closed spec fn spec_root(&self) -> Seq<char> {
        self.root@
    }

    pub fn new(root: String) -> (r: Self)
        ensures
            r.spec_root() == root@,
    {
        Self { root }
    }

    pub fn root(&self) -> (r: &String)
        ensures
            r@ == self.spec_root(),
    {
        &self.root
    }

    /// Directory of the module header files.
    pub fn include_path(&self) -> (r: String)
        ensures
            r@ == path_join(self.spec_root(), "include"@),
    {
        join_path(self.root.as_str(), "include")
    }

    /// Directory of the builtin libraries.
    pub fn library_path(&self) -> (r: String)
        ensures
            r@ == path_join(self.spec_root(), "lib"@),
    {
        join_path(self.root.as_str(), "lib")
    }

    /// Directory of the external libraries.
    pub fn external_library_path(&self) -> (r: String)
        ensures
            r@ == path_join(self.spec_root(), "external"@),
    {
        join_path(self.root.as_str(), "external")
    }
}

} // verus!
