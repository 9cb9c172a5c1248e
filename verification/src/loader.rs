//! Configuration types and name resolution for protocol loading.
//!
//! Loading code across a language boundary (a shared library, a managed
//! runtime, an embedded interpreter) is a driver's concern; this module
//! fixes what the driver's inputs mean: which built-in name maps to which
//! protocol, how a Python implementation spec is split, and what a
//! loader is configured with.

use vstd::prelude::*;

use vstd::string::{StrSliceExecFns, StringExecFns};

verus! {

/// Built-in implementations usable without loading external code.
#[derive(Clone, Copy, Debug, PartialEq, Eq, Structural)]
pub enum BuiltinProtocol {
    Rdt2Sender,
    Rdt2Receiver,
}

/// Why a loader input was rejected.
#[derive(Clone, Copy, Debug, PartialEq, Eq, Structural)]
pub enum LoaderError {
    /// A Python implementation spec did not contain `module.Class`.
    InvalidPythonSpec,
    /// A built-in name matched no built-in protocol.
    UnknownBuiltin,
}

impl LoaderError {
    /// A human-readable account of the rejection.
    pub fn message(&self) -> (m: &'static str)
        ensures
            self is InvalidPythonSpec ==> m@ == "Python class should be provided as module.Class"@,
            self is UnknownBuiltin ==> m@ == "Unknown builtin. Try 'rdt2'."@,
    {
        match self {
            LoaderError::InvalidPythonSpec => "Python class should be provided as module.Class",
            LoaderError::UnknownBuiltin => "Unknown builtin. Try 'rdt2'.",
        }
    }
}

/// `i` is the position of the last `.` in `s`.
pub open spec fn is_last_dot(s: Seq<char>, i: int) -> bool {
    &&& 0 <= i < s.len()
    &&& s[i] == '.'
    &&& forall|j: int| i < j < s.len() ==> s[j] != '.'
}

/// Parse a Python implementation spec of the form `module.Class`,
/// splitting at the last dot. A spec without a dot is rejected.
pub fn parse_python_spec(spec: &str) -> (r: Result<(String, String), LoaderError>)
    ensures
        match r {
            Ok(parts) => exists|i: int|
                {
                    &&& is_last_dot(spec@, i)
                    &&& parts.0@ == spec@.subrange(0, i)
                    &&& parts.1@ == spec@.subrange(i + 1, spec@.len() as int)
                },
            Err(e) => {
                &&& e == LoaderError::InvalidPythonSpec
                &&& forall|j: int| 0 <= j < spec@.len() ==> spec@[j] != '.'
            },
        },
{
    let n = spec.unicode_len();
    let mut i: usize = n;
    while i > 0
        invariant
            n == spec@.len(),
            0 <= i <= n,
            forall|j: int| i <= j < n ==> spec@[j] != '.',
        decreases i,
    {
        i = i - 1;
        if spec.get_char(i) == '.' {
            let module = String::from_str(spec.substring_char(0, i));
            let class = String::from_str(spec.substring_char(i + 1, n));
            proof {
                assert(is_last_dot(spec@, i as int));
            }
            return Ok((module, class));
        }
    }
    Err(LoaderError::InvalidPythonSpec)
}

/// Map a user-visible built-in name to the protocol it selects, sender or
/// receiver side; only `rdt2` exists.
pub fn builtin_by_name(name: &str, is_sender: bool) -> (r: Result<BuiltinProtocol, LoaderError>)
    ensures
        name@ == "rdt2"@ ==> r == Ok::<BuiltinProtocol, LoaderError>(
            if is_sender {
                BuiltinProtocol::Rdt2Sender
            } else {
                BuiltinProtocol::Rdt2Receiver
            },
        ),
        name@ != "rdt2"@ ==> r == Err::<BuiltinProtocol, LoaderError>(LoaderError::UnknownBuiltin),
{
    let owned = String::from_str(name);
    let probe = String::from_str("rdt2");
    if owned == probe {
        if is_sender {
            Ok(BuiltinProtocol::Rdt2Sender)
        } else {
            Ok(BuiltinProtocol::Rdt2Receiver)
        }
    } else {
        Err(LoaderError::UnknownBuiltin)
    }
}

/// The observable state of a `PythonConfig`.
pub ghost struct PythonConfigModel {
    pub uv_project_root: Option<Seq<char>>,
    pub extra_paths: Seq<Seq<char>>,
}

/// Python environment configuration: an optional project root and ad-hoc
/// search paths.
pub struct PythonConfig {
    uv_project_root: Option<String>,
    extra_paths: Vec<String>,
}

impl View for PythonConfig {
    type V = PythonConfigModel;

    closed spec fn view(&self) -> PythonConfigModel {
        PythonConfigModel {
            uv_project_root: match self.uv_project_root {
                Some(ref s) => Some(s@),
                None => None,
            },
            extra_paths: self.extra_paths@.map_values(|s: String| s@),
        }
    }
}

impl Default for PythonConfig {
    fn default() -> (c: PythonConfig)
        ensures
            c@ == (PythonConfigModel { uv_project_root: None, extra_paths: Seq::empty() }),
    {
        let c = PythonConfig { uv_project_root: None, extra_paths: Vec::new() };
        proof {
            assert(c@.extra_paths =~= Seq::<Seq<char>>::empty());
        }
        c
    }
}

impl PythonConfig {
    /// Point the configuration at a project root.
    pub fn with_uv_project(self, root: &str) -> (c: PythonConfig)
        ensures
            c@ == (PythonConfigModel { uv_project_root: Some(root@), ..self@ }),
    {
        let mut c = self;
        c.uv_project_root = Some(String::from_str(root));
        c
    }

    /// Add one ad-hoc search path.
    pub fn add_sys_path(self, path: &str) -> (c: PythonConfig)
        ensures
            c@ == (PythonConfigModel {
                extra_paths: self@.extra_paths.push(path@),
                ..self@
            }),
    {
        let mut c = self;
        let ghost prev = c@;
        c.extra_paths.push(String::from_str(path));
        proof {
            assert(c@.extra_paths =~= prev.extra_paths.push(path@));
        }
        c
    }
}

/// The observable state of a `LoaderBuilder`.
pub ghost struct LoaderBuilderModel {
    pub java_classpath: Option<Seq<char>>,
    pub python: Option<PythonConfigModel>,
}

/// Builder for a protocol loader: collects the shared state (classpath,
/// Python environment) the language bridges would be initialized with.
pub struct LoaderBuilder {
    java_classpath: Option<String>,
    python: Option<PythonConfig>,
}

impl View for LoaderBuilder {
    type V = LoaderBuilderModel;

    closed spec fn view(&self) -> LoaderBuilderModel {
        LoaderBuilderModel {
            java_classpath: match self.java_classpath {
                Some(ref s) => Some(s@),
                None => None,
            },
            python: match self.python {
                Some(ref c) => Some(c@),
                None => None,
            },
        }
    }
}

impl Default for LoaderBuilder {
    fn default() -> (b: LoaderBuilder)
        ensures
            b@ == (LoaderBuilderModel { java_classpath: None, python: None }),
    {
        LoaderBuilder::new()
    }
}

impl LoaderBuilder {
    /// A builder with nothing configured.
    pub fn new() -> (b: LoaderBuilder)
        ensures
            b@ == (LoaderBuilderModel { java_classpath: None, python: None }),
    {
        LoaderBuilder { java_classpath: None, python: None }
    }

    /// Set the classpath a managed-runtime bridge would use.
    pub fn java_classpath(self, classpath: &str) -> (b: LoaderBuilder)
        ensures
            b@ == (LoaderBuilderModel { java_classpath: Some(classpath@), ..self@ }),
    {
        let mut b = self;
        b.java_classpath = Some(String::from_str(classpath));
        b
    }

    /// Set the Python environment configuration.
    pub fn python_config(self, config: PythonConfig) -> (b: LoaderBuilder)
        ensures
            b@ == (LoaderBuilderModel { python: Some(config@), ..self@ }),
    {
        let mut b = self;
        b.python = Some(config);
        b
    }
}

} // verus!
