//! The command-line surface of the driver, as plain data. Parsing the
//! actual command line belongs to the driver; the field meanings and
//! defaults are fixed here.

use vstd::prelude::*;

use vstd::string::StringExecFns;

verus! {

/// What a driver invocation can ask for: an optional configuration file,
/// the interactive visualizer, externally loaded sender/receiver
/// implementations, and a scenario to run.
pub struct Args {
    /// Path of a configuration file to load.
    pub config: Option<String>,
    /// Launch the terminal visualizer.
    pub tui: bool,
    /// Class name of an externally loaded sender.
    pub java_sender: Option<String>,
    /// Class name of an externally loaded receiver.
    pub java_receiver: Option<String>,
    /// Classpath for the managed-runtime bridge.
    pub classpath: String,
    /// Path of a scenario file to run.
    pub test_scenario: Option<String>,
    /// Path to a native sender library.
    pub cpp_sender_lib: Option<String>,
    /// Path to a native receiver library (same interface, different logic).
    pub cpp_receiver_lib: Option<String>,
    /// `module.Class` of an interpreter-loaded sender.
    pub python_sender: Option<String>,
    /// `module.Class` of an interpreter-loaded receiver.
    pub python_receiver: Option<String>,
    /// Additional interpreter search path.
    pub python_path: Option<String>,
}

impl Default for Args {
    /// No files, no external implementations, no visualizer; the
    /// classpath defaults to the current directory.
    fn default() -> (a: Args)
        ensures
            a.config is None,
            !a.tui,
            a.java_sender is None,
            a.java_receiver is None,
            a.classpath@ == "."@,
            a.test_scenario is None,
            a.cpp_sender_lib is None,
            a.cpp_receiver_lib is None,
            a.python_sender is None,
            a.python_receiver is None,
            a.python_path is None,
    {
        Args {
            config: None,
            tui: false,
            java_sender: None,
            java_receiver: None,
            classpath: String::from_str("."),
            test_scenario: None,
            cpp_sender_lib: None,
            cpp_receiver_lib: None,
            python_sender: None,
            python_receiver: None,
            python_path: None,
        }
    }
}

} // verus!
