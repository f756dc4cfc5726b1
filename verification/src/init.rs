//! Setting up a project for the client: which runtime a directory holds,
//! which command runs it, and what the configuration file says.

use crate::text::push_text;
use vstd::prelude::*;

verus! {

/// The configuration of a project, as the client reads it from its file.
#[derive(Debug)]
pub struct PaasConfig {
    pub name: String,
    pub runtime: String,
    pub command: String,
    pub port: Option<i32>,
    pub id: Option<u128>,
}

/// The port of a project whose configuration names none.
pub const DEFAULT_PORT: i32 = 3000;

/// The runtime of a project.
#[derive(Clone, Copy, Debug, PartialEq, Eq, Structural)]
pub enum Runtime {
    Node,
    Rust,
    Python,
    Go,
    Unknown,
}

/// What a project directory holds.
#[derive(Debug)]
pub struct ProjectFiles {
    pub package_json: bool,
    pub cargo_toml: bool,
    pub pyproject_toml: bool,
    pub requirements_txt: bool,
    pub go_mod: bool,
    pub main_go: bool,
    /// The first directory under `cmd` that holds a `main.go`.
    pub cmd_entry: Option<String>,
    pub paas_toml: bool,
}

impl Runtime {
    /// The name of the runtime in the configuration file.
    pub open spec fn label(self) -> Seq<char> {
        match self {
            Runtime::Node => "node"@,
            Runtime::Rust => "rust"@,
            Runtime::Python => "python"@,
            Runtime::Go => "go"@,
            Runtime::Unknown => "unknown"@,
        }
    }

    /// The name of the runtime in the configuration file.
    pub fn as_str(&self) -> (name: &'static str)
        ensures
            name@ == self.label(),
    {
        match self {
            Runtime::Node => "node",
            Runtime::Rust => "rust",
            Runtime::Python => "python",
            Runtime::Go => "go",
            Runtime::Unknown => "unknown",
        }
    }
}

/// The runtime of a directory, by the first of these that it holds: a Node
/// package file, a Cargo manifest, a Python project or requirements file,
/// a Go module file.
pub open spec fn runtime_of(
    package_json: bool,
    cargo_toml: bool,
    python_files: bool,
    go_mod: bool,
) -> Runtime {
    if package_json {
        Runtime::Node
    } else if cargo_toml {
        Runtime::Rust
    } else if python_files {
        Runtime::Python
    } else if go_mod {
        Runtime::Go
    } else {
        Runtime::Unknown
    }
}

/// The runtime of a project directory, by the files it holds.
pub open spec fn project_runtime(files: &ProjectFiles) -> Runtime {
    runtime_of(
        files.package_json,
        files.cargo_toml,
        files.pyproject_toml || files.requirements_txt,
        files.go_mod,
    )
}

/// The runtime of a project directory.
pub fn detect_runtime(files: &ProjectFiles) -> (runtime: Runtime)
    ensures
        runtime == project_runtime(files),
{
    if files.package_json {
        Runtime::Node
    } else if files.cargo_toml {
        Runtime::Rust
    } else if files.pyproject_toml || files.requirements_txt {
        Runtime::Python
    } else if files.go_mod {
        Runtime::Go
    } else {
        Runtime::Unknown
    }
}

/// The command that runs a Go project: the main file where the directory
/// holds one, else the first command directory with a main file; none
/// where there is neither.
pub open spec fn go_command(main_go: bool, cmd_entry: Option<Seq<char>>) -> Option<Seq<char>> {
    if main_go {
        Some("go run main.go"@)
    } else {
        match cmd_entry {
            Some(dir) => Some("go run ./cmd/"@ + dir + "/..."@),
            None => None,
        }
    }
}

/// The command that runs a project of the runtime; none where the user
/// has to be asked.
pub open spec fn default_command(
    runtime: Runtime,
    main_go: bool,
    cmd_entry: Option<Seq<char>>,
) -> Option<Seq<char>> {
    match runtime {
        Runtime::Node => Some("npm run dev"@),
        Runtime::Rust => Some("cargo run"@),
        Runtime::Python => Some("python main.py"@),
        Runtime::Go => go_command(main_go, cmd_entry),
        Runtime::Unknown => None,
    }
}

/// The command that runs a Go project, if the directory shows one.
pub fn detect_go_command(files: &ProjectFiles) -> (command: Option<String>)
    ensures
        crate::model::text_view(command) == go_command(
            files.main_go,
            crate::model::text_view(files.cmd_entry),
        ),
{
    let mut command = String::new();
    if files.main_go {
        push_text(&mut command, "go run main.go");
        assert(command@ =~= "go run main.go"@);
        Some(command)
    } else {
        match &files.cmd_entry {
            Some(dir) => {
                push_text(&mut command, "go run ./cmd/");
                push_text(&mut command, dir.as_str());
                push_text(&mut command, "/...");
                assert(command@ =~= "go run ./cmd/"@ + dir@ + "/..."@);
                Some(command)
            },
            None => None,
        }
    }
}

/// The command that runs the project, if the user need not be asked.
pub fn command_for(runtime: Runtime, files: &ProjectFiles) -> (command: Option<String>)
    ensures
        crate::model::text_view(command) == default_command(
            runtime,
            files.main_go,
            crate::model::text_view(files.cmd_entry),
        ),
{
    let mut command = String::new();
    match runtime {
        Runtime::Node => {
            push_text(&mut command, "npm run dev");
            assert(command@ =~= "npm run dev"@);
            Some(command)
        },
        Runtime::Rust => {
            push_text(&mut command, "cargo run");
            assert(command@ =~= "cargo run"@);
            Some(command)
        },
        Runtime::Python => {
            push_text(&mut command, "python main.py");
            assert(command@ =~= "python main.py"@);
            Some(command)
        },
        Runtime::Go => detect_go_command(files),
        Runtime::Unknown => None,
    }
}

/// What the configuration file of a new project says.
pub open spec fn config_text(name: Seq<char>, runtime: Runtime, command: Seq<char>) -> Seq<char> {
    "name = \""@ + name + "\"\nruntime = \""@ + runtime.label() + "\"\ncommand = \""@ + command
        + "\"\nport = 3000\n"@
}

/// Writes what the configuration file of a new project says.
pub fn config_content(name: &str, runtime: Runtime, command: &str) -> (content: String)
    ensures
        content@ == config_text(name@, runtime, command@),
{
    let mut content = String::new();
    push_text(&mut content, "name = \"");
    push_text(&mut content, name);
    push_text(&mut content, "\"\nruntime = \"");
    push_text(&mut content, runtime.as_str());
    push_text(&mut content, "\"\ncommand = \"");
    push_text(&mut content, command);
    push_text(&mut content, "\"\nport = 3000\n");
    assert(content@ =~= config_text(name@, runtime, command@));
    content
}

/// What setting up a project comes to.
#[derive(Debug)]
pub enum InitPlan {
    /// The kind of project could not be told; nothing is written.
    UnknownProject,
    /// The user has to give the command that runs the project.
    AskCommand { runtime: Runtime },
    /// The project is set up. `write` says whether the configuration file
    /// is to be written: a file that is there already is left alone.
    Ready { runtime: Runtime, command: String, content: String, write: bool },
}

/// Plans the setup of the project in the directory `folder`. `answer` is
/// the command that the user gave when asked, if the user was asked.
pub fn init_project(files: &ProjectFiles, folder: &str, answer: Option<&str>) -> (plan: InitPlan)
    ensures
        match plan {
            InitPlan::UnknownProject => project_runtime(files) == Runtime::Unknown,
            InitPlan::AskCommand { runtime } => runtime == project_runtime(files) && runtime
                != Runtime::Unknown && answer is None && default_command(
                runtime,
                files.main_go,
                crate::model::text_view(files.cmd_entry),
            ) is None,
            InitPlan::Ready { runtime, command, content, write } => {
                &&& runtime == project_runtime(files)
                &&& runtime != Runtime::Unknown
                &&& Some(command@) == match default_command(
                    runtime,
                    files.main_go,
                    crate::model::text_view(files.cmd_entry),
                ) {
                    Some(found) => Some(found),
                    None => match answer {
                        Some(given) => Some(given@),
                        None => None,
                    },
                }
                &&& content@ == config_text(folder@, runtime, command@)
                &&& write == !files.paas_toml
            },
        },
{
    let runtime = detect_runtime(files);
    if let Runtime::Unknown = runtime {
        return InitPlan::UnknownProject;
    }
    let command = match command_for(runtime, files) {
        Some(found) => found,
        None => match answer {
            Some(given) => {
                let mut text = String::new();
                push_text(&mut text, given);
                assert(text@ =~= given@);
                text
            },
            None => {
                return InitPlan::AskCommand { runtime };
            },
        },
    };
    let content = config_content(folder, runtime, command.as_str());
    InitPlan::Ready { runtime, command, content, write: !files.paas_toml }
}

} // verus!
