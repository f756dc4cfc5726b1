//! From an application record to the process to start: the program, its
//! arguments, its working directory and the environment injected into it.

use crate::model::{Application, ApplicationView, EnvVar, EnvVarView};
use crate::text::{chars_of, same_chars, split_words, string_of, word_views, words};
use vstd::prelude::*;

verus! {

/// The kind of host the node agent runs on.
#[derive(Clone, Copy, Debug, PartialEq, Eq, Structural)]
pub enum Platform {
    Windows,
    Unix,
}

/// A variable injected into the environment of a process.
#[derive(Debug)]
pub struct EnvPair {
    pub key: String,
    pub value: String,
}

impl View for EnvPair {
    type V = (Seq<char>, Seq<char>);

    open spec fn view(&self) -> (Seq<char>, Seq<char>) {
        (self.key@, self.value@)
    }
}

/// The process to start for an application.
#[derive(Debug)]
pub struct LaunchPlan {
    pub program: String,
    pub args: Vec<String>,
    pub working_dir: String,
    pub env: Vec<EnvPair>,
}

/// View of a [`LaunchPlan`].
pub struct LaunchPlanView {
    pub program: Seq<char>,
    pub args: Seq<Seq<char>>,
    pub working_dir: Seq<char>,
    pub env: Seq<(Seq<char>, Seq<char>)>,
}

impl View for LaunchPlan {
    type V = LaunchPlanView;

    open spec fn view(&self) -> LaunchPlanView {
        LaunchPlanView {
            program: self.program@,
            args: self.args@.map_values(|a: String| a@),
            working_dir: self.working_dir@,
            env: self.env@.map_values(|p: EnvPair| p@),
        }
    }
}

/// The launchers that are script files on Windows and so are started there
/// under another name.
pub open spec fn is_script_launcher(program: Seq<char>) -> bool {
    program == "npm"@ || program == "npx"@ || program == "yarn"@ || program == "pnpm"@
}

/// The executable to start for the program named in a command: on Windows
/// a script launcher gets the suffix `.cmd`; anything else is started under
/// its own name.
pub open spec fn resolved_program(program: Seq<char>, platform: Platform) -> Seq<char> {
    if platform == Platform::Windows && is_script_launcher(program) {
        program + ".cmd"@
    } else {
        program
    }
}

/// The entries of an environment mapping whose value is a text, in order.
pub open spec fn text_entries(vars: Seq<EnvVarView>) -> Seq<(Seq<char>, Seq<char>)>
    decreases vars.len(),
{
    if vars.len() == 0 {
        Seq::empty()
    } else {
        let front = text_entries(vars.drop_last());
        match vars.last().value {
            Some(value) => front.push((vars.last().key, value)),
            None => front,
        }
    }
}

/// The environment injected into an application's process.
pub open spec fn injected_env(vars: Option<Seq<EnvVarView>>) -> Seq<(Seq<char>, Seq<char>)> {
    match vars {
        Some(list) => text_entries(list),
        None => Seq::empty(),
    }
}

/// The process to start for `app` on `platform`; none where the command
/// holds no word.
pub open spec fn launch_plan(app: ApplicationView, platform: Platform) -> Option<LaunchPlanView> {
    let parts = words(app.command);
    if parts.len() == 0 {
        None
    } else {
        Some(
            LaunchPlanView {
                program: resolved_program(parts[0], platform),
                args: parts.skip(1),
                working_dir: app.working_dir,
                env: injected_env(app.env_vars),
            },
        )
    }
}

/// The executable to start for `program` on `platform`.
pub fn resolve_program(program: &Vec<char>, platform: Platform) -> (resolved: String)
    ensures
        resolved@ == resolved_program(program@, platform),
{
    let mut resolved = string_of(program);
    if let Platform::Windows = platform {
        let npm = chars_of("npm");
        let npx = chars_of("npx");
        let yarn = chars_of("yarn");
        let pnpm = chars_of("pnpm");
        if same_chars(program, &npm) || same_chars(program, &npx) || same_chars(program, &yarn)
            || same_chars(program, &pnpm) {
            crate::text::push_text(&mut resolved, ".cmd");
        }
    }
    resolved
}

/// The variables to inject for an environment mapping: its entries whose
/// value is a text.
pub fn environment_of(vars: &Option<Vec<EnvVar>>) -> (env: Vec<EnvPair>)
    ensures
        env@.map_values(|p: EnvPair| p@) == injected_env(crate::model::env_vars_view(*vars)),
{
    let mut env: Vec<EnvPair> = Vec::new();
    match vars {
        None => {
            assert(env@.map_values(|p: EnvPair| p@) =~= Seq::<(Seq<char>, Seq<char>)>::empty());
        },
        Some(list) => {
            let ghost views = crate::model::env_view(list@);
            let mut i: usize = 0;
            assert(views.take(0) =~= Seq::<EnvVarView>::empty());
            assert(env@.map_values(|p: EnvPair| p@) =~= Seq::<(Seq<char>, Seq<char>)>::empty());
            while i < list.len()
                invariant
                    i <= list.len(),
                    views == crate::model::env_view(list@),
                    env@.map_values(|p: EnvPair| p@) == text_entries(views.take(i as int)),
                decreases list.len() - i,
            {
                let ghost before = env@.map_values(|p: EnvPair| p@);
                proof {
                    assert(views.take(i + 1).drop_last() == views.take(i as int));
                    assert(views.take(i + 1).last() == list@[i as int]@);
                }
                if let Some(value) = &list[i].value {
                    let pair = EnvPair { key: list[i].key.clone(), value: value.clone() };
                    env.push(pair);
                    assert(env@.map_values(|p: EnvPair| p@) =~= before.push(
                        (list@[i as int].key@, value@),
                    ));
                }
                i += 1;
            }
            assert(views.take(list.len() as int) == views);
        },
    }
    env
}

/// The process to start for `app` on `platform`, unless its command holds
/// no word.
pub fn plan_launch(app: &Application, platform: Platform) -> (plan: Option<LaunchPlan>)
    ensures
        match plan {
            Some(p) => launch_plan(app@, platform) == Some(p@),
            None => launch_plan(app@, platform) is None,
        },
{
    let command = chars_of(app.command.as_str());
    let parts = split_words(&command);
    if parts.len() == 0 {
        return None;
    }
    let program = resolve_program(&parts[0], platform);
    let mut args: Vec<String> = Vec::new();
    let mut i: usize = 1;
    while i < parts.len()
        invariant
            1 <= i <= parts.len(),
            args.len() == i - 1,
            forall|j: int| 0 <= j < args.len() ==> (#[trigger] args@[j])@ == parts@[j + 1]@,
        decreases parts.len() - i,
    {
        args.push(string_of(&parts[i]));
        i += 1;
    }
    let env = environment_of(&app.env_vars);
    let plan = LaunchPlan { program, args, working_dir: app.working_dir.clone(), env };
    proof {
        assert(word_views(parts@)[0] == parts@[0]@);
        assert(plan@.args =~= words(app@.command).skip(1));
    }
    Some(plan)
}

} // verus!
