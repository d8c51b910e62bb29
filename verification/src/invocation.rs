//! Running a local command: what is run, with which environment, for how long.
use crate::error::{failure, outcome, PlanError, PlanErrorModel};
use crate::paths::{
    components, is_absolute, join_path, joined_path, path_components, path_is_absolute,
};
use crate::text::{concat2, concat5, copy_list, decimal, number_text, same_text};
use vstd::prelude::*;

verus! {

/// A directory that programs are looked up in, and whether it holds the program.
#[derive(Debug, PartialEq, Eq)]
pub struct SearchDirectory {
    pub directory: String,
    pub holds_program: bool,
}

/// The meaning of a [`SearchDirectory`].
pub struct SearchDirectoryModel {
    pub directory: Seq<char>,
    pub holds_program: bool,
}

impl DeepView for SearchDirectory {
    type V = SearchDirectoryModel;

    open spec fn deep_view(&self) -> SearchDirectoryModel {
        SearchDirectoryModel {
            directory: self.directory@,
            holds_program: self.holds_program,
        }
    }
}

impl Clone for SearchDirectory {
    fn clone(&self) -> (r: Self)
        ensures
            r.deep_view() == self.deep_view(),
    {
        SearchDirectory {
            directory: self.directory.clone(),
            holds_program: self.holds_program,
        }
    }
}

/// A command that can be run.
#[derive(Debug, PartialEq, Eq)]
pub struct LocalCommand {
    pub program: String,
    pub resolved_program: String,
    pub args: Vec<String>,
    pub timeout_sec: u64,
    pub clears_environment: bool,
    pub kept_variables: Vec<String>,
}

/// The meaning of a [`LocalCommand`].
pub struct LocalCommandModel {
    pub program: Seq<char>,
    pub resolved_program: Seq<char>,
    pub args: Seq<Seq<char>>,
    pub timeout_sec: u64,
    pub clears_environment: bool,
    pub kept_variables: Seq<Seq<char>>,
}

impl DeepView for LocalCommand {
    type V = LocalCommandModel;

    open spec fn deep_view(&self) -> LocalCommandModel {
        LocalCommandModel {
            program: self.program@,
            resolved_program: self.resolved_program@,
            args: self.args.deep_view(),
            timeout_sec: self.timeout_sec,
            clears_environment: self.clears_environment,
            kept_variables: self.kept_variables.deep_view(),
        }
    }
}

impl Clone for LocalCommand {
    fn clone(&self) -> (r: Self)
        ensures
            r.deep_view() == self.deep_view(),
    {
        let r: LocalCommand = LocalCommand {
            program: self.program.clone(),
            resolved_program: self.resolved_program.clone(),
            args: self.args.clone(),
            timeout_sec: self.timeout_sec,
            clears_environment: self.clears_environment,
            kept_variables: self.kept_variables.clone(),
        };
        assert(r.args.deep_view() =~= self.args.deep_view());
        assert(r.kept_variables.deep_view() =~= self.kept_variables.deep_view());
        r
    }
}

/// The first place at or after `i` that holds the program.
pub open spec fn executable_from(
    program: Seq<char>,
    directories: Seq<SearchDirectoryModel>,
    i: int,
) -> Option<Seq<char>>
    decreases directories.len() - i,
{
    if i >= directories.len() {
        None
    } else if directories[i].holds_program {
        Some(joined_path(directories[i].directory, program))
    } else {
        executable_from(program, directories, i + 1)
    }
}

/// Where the program stands: a path as it is, a name in the first directory
/// of the search path that holds it.
pub open spec fn executable(
    program: Seq<char>,
    search_path: Option<Seq<SearchDirectoryModel>>,
) -> Result<Seq<char>, PlanErrorModel> {
    if is_absolute(program) || components(program).len() > 1 {
        Ok(program)
    } else {
        match search_path {
            None => Err(failure("PATH is not set while resolving executable "@ + program)),
            Some(directories) => match executable_from(program, directories, 0) {
                Some(path) => Ok(path),
                None => Err(failure("failed to resolve executable path for "@ + program)),
            },
        }
    }
}

/// Where the program stands, given the directories of the search path.
pub fn resolve_executable_path(program: &str, search_path: &Option<Vec<SearchDirectory>>) -> (r:
    Result<String, PlanError>)
    ensures
        outcome(r) == executable(program@, search_path.deep_view()),
{
    if path_is_absolute(program) || path_components(program).len() > 1 {
        return Ok(program.to_owned());
    }
    match search_path {
        None => Err(
            PlanError::new(concat2("PATH is not set while resolving executable ", program)),
        ),
        Some(directories) => {
            let ghost all = directories.deep_view();
            let mut i: usize = 0;
            while i < directories.len()
                invariant
                    i <= directories.len(),
                    all == directories.deep_view(),
                    executable(program@, search_path.deep_view()) == (match executable_from(
                        program@,
                        all,
                        i as int,
                    ) {
                        Some(path) => Ok::<Seq<char>, PlanErrorModel>(path),
                        None => Err(
                            failure("failed to resolve executable path for "@ + program@),
                        ),
                    }),
                decreases directories.len() - i,
            {
                assert(all[i as int] == directories@[i as int].deep_view());
                if directories[i].holds_program {
                    return Ok(join_path(directories[i].directory.as_str(), program));
                }
                i = i + 1;
            }
            Err(PlanError::new(concat2("failed to resolve executable path for ", program)))
        },
    }
}

/// The command that can be run: its program found, its timeout and its
/// environment settled.
pub open spec fn local_command(
    command: Seq<Seq<char>>,
    search_path: Option<Seq<SearchDirectoryModel>>,
    timeout_sec: i64,
    env_policy: Seq<char>,
    env_allow: Seq<Seq<char>>,
) -> Result<LocalCommandModel, PlanErrorModel> {
    if command.len() == 0 {
        Err(failure("executor command cannot be empty"@))
    } else if timeout_sec < 0 {
        Err(failure("executor timeout_sec must be non-negative"@))
    } else {
        match executable(command[0], search_path) {
            Err(error) => Err(error),
            Ok(resolved_program) => if env_policy == "allowlist"@ || env_policy == "inherit_all"@ {
                Ok(
                    LocalCommandModel {
                        program: command[0],
                        resolved_program,
                        args: command.skip(1),
                        timeout_sec: timeout_sec as u64,
                        clears_environment: env_policy == "allowlist"@,
                        kept_variables: if env_policy == "allowlist"@ {
                            seq!["PATH"@] + env_allow
                        } else {
                            Seq::empty()
                        },
                    },
                )
            } else {
                Err(failure("unsupported executor env_policy "@ + env_policy))
            },
        }
    }
}

/// The command that can be run.
pub fn plan_local_command(
    command: &Vec<String>,
    search_path: &Option<Vec<SearchDirectory>>,
    timeout_sec: i64,
    env_policy: &str,
    env_allow: &Vec<String>,
) -> (r: Result<LocalCommand, PlanError>)
    ensures
        outcome(r) == local_command(
            command.deep_view(),
            search_path.deep_view(),
            timeout_sec,
            env_policy@,
            env_allow.deep_view(),
        ),
{
    if command.len() == 0 {
        return Err(PlanError::new("executor command cannot be empty".to_owned()));
    }
    if timeout_sec < 0 {
        return Err(PlanError::new("executor timeout_sec must be non-negative".to_owned()));
    }
    let ghost all = command.deep_view();
    let program: &str = command[0].as_str();
    assert(all[0] == program@);
    let resolved_program: String = resolve_executable_path(program, search_path)?;
    let clears_environment: bool = same_text(env_policy, "allowlist");
    if !clears_environment && !same_text(env_policy, "inherit_all") {
        return Err(PlanError::new(concat2("unsupported executor env_policy ", env_policy)));
    }
    let mut args: Vec<String> = Vec::new();
    let mut i: usize = 1;
    assert(args.deep_view() =~= all.subrange(1, 1));
    while i < command.len()
        invariant
            1 <= i <= command.len(),
            all == command.deep_view(),
            args.deep_view() == all.subrange(1, i as int),
        decreases command.len() - i,
    {
        let ghost before = args.deep_view();
        args.push(command[i].clone());
        assert(args.deep_view() =~= before.push(command@[i as int]@));
        i = i + 1;
        assert(args.deep_view() =~= all.subrange(1, i as int));
    }
    assert(args.deep_view() =~= all.skip(1));
    let mut kept_variables: Vec<String> = Vec::new();
    if clears_environment {
        kept_variables.push("PATH".to_owned());
        let ghost first = kept_variables.deep_view();
        assert(first =~= seq!["PATH"@]);
        let mut more: Vec<String> = copy_list(env_allow);
        kept_variables.append(&mut more);
        assert(kept_variables.deep_view() =~= first + env_allow.deep_view());
    } else {
        assert(kept_variables.deep_view() =~= Seq::empty());
    }
    Ok(
        LocalCommand {
            program: program.to_owned(),
            resolved_program,
            args,
            timeout_sec: timeout_sec as u64,
            clears_environment,
            kept_variables,
        },
    )
}

/// What to do with a command that is running.
#[derive(Debug, Clone, Copy, PartialEq, Eq, Structural)]
pub enum CommandPoll {
    Collect,
    Terminate,
    Wait,
}

/// What to do with a command: one that ended is collected, one whose time is
/// over is terminated.
pub fn poll_local_command(ended: bool, past_deadline: bool) -> (r: CommandPoll)
    ensures
        r == (if ended {
            CommandPoll::Collect
        } else if past_deadline {
            CommandPoll::Terminate
        } else {
            CommandPoll::Wait
        }),
{
    if ended {
        CommandPoll::Collect
    } else if past_deadline {
        CommandPoll::Terminate
    } else {
        CommandPoll::Wait
    }
}

/// The error of a command that was terminated.
pub fn timed_out(command: &LocalCommand, cwd: &str) -> (r: PlanError)
    ensures
        r.deep_view() == failure(
            "executor "@ + command.deep_view().program + " timed out after "@ + decimal(
                command.timeout_sec as nat,
            ) + "s in "@ + cwd@,
        ),
{
    let start: String = concat5(
        "executor ",
        command.program.as_str(),
        " timed out after ",
        number_text(command.timeout_sec).as_str(),
        "s in ",
    );
    PlanError::new(concat2(start.as_str(), cwd))
}

} // verus!
