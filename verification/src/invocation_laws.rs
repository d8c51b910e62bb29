//! What a local command comes to: what is run, where it is found, and what it
//! may know.
use crate::error::{failure, PlanErrorModel};
use crate::invocation::{executable, executable_from, local_command, SearchDirectoryModel};
use crate::paths::{components, is_absolute, joined_path};
use vstd::prelude::*;

verus! {

/// The program is looked up in the directories: it is a name alone.
pub open spec fn is_looked_up(program: Seq<char>) -> bool {
    !is_absolute(program) && components(program).len() <= 1
}

/// The program stands in directory `k`, and in none before it.
pub open spec fn is_first_found(directories: Seq<SearchDirectoryModel>, k: int) -> bool {
    &&& 0 <= k < directories.len()
    &&& directories[k].holds_program
    &&& forall|j: int| 0 <= j < k ==> !(#[trigger] directories[j]).holds_program
}

proof fn program_is_found_from(
    program: Seq<char>,
    directories: Seq<SearchDirectoryModel>,
    i: int,
)
    requires
        0 <= i <= directories.len(),
        forall|j: int| 0 <= j < i ==> !(#[trigger] directories[j]).holds_program,
    ensures
        match executable_from(program, directories, i) {
            Some(path) => exists|k: int| #[trigger]
                is_first_found(directories, k) && path == joined_path(
                    directories[k].directory,
                    program,
                ),
            None => forall|k: int|
                0 <= k < directories.len() ==> !(#[trigger] directories[k]).holds_program,
        },
    decreases directories.len() - i,
{
    if i < directories.len() {
        if directories[i].holds_program {
            assert(is_first_found(directories, i));
        } else {
            program_is_found_from(program, directories, i + 1);
        }
    }
}

/// A program that is given by its path is run as it is. One that is given by its
/// name is run from the first directory that holds it, and not at all where none
/// does or none is known.
pub proof fn programs_are_found_in_order(
    program: Seq<char>,
    search_path: Option<Seq<SearchDirectoryModel>>,
)
    ensures
        !is_looked_up(program) ==> executable(program, search_path) == Ok::<_, PlanErrorModel>(
            program,
        ),
        is_looked_up(program) ==> match search_path {
            None => executable(program, search_path) is Err,
            Some(directories) => match executable(program, search_path) {
                Ok(path) => exists|k: int| #[trigger]
                    is_first_found(directories, k) && path == joined_path(
                        directories[k].directory,
                        program,
                    ),
                Err(_) => forall|k: int|
                    0 <= k < directories.len() ==> !(#[trigger] directories[k]).holds_program,
            },
        },
{
    if let Some(directories) = search_path {
        program_is_found_from(program, directories, 0);
    }
}

/// A command is run exactly where it names a program that is found, its time is
/// not negative and its environment is one of the two that there are. It is run
/// with its other words as arguments and for its time. It knows the whole
/// environment, or only the search path and what it is allowed to know.
pub proof fn commands_are_run_as_configured(
    command: Seq<Seq<char>>,
    search_path: Option<Seq<SearchDirectoryModel>>,
    timeout_sec: i64,
    env_policy: Seq<char>,
    env_allow: Seq<Seq<char>>,
)
    ensures
        ({
            let planned = local_command(command, search_path, timeout_sec, env_policy, env_allow);
            &&& planned is Ok <==> {
                &&& command.len() > 0
                &&& timeout_sec >= 0
                &&& executable(command[0], search_path) is Ok
                &&& env_policy == "allowlist"@ || env_policy == "inherit_all"@
            }
            &&& planned matches Ok(run) ==> {
                &&& run.program == command[0]
                &&& Ok::<_, PlanErrorModel>(run.resolved_program) == executable(
                    command[0],
                    search_path,
                )
                &&& run.args.len() == command.len() - 1
                &&& forall|k: int| 0 <= k < run.args.len() ==> #[trigger] run.args[k]
                    == command[k + 1]
                &&& run.timeout_sec == timeout_sec
                &&& run.clears_environment == (env_policy == "allowlist"@)
                &&& env_policy == "inherit_all"@ ==> run.kept_variables.len() == 0
                &&& env_policy == "allowlist"@ ==> run.kept_variables.len() == env_allow.len() + 1
                    && run.kept_variables[0] == "PATH"@ && forall|k: int|
                    0 <= k < env_allow.len() ==> run.kept_variables[k + 1]
                        == #[trigger] env_allow[k]
            }
            &&& command.len() == 0 ==> planned == Err::<crate::invocation::LocalCommandModel, _>(
                failure("executor command cannot be empty"@),
            )
        }),
{
    reveal_strlit("allowlist");
    reveal_strlit("inherit_all");
    if env_policy == "inherit_all"@ {
        assert("inherit_all"@.len() != "allowlist"@.len());
    }
}

} // verus!
