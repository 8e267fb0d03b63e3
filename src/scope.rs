use vstd::prelude::*;
use crate::paths::{get_project_command_path, get_user_command_path, project_command_path, user_command_path};

verus! {

/// Where a command's Markdown file lives.
#[derive(Debug, Clone, Copy, PartialEq, Eq, Structural)]
pub enum CommandScope {
    User,
    Project,
}

/// Which of the two command files counts: the project file when a working
/// directory is given and the file exists there, else the user file when it
/// exists, else none.
pub open spec fn located_scope(
    has_working_directory: bool,
    project_exists: bool,
    user_exists: bool,
) -> Option<CommandScope> {
    if has_working_directory && project_exists {
        Some(CommandScope::Project)
    } else if user_exists {
        Some(CommandScope::User)
    } else {
        None
    }
}

/// The path of a command's file in a scope.
pub open spec fn scope_path(
    scope: CommandScope,
    config_dir: Seq<char>,
    working_directory: Option<Seq<char>>,
    name: Seq<char>,
) -> Seq<char> {
    match scope {
        CommandScope::Project => project_command_path(working_directory.unwrap(), name),
        CommandScope::User => user_command_path(config_dir, name),
    }
}

pub open spec fn opt_view(o: Option<&str>) -> Option<Seq<char>> {
    match o {
        Some(s) => Some(s@),
        None => None,
    }
}

/// Determines where a command's Markdown file is, given whether the
/// project-level file (under the working directory) and the user-level file
/// exist. The project file takes precedence.
pub fn get_command_scope(
    command_name: &str,
    config_dir: &str,
    working_directory: Option<&str>,
    project_exists: bool,
    user_exists: bool,
) -> (r: (Option<CommandScope>, Option<String>))
    ensures
        r.0 == located_scope(working_directory is Some, project_exists, user_exists),
        match r.0 {
            Some(s) => r.1 is Some && r.1->0@ == scope_path(s, config_dir@, opt_view(working_directory), command_name@),
            None => r.1 is None,
        },
{
    if let Some(wd) = working_directory {
        if project_exists {
            let p = get_project_command_path(wd, command_name);
            return (Some(CommandScope::Project), Some(p));
        }
    }
    if user_exists {
        let p = get_user_command_path(config_dir, command_name);
        return (Some(CommandScope::User), Some(p));
    }
    (None, None)
}

/// The scope a command is written to: where its file already is; else the
/// requested scope, where Project needs a working directory; else User.
pub open spec fn write_scope(
    has_working_directory: bool,
    project_exists: bool,
    user_exists: bool,
    requested: Option<CommandScope>,
) -> CommandScope {
    match located_scope(has_working_directory, project_exists, user_exists) {
        Some(s) => s,
        None => if requested == Some(CommandScope::Project) && has_working_directory {
            CommandScope::Project
        } else {
            CommandScope::User
        },
    }
}

/// The scope and path where a command's Markdown file is to be written.
pub fn get_command_write_path(
    command_name: &str,
    config_dir: &str,
    working_directory: Option<&str>,
    project_exists: bool,
    user_exists: bool,
    requested_scope: Option<CommandScope>,
) -> (r: (CommandScope, String))
    ensures
        r.0 == write_scope(working_directory is Some, project_exists, user_exists, requested_scope),
        r.1@ == scope_path(r.0, config_dir@, opt_view(working_directory), command_name@),
{
    let (existing_scope, existing_path) = get_command_scope(
        command_name,
        config_dir,
        working_directory,
        project_exists,
        user_exists,
    );
    match (existing_scope, existing_path) {
        (Some(s), Some(p)) => {
            return (s, p);
        },
        _ => {},
    }
    let scope = match requested_scope {
        Some(s) => s,
        None => CommandScope::User,
    };
    if scope == CommandScope::Project {
        if let Some(wd) = working_directory {
            return (CommandScope::Project, get_project_command_path(wd, command_name));
        }
    }
    (CommandScope::User, get_user_command_path(config_dir, command_name))
}

} // verus!
