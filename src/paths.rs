use vstd::prelude::*;
use crate::text::{chars_of, string_of};

verus! {

/// A path under a directory: one separator between them, none added when
/// the directory already ends with one.
pub open spec fn join(dir: Seq<char>, name: Seq<char>) -> Seq<char> {
    if dir.len() > 0 && dir.last() == '/' {
        dir + name
    } else {
        dir + seq!['/'] + name
    }
}

/// The path of `name` under `dir`.
pub fn join_path(dir: &str, name: &str) -> (r: String)
    ensures
        r@ == join(dir@, name@),
{
    let mut v = chars_of(dir);
    let n = v.len();
    if n == 0 || v[n - 1] != '/' {
        v.push('/');
    }
    let w = chars_of(name);
    let ghost head = v@;
    let mut i: usize = 0;
    while i < w.len()
        invariant
            i <= w@.len(),
            v@ == head + w@.subrange(0, i as int),
        decreases w@.len() - i,
    {
        v.push(w[i]);
        i = i + 1;
        proof { assert(v@ =~= head + w@.subrange(0, i as int)); }
    }
    proof {
        assert(w@.subrange(0, w@.len() as int) =~= w@);
        assert(v@ =~= join(dir@, name@));
    }
    string_of(&v)
}

/// The file name of an entity's Markdown file.
pub open spec fn md_name(name: Seq<char>) -> Seq<char> {
    name + seq!['.', 'm', 'd']
}

fn md_file_name(name: &str) -> (r: String)
    ensures
        r@ == md_name(name@),
{
    let mut v = chars_of(name);
    v.push('.');
    v.push('m');
    v.push('d');
    string_of(&v)
}

pub fn get_agent_dir(config_dir: &str) -> (r: String)
    ensures
        r@ == join(config_dir@, "agent"@),
{
    join_path(config_dir, "agent")
}

pub fn get_command_dir(config_dir: &str) -> (r: String)
    ensures
        r@ == join(config_dir@, "command"@),
{
    join_path(config_dir, "command")
}

pub fn get_config_file(config_dir: &str) -> (r: String)
    ensures
        r@ == join(config_dir@, "opencode.json"@),
{
    join_path(config_dir, "opencode.json")
}

/// Where the structured document is copied before it is overwritten.
pub fn get_config_backup_file(config_dir: &str) -> (r: String)
    ensures
        r@ == join(config_dir@, "opencode.json.openchamber.backup"@),
{
    join_path(config_dir, "opencode.json.openchamber.backup")
}

pub fn get_agent_path(config_dir: &str, agent_name: &str) -> (r: String)
    ensures
        r@ == join(join(config_dir@, "agent"@), md_name(agent_name@)),
{
    let dir = get_agent_dir(config_dir);
    let file = md_file_name(agent_name);
    join_path(dir.as_str(), file.as_str())
}

pub fn get_project_command_dir(working_directory: &str) -> (r: String)
    ensures
        r@ == join(join(working_directory@, ".opencode"@), "command"@),
{
    let base = join_path(working_directory, ".opencode");
    join_path(base.as_str(), "command")
}

pub open spec fn project_command_path(wd: Seq<char>, name: Seq<char>) -> Seq<char> {
    join(join(join(wd, ".opencode"@), "command"@), md_name(name))
}

pub open spec fn user_command_path(config_dir: Seq<char>, name: Seq<char>) -> Seq<char> {
    join(join(config_dir, "command"@), md_name(name))
}

pub fn get_project_command_path(working_directory: &str, command_name: &str) -> (r: String)
    ensures
        r@ == project_command_path(working_directory@, command_name@),
{
    let dir = get_project_command_dir(working_directory);
    let file = md_file_name(command_name);
    join_path(dir.as_str(), file.as_str())
}

pub fn get_user_command_path(config_dir: &str, command_name: &str) -> (r: String)
    ensures
        r@ == user_command_path(config_dir@, command_name@),
{
    let dir = get_command_dir(config_dir);
    let file = md_file_name(command_name);
    join_path(dir.as_str(), file.as_str())
}

} // verus!
