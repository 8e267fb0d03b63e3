use vstd::prelude::*;
use crate::error::ConfigError;
use crate::fields::{FieldValue, Fields};
use crate::frontmatter::FrontmatterDoc;
use crate::reconcile::{body_key, body_key_of, into_text, text_of, EntityKind};
use crate::scope::{get_command_scope, located_scope, opt_view, scope_path, CommandScope};
use crate::text::{trim, trimmed};

verus! {

/// A new entity may be created only where no Markdown file (at any checked
/// location) and no structured record of that name exist.
pub fn check_create(
    project_md_exists: bool,
    user_md_exists: bool,
    in_structured: bool,
) -> (r: Result<(), ConfigError>)
    ensures
        r is Ok <==> !(project_md_exists || user_md_exists || in_structured),
        r is Err ==> r == Err::<(), ConfigError>(ConfigError::AlreadyExists),
{
    if project_md_exists || user_md_exists || in_structured {
        Err(ConfigError::AlreadyExists)
    } else {
        Ok(())
    }
}

/// The fields that a new entity's Markdown file holds: the given ones but
/// the body field and, for a command, the `scope` selector.
pub open spec fn created_fields(kind: EntityKind, config: Map<Seq<char>, FieldValue>) -> Map<Seq<char>, FieldValue> {
    match kind {
        EntityKind::Agent => config.remove(body_key_of(kind)),
        EntityKind::Command => config.remove(body_key_of(kind)).remove("scope"@),
    }
}

/// The body of a new entity's Markdown file: the body field's text, or
/// empty text.
pub open spec fn created_body(kind: EntityKind, config: Map<Seq<char>, FieldValue>) -> Seq<char> {
    if config.contains_key(body_key_of(kind)) {
        text_of(config[body_key_of(kind)])
    } else {
        Seq::empty()
    }
}

/// The Markdown file of a new entity made from the given fields.
pub fn new_frontmatter(kind: EntityKind, config: Fields) -> (r: FrontmatterDoc)
    requires
        config.wf(),
    ensures
        r.wf(),
        r.fields@ == created_fields(kind, config@),
        r.body@ == created_body(kind, config@),
{
    let mut fields = config;
    let key = body_key(kind);
    let body = match fields.remove(&key) {
        Some(v) => into_text(v),
        None => String::new(),
    };
    match kind {
        EntityKind::Command => {
            let scope_key = String::from_str("scope");
            fields.remove(&scope_key);
        },
        EntityKind::Agent => {},
    }
    FrontmatterDoc { fields, body }
}

/// What a deletion that found something to remove, or nothing, comes to.
#[derive(Debug, Clone, Copy, PartialEq, Eq, Structural)]
pub enum DeleteOutcome {
    /// The entity was removed from at least one location.
    Deleted,
    /// Nothing was found: the built-in agent is to be disabled.
    Disabled,
}

/// After removing an entity from every location: an agent found nowhere is
/// disabled instead; a command found nowhere is an error.
pub fn delete_outcome(kind: EntityKind, removed_any: bool) -> (r: Result<DeleteOutcome, ConfigError>)
    ensures
        removed_any ==> r == Ok::<DeleteOutcome, ConfigError>(DeleteOutcome::Deleted),
        !removed_any && kind == EntityKind::Agent ==> r == Ok::<DeleteOutcome, ConfigError>(DeleteOutcome::Disabled),
        !removed_any && kind == EntityKind::Command ==> r == Err::<DeleteOutcome, ConfigError>(ConfigError::NotFound),
{
    if removed_any {
        Ok(DeleteOutcome::Deleted)
    } else {
        match kind {
            EntityKind::Agent => Ok(DeleteOutcome::Disabled),
            EntityKind::Command => Err(ConfigError::NotFound),
        }
    }
}

/// The structured record that disables a built-in agent: `{disable: true}`.
pub fn disabled_record() -> (r: Fields)
    ensures
        r.wf(),
        r@ == Map::<Seq<char>, FieldValue>::empty().insert("disable"@, FieldValue::Bool(true)),
{
    let mut r = Fields::new();
    r.insert(String::from_str("disable"), FieldValue::Bool(true));
    r
}

/// Where one store of an entity stands.
pub struct SourceInfo {
    pub exists: bool,
    pub path: Option<String>,
    pub fields: Vec<String>,
    pub scope: Option<CommandScope>,
}

/// Whether a command's file exists at one location, and where that is.
pub struct MdLocationInfo {
    pub exists: bool,
    pub path: Option<String>,
}

/// Where an entity's configuration is stored.
pub struct ConfigSources {
    pub md: SourceInfo,
    pub json: SourceInfo,
    pub project_md: Option<MdLocationInfo>,
    pub user_md: Option<MdLocationInfo>,
}

pub open spec fn names(v: Seq<String>) -> Set<Seq<char>> {
    Set::new(|k: Seq<char>| exists|i: int| 0 <= i < v.len() && #[trigger] v[i]@ == k)
}

/// The fields that a Markdown file defines: those of its frontmatter, and
/// the body field when the body holds more than whitespace.
pub open spec fn md_field_names(doc: FrontmatterDoc, body_key: Seq<char>) -> Set<Seq<char>> {
    if trimmed(doc.body@).len() > 0 {
        doc.fields@.dom().insert(body_key)
    } else {
        doc.fields@.dom()
    }
}

/// The names of the fields that a Markdown file defines.
pub fn frontmatter_field_names(doc: &FrontmatterDoc, body_key: &String) -> (r: Vec<String>)
    requires
        doc.wf(),
    ensures
        names(r@) == md_field_names(*doc, body_key@),
{
    let mut r = doc.fields.keys();
    let ghost before = r@;
    let t = trim(doc.body.as_str());
    if t.as_str().unicode_len() > 0 {
        r.push(body_key.clone());
        proof {
            assert(names(r@) =~= md_field_names(*doc, body_key@)) by {
                assert forall|k: Seq<char>| names(r@).contains(k) implies md_field_names(*doc, body_key@).contains(k) by {
                    let i = choose|i: int| 0 <= i < r@.len() && #[trigger] r@[i]@ == k;
                    if i < before.len() {
                        assert(before[i] == r@[i]);
                    }
                }
                assert forall|k: Seq<char>| md_field_names(*doc, body_key@).contains(k) implies names(r@).contains(k) by {
                    if k == body_key@ {
                        assert(r@[before.len() as int]@ == k);
                    } else {
                        let i = choose|i: int| 0 <= i < before.len() && #[trigger] before[i]@ == k;
                        assert(r@[i] == before[i]);
                    }
                }
            }
        }
    } else {
        proof {
            assert(names(r@) =~= md_field_names(*doc, body_key@));
        }
    }
    r
}

pub open spec fn fields_of(md: Option<&FrontmatterDoc>, body_key: Seq<char>) -> Set<Seq<char>> {
    match md {
        Some(d) => md_field_names(*d, body_key),
        None => Set::empty(),
    }
}

fn md_names(md: Option<&FrontmatterDoc>, key: &String) -> (r: Vec<String>)
    requires
        match md {
            Some(d) => d.wf(),
            None => true,
        },
    ensures
        names(r@) == fields_of(md, key@),
{
    match md {
        Some(d) => frontmatter_field_names(d, key),
        None => {
            let r: Vec<String> = Vec::new();
            proof { assert(names(r@) =~= Set::<Seq<char>>::empty()); }
            r
        },
    }
}

/// Where an agent's configuration is stored: its Markdown file at `md_path`
/// (read into `md` when it exists) and its structured record, whose
/// presence and field names are given.
pub fn agent_sources(
    md_path: String,
    md: Option<&FrontmatterDoc>,
    config_file: String,
    json_exists: bool,
    json_fields: Vec<String>,
) -> (r: ConfigSources)
    requires
        match md {
            Some(d) => d.wf(),
            None => true,
        },
    ensures
        r.md.exists == md is Some,
        (md is Some ==> r.md.path == Some(md_path)),
        (md is None ==> r.md.path is None),
        names(r.md.fields@) == fields_of(md, "prompt"@),
        r.md.scope is None,
        r.json.exists == json_exists,
        r.json.path == Some(config_file),
        r.json.fields == json_fields,
        r.json.scope is None,
        r.project_md is None,
        r.user_md is None,
{
    let key = body_key(EntityKind::Agent);
    let fields = md_names(md, &key);
    let path = if md.is_some() { Some(md_path) } else { None };
    ConfigSources {
        md: SourceInfo { exists: md.is_some(), path, fields, scope: None },
        json: SourceInfo { exists: json_exists, path: Some(config_file), fields: json_fields, scope: None },
        project_md: None,
        user_md: None,
    }
}

/// Where a command's configuration is stored: the project-level and the
/// user-level Markdown file (whether each exists, and the one that counts,
/// read into `md`) and the structured record, whose presence and field
/// names are given.
pub fn command_sources(
    command_name: &str,
    config_dir: &str,
    working_directory: Option<&str>,
    project_exists: bool,
    user_exists: bool,
    md: Option<&FrontmatterDoc>,
    config_file: String,
    json_exists: bool,
    json_fields: Vec<String>,
) -> (r: ConfigSources)
    requires
        match md {
            Some(d) => d.wf(),
            None => true,
        },
    ensures
        r.md.exists == (located_scope(working_directory is Some, project_exists, user_exists) is Some),
        r.md.scope == located_scope(working_directory is Some, project_exists, user_exists),
        match r.md.scope {
            Some(s) => r.md.path is Some
                && r.md.path->0@ == scope_path(s, config_dir@, opt_view(working_directory), command_name@),
            None => r.md.path is None,
        },
        names(r.md.fields@) == (if r.md.exists { fields_of(md, "template"@) } else { Set::empty() }),
        r.json.exists == json_exists,
        r.json.path == Some(config_file),
        r.json.fields == json_fields,
        r.json.scope is None,
        r.project_md is Some,
        r.project_md->0.exists == (working_directory is Some && project_exists),
        r.project_md->0.path is Some == working_directory is Some,
        working_directory is Some ==> r.project_md->0.path->0@ == scope_path(
            CommandScope::Project, config_dir@, opt_view(working_directory), command_name@),
        r.user_md is Some,
        r.user_md->0.exists == user_exists,
        r.user_md->0.path is Some,
        r.user_md->0.path->0@ == scope_path(CommandScope::User, config_dir@, opt_view(working_directory), command_name@),
{
    let (scope, path) = get_command_scope(command_name, config_dir, working_directory, project_exists, user_exists);
    let key = body_key(EntityKind::Command);
    let md_exists = scope.is_some();
    let fields = if md_exists {
        md_names(md, &key)
    } else {
        let r: Vec<String> = Vec::new();
        proof { assert(names(r@) =~= Set::<Seq<char>>::empty()); }
        r
    };
    let project_path = match working_directory {
        Some(wd) => Some(crate::paths::get_project_command_path(wd, command_name)),
        None => None,
    };
    let user_path = crate::paths::get_user_command_path(config_dir, command_name);
    let project_exists_here = working_directory.is_some() && project_exists;
    ConfigSources {
        md: SourceInfo { exists: md_exists, path, fields, scope },
        json: SourceInfo { exists: json_exists, path: Some(config_file), fields: json_fields, scope: None },
        project_md: Some(MdLocationInfo { exists: project_exists_here, path: project_path }),
        user_md: Some(MdLocationInfo { exists: user_exists, path: Some(user_path) }),
    }
}

} // verus!
