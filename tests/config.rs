use opencode_config::error::ConfigError;
use opencode_config::fields::{FieldValue, Fields};
use opencode_config::frontmatter::{
    parse_frontmatter_text, render_frontmatter, split_frontmatter, without_nulls, FrontmatterDoc,
};
use opencode_config::lifecycle::{
    agent_sources, check_create, command_sources, delete_outcome, disabled_record, new_frontmatter,
    DeleteOutcome,
};
use opencode_config::paths::{
    get_agent_dir, get_agent_path, get_command_dir, get_config_backup_file, get_config_file,
    get_project_command_dir, get_project_command_path, get_user_command_path, join_path,
};
use opencode_config::reconcile::{reconcile, EntityKind};
use opencode_config::reference::{is_prompt_file_reference, resolve_prompt_file_path};
use opencode_config::scope::{get_command_scope, get_command_write_path, CommandScope};
use opencode_config::text::{normalize_config_text, strip_json_comments, trim};

fn text(s: &str) -> FieldValue {
    FieldValue::Text(s.to_string())
}

fn num(s: &str) -> FieldValue {
    FieldValue::Number(s.to_string())
}

fn fields(entries: Vec<(&str, FieldValue)>) -> Fields {
    let mut f = Fields::new();
    for (k, v) in entries {
        f.insert(k.to_string(), v);
    }
    f
}

fn updates(entries: Vec<(&str, FieldValue)>) -> Vec<(String, FieldValue)> {
    entries.into_iter().map(|(k, v)| (k.to_string(), v)).collect()
}

fn get<'a>(f: &'a Fields, k: &str) -> Option<&'a FieldValue> {
    f.get(&k.to_string())
}

fn doc(entries: Vec<(&str, FieldValue)>, body: &str) -> FrontmatterDoc {
    FrontmatterDoc { fields: fields(entries), body: body.to_string() }
}

#[test]
fn create_agent_researcher_writes_frontmatter() {
    let config = fields(vec![("prompt", text("Find things")), ("temperature", num("0.2"))]);
    assert!(check_create(false, false, false).is_ok());
    let d = new_frontmatter(EntityKind::Agent, config);
    assert_eq!(d.body, "Find things");
    assert_eq!(d.fields.len(), 1);
    assert_eq!(get(&d.fields, "temperature"), Some(&num("0.2")));
    assert!(!d.fields.contains_key(&"prompt".to_string()));
}

#[test]
fn create_command_drops_scope_selector() {
    let config = fields(vec![
        ("template", text("Run it")),
        ("scope", text("project")),
        ("description", text("d")),
    ]);
    let d = new_frontmatter(EntityKind::Command, config);
    assert_eq!(d.body, "Run it");
    assert_eq!(d.fields.len(), 1);
    assert_eq!(get(&d.fields, "description"), Some(&text("d")));
}

#[test]
fn create_without_body_field_has_empty_body() {
    let d = new_frontmatter(EntityKind::Agent, fields(vec![("model", text("m"))]));
    assert_eq!(d.body, "");
    assert_eq!(d.fields.len(), 1);
}

#[test]
fn create_conflicts_are_already_exists() {
    assert_eq!(check_create(true, false, false), Err(ConfigError::AlreadyExists));
    assert_eq!(check_create(false, true, false), Err(ConfigError::AlreadyExists));
    assert_eq!(check_create(false, false, true), Err(ConfigError::AlreadyExists));
}

#[test]
fn update_agent_delete_temperature_from_frontmatter() {
    let md = doc(vec![("temperature", num("0.2"))], "Find things");
    let r = reconcile(
        EntityKind::Agent,
        "/cfg",
        Some(md),
        Fields::new(),
        updates(vec![("temperature", FieldValue::Null)]),
    )
    .unwrap();
    assert!(r.frontmatter_modified);
    assert!(!r.structured_modified);
    assert!(r.frontmatter.fields.is_empty());
    assert_eq!(r.frontmatter.body, "Find things");
    let rendered = render_frontmatter("{}\n", &r.frontmatter.body);
    assert!(!rendered.contains("temperature"));
}

#[test]
fn delete_twice_is_a_no_op() {
    let md = doc(vec![("temperature", num("0.2")), ("model", text("m"))], "b");
    let r = reconcile(
        EntityKind::Agent,
        "/cfg",
        Some(md),
        Fields::new(),
        updates(vec![("temperature", FieldValue::Null)]),
    )
    .unwrap();
    let again = reconcile(
        EntityKind::Agent,
        "/cfg",
        Some(r.frontmatter),
        r.structured,
        updates(vec![("temperature", FieldValue::Null)]),
    )
    .unwrap();
    assert!(!again.frontmatter_modified);
    assert!(!again.structured_modified);
    assert_eq!(again.frontmatter.fields.len(), 1);
}

#[test]
fn delete_missing_command_is_not_found() {
    assert_eq!(delete_outcome(EntityKind::Command, false), Err(ConfigError::NotFound));
}

#[test]
fn delete_missing_agent_disables_it() {
    assert_eq!(delete_outcome(EntityKind::Agent, false), Ok(DeleteOutcome::Disabled));
    let rec = disabled_record();
    assert_eq!(rec.len(), 1);
    assert_eq!(get(&rec, "disable"), Some(&FieldValue::Bool(true)));
}

#[test]
fn delete_found_somewhere_is_deleted() {
    assert_eq!(delete_outcome(EntityKind::Agent, true), Ok(DeleteOutcome::Deleted));
    assert_eq!(delete_outcome(EntityKind::Command, true), Ok(DeleteOutcome::Deleted));
}

#[test]
fn prompt_reference_writes_the_referenced_file() {
    let st = fields(vec![("prompt", text("{file:./prompts/a.txt}"))]);
    let r = reconcile(
        EntityKind::Agent,
        "/home/u/.config/opencode",
        None,
        st,
        updates(vec![("prompt", text("new text"))]),
    )
    .unwrap();
    let w = r.body_file.unwrap();
    assert_eq!(w.path, "/home/u/.config/opencode/prompts/a.txt");
    assert_eq!(w.content, "new text");
    assert!(!r.structured_modified);
    assert!(!r.frontmatter_modified);
    assert_eq!(get(&r.structured, "prompt"), Some(&text("{file:./prompts/a.txt}")));
}

#[test]
fn empty_reference_target_is_invalid() {
    let st = fields(vec![("prompt", text("{file:   }"))]);
    let r = reconcile(EntityKind::Agent, "/cfg", None, st, updates(vec![("prompt", text("x"))]));
    assert!(matches!(r, Err(ConfigError::InvalidReference)));
}

#[test]
fn new_field_goes_to_frontmatter_when_only_md_exists() {
    let md = doc(vec![("model", text("m"))], "b");
    let r = reconcile(
        EntityKind::Agent,
        "/cfg",
        Some(md),
        Fields::new(),
        updates(vec![("temperature", num("1"))]),
    )
    .unwrap();
    assert!(r.frontmatter_modified);
    assert!(!r.structured_modified);
    assert_eq!(get(&r.frontmatter.fields, "temperature"), Some(&num("1")));
}

#[test]
fn new_field_goes_to_structured_when_both_exist() {
    let md = doc(vec![("model", text("m"))], "b");
    let st = fields(vec![("tools", FieldValue::Bool(true))]);
    let r = reconcile(EntityKind::Agent, "/cfg", Some(md), st, updates(vec![("temperature", num("1"))]))
        .unwrap();
    assert!(!r.frontmatter_modified);
    assert!(r.structured_modified);
    assert_eq!(get(&r.structured, "temperature"), Some(&num("1")));
    assert!(!r.frontmatter.fields.contains_key(&"temperature".to_string()));
}

#[test]
fn existing_structured_field_is_updated_in_place() {
    let md = doc(vec![("model", text("m"))], "b");
    let st = fields(vec![("tools", FieldValue::Bool(true))]);
    let r = reconcile(EntityKind::Agent, "/cfg", Some(md), st, updates(vec![("tools", FieldValue::Bool(false))]))
        .unwrap();
    assert!(r.structured_modified);
    assert!(!r.frontmatter_modified);
    assert_eq!(get(&r.structured, "tools"), Some(&FieldValue::Bool(false)));
}

#[test]
fn builtin_agent_without_any_record_gets_structured_field() {
    let r = reconcile(EntityKind::Agent, "/cfg", None, Fields::new(), updates(vec![("model", text("x"))]))
        .unwrap();
    assert!(r.structured_modified);
    assert!(!r.has_frontmatter);
    assert_eq!(get(&r.structured, "model"), Some(&text("x")));
}

#[test]
fn agent_prompt_with_frontmatter_replaces_body() {
    let md = doc(vec![], "old");
    let r = reconcile(EntityKind::Agent, "/cfg", Some(md), Fields::new(), updates(vec![("prompt", text("new"))]))
        .unwrap();
    assert_eq!(r.frontmatter.body, "new");
    assert!(r.frontmatter_modified);
    assert!(!r.structured_modified);
}

#[test]
fn agent_inline_prompt_goes_to_structured() {
    let st = fields(vec![("prompt", text("inline"))]);
    let r = reconcile(EntityKind::Agent, "/cfg", None, st, updates(vec![("prompt", text("changed"))])).unwrap();
    assert!(r.structured_modified);
    assert_eq!(get(&r.structured, "prompt"), Some(&text("changed")));
    assert!(r.body_file.is_none());
}

#[test]
fn command_without_file_gets_new_frontmatter_body() {
    let r = reconcile(EntityKind::Command, "/cfg", None, Fields::new(), updates(vec![("template", text("Do it"))]))
        .unwrap();
    assert!(r.has_frontmatter);
    assert!(r.frontmatter_modified);
    assert_eq!(r.frontmatter.body, "Do it");
    assert!(!r.structured_modified);
}

#[test]
fn zero_updates_modify_nothing() {
    let md = doc(vec![("model", text("m"))], "b");
    let r = reconcile(EntityKind::Agent, "/cfg", Some(md), Fields::new(), Vec::new()).unwrap();
    assert!(!r.frontmatter_modified);
    assert!(!r.structured_modified);
}

#[test]
fn frontmatter_only_update_writes_no_structured_record() {
    let md = doc(vec![("model", text("m")), ("temperature", num("0.1"))], "b");
    let st = fields(vec![("tools", FieldValue::Bool(true))]);
    let r = reconcile(
        EntityKind::Agent,
        "/cfg",
        Some(md),
        st,
        updates(vec![("model", text("n")), ("temperature", FieldValue::Null)]),
    )
    .unwrap();
    assert!(!r.structured_modified);
    assert_eq!(get(&r.frontmatter.fields, "model"), Some(&text("n")));
    assert_eq!(r.structured.len(), 1);
}

#[test]
fn project_scope_takes_precedence() {
    let (scope, path) = get_command_scope("build", "/cfg", Some("/work"), true, true);
    assert_eq!(scope, Some(CommandScope::Project));
    assert_eq!(path.unwrap(), "/work/.opencode/command/build.md");
}

#[test]
fn user_scope_when_no_project_file() {
    let (scope, path) = get_command_scope("build", "/cfg", Some("/work"), false, true);
    assert_eq!(scope, Some(CommandScope::User));
    assert_eq!(path.unwrap(), "/cfg/command/build.md");
    let (scope, path) = get_command_scope("build", "/cfg", None, true, true);
    assert_eq!(scope, Some(CommandScope::User));
    assert_eq!(path.unwrap(), "/cfg/command/build.md");
    assert_eq!(get_command_scope("build", "/cfg", None, false, false), (None, None));
}

#[test]
fn write_path_follows_existing_then_request() {
    let (s, p) = get_command_write_path("c", "/cfg", Some("/w"), false, true, Some(CommandScope::Project));
    assert_eq!((s, p.as_str()), (CommandScope::User, "/cfg/command/c.md"));
    let (s, p) = get_command_write_path("c", "/cfg", Some("/w"), false, false, Some(CommandScope::Project));
    assert_eq!((s, p.as_str()), (CommandScope::Project, "/w/.opencode/command/c.md"));
    let (s, _) = get_command_write_path("c", "/cfg", None, false, false, Some(CommandScope::Project));
    assert_eq!(s, CommandScope::User);
    let (s, _) = get_command_write_path("c", "/cfg", Some("/w"), false, false, None);
    assert_eq!(s, CommandScope::User);
}

#[test]
fn paths_are_joined_under_the_config_dir() {
    assert_eq!(get_agent_dir("/cfg"), "/cfg/agent");
    assert_eq!(get_command_dir("/cfg/"), "/cfg/command");
    assert_eq!(get_config_file("/cfg"), "/cfg/opencode.json");
    assert_eq!(get_config_backup_file("/cfg"), "/cfg/opencode.json.openchamber.backup");
    assert_eq!(get_agent_path("/cfg", "researcher"), "/cfg/agent/researcher.md");
    assert_eq!(get_project_command_dir("/w"), "/w/.opencode/command");
    assert_eq!(get_project_command_path("/w", "x"), "/w/.opencode/command/x.md");
    assert_eq!(get_user_command_path("/cfg", "x"), "/cfg/command/x.md");
    assert_eq!(join_path("", "a"), "/a");
}

#[test]
fn file_references_are_recognised() {
    assert!(is_prompt_file_reference("{file:./a.txt}"));
    assert!(is_prompt_file_reference("  {FILE:a.txt}\n"));
    assert!(!is_prompt_file_reference("{file:}"));
    assert!(!is_prompt_file_reference("file:a.txt"));
    assert!(!is_prompt_file_reference("{file:a\nb}"));
}

#[test]
fn references_resolve_relative_and_absolute() {
    assert_eq!(resolve_prompt_file_path("{file:./p/a.txt}", "/cfg").unwrap(), "/cfg/p/a.txt");
    assert_eq!(resolve_prompt_file_path("{file: p/a.txt }", "/cfg").unwrap(), "/cfg/p/a.txt");
    assert_eq!(resolve_prompt_file_path("{file:/abs/a.txt}", "/cfg").unwrap(), "/abs/a.txt");
    assert_eq!(resolve_prompt_file_path("{file:  }", "/cfg"), None);
    assert_eq!(resolve_prompt_file_path("plain", "/cfg"), None);
}

#[test]
fn comments_are_stripped_outside_strings() {
    let src = "{\n  // note\n  \"a\": \"x//y\", /* block */ \"b\": 1\n}";
    assert_eq!(strip_json_comments(src), "{\n  \n  \"a\": \"x//y\",  \"b\": 1\n}");
    assert_eq!(strip_json_comments("\"a\\\"//b\" // c"), "\"a\\\"//b\" ");
    assert_eq!(strip_json_comments("1 / 2"), "1 / 2");
    assert_eq!(strip_json_comments("x/"), "x/");
    assert_eq!(strip_json_comments("a /*/ b */c"), "a c");
}

#[test]
fn normalized_config_text_is_trimmed() {
    assert_eq!(normalize_config_text("  // only a comment\n  "), "");
    assert_eq!(normalize_config_text("\n{ } /* end */ \n"), "{ }");
}

#[test]
fn trim_removes_unicode_whitespace() {
    assert_eq!(trim("\u{a0} a b\t\n"), "a b");
    assert_eq!(trim("   "), "");
}

#[test]
fn frontmatter_is_split_at_the_first_delimiter() {
    let (block, rest) = split_frontmatter("---\na: 1\n---\n\nBody\n---\nmore").unwrap();
    assert_eq!(block, "a: 1");
    assert_eq!(rest, "\nBody\n---\nmore");
    let (block, rest) = split_frontmatter("---\r\nb: 2\r\n---\r\nx").unwrap();
    assert_eq!(block, "b: 2");
    assert_eq!(rest, "x");
    assert_eq!(split_frontmatter("no frontmatter"), None);
    assert_eq!(split_frontmatter("---\nunterminated"), None);
}

#[test]
fn text_without_frontmatter_is_all_body() {
    let (block, body) = parse_frontmatter_text("  just text \n");
    assert_eq!(block, None);
    assert_eq!(body, "just text");
    let (block, body) = parse_frontmatter_text("---\nk: v\n---\n\n  Body \n");
    assert_eq!(block.unwrap(), "k: v");
    assert_eq!(body, "Body");
}

#[test]
fn rendered_frontmatter_reads_back() {
    let rendered = render_frontmatter("temperature: 0.2\n", "Find things");
    assert_eq!(rendered, "---\ntemperature: 0.2\n---\n\nFind things");
    let (block, body) = parse_frontmatter_text(&rendered);
    assert_eq!(block.unwrap(), "temperature: 0.2");
    assert_eq!(body, "Find things");
}

#[test]
fn null_fields_are_dropped() {
    let f = fields(vec![("a", FieldValue::Null), ("b", num("2")), ("c", FieldValue::Null)]);
    let r = without_nulls(f);
    assert_eq!(r.len(), 1);
    assert_eq!(get(&r, "b"), Some(&num("2")));
}

#[test]
fn field_map_insert_replace_remove() {
    let mut f = Fields::new();
    f.insert("a".to_string(), num("1"));
    f.insert("b".to_string(), num("2"));
    f.insert("a".to_string(), num("3"));
    assert_eq!(f.len(), 2);
    assert_eq!(get(&f, "a"), Some(&num("3")));
    assert_eq!(f.remove(&"a".to_string()), Some(num("3")));
    assert_eq!(f.remove(&"a".to_string()), None);
    assert_eq!(f.keys(), vec!["b".to_string()]);
}

#[test]
fn agent_sources_lists_fields_of_both_stores() {
    let md = doc(vec![("model", text("m"))], "  body ");
    let s = agent_sources("/cfg/agent/a.md".to_string(), Some(&md), "/cfg/opencode.json".to_string(), true, vec!["tools".to_string()]);
    assert!(s.md.exists);
    assert_eq!(s.md.path.as_deref(), Some("/cfg/agent/a.md"));
    let mut names = s.md.fields.clone();
    names.sort();
    assert_eq!(names, vec!["model".to_string(), "prompt".to_string()]);
    assert!(s.json.exists);
    assert_eq!(s.json.fields, vec!["tools".to_string()]);
    assert!(s.project_md.is_none());
}

#[test]
fn command_sources_reports_both_locations() {
    let md = doc(vec![], "");
    let s = command_sources("c", "/cfg", Some("/w"), true, true, Some(&md), "/cfg/opencode.json".to_string(), false, vec![]);
    assert_eq!(s.md.scope, Some(CommandScope::Project));
    assert_eq!(s.md.path.as_deref(), Some("/w/.opencode/command/c.md"));
    assert!(s.md.fields.is_empty());
    let p = s.project_md.unwrap();
    assert!(p.exists);
    let u = s.user_md.unwrap();
    assert!(u.exists);
    assert_eq!(u.path.as_deref(), Some("/cfg/command/c.md"));
}
