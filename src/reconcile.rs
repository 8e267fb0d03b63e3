use vstd::prelude::*;
use crate::error::ConfigError;
use crate::fields::{FieldValue, Fields};
use crate::frontmatter::FrontmatterDoc;
use crate::reference::{file_reference, is_prompt_file_reference, reference_path, resolve_prompt_file_path};
use crate::text::trimmed;

verus! {

/// The two kinds of entity; they differ in the name of their body field and
/// in whether an update creates a Markdown file that is missing.
#[derive(Debug, Clone, Copy, PartialEq, Eq, Structural)]
pub enum EntityKind {
    Agent,
    Command,
}

/// The field that holds an entity's free text: the body of its Markdown file.
pub open spec fn body_key_of(kind: EntityKind) -> Seq<char> {
    match kind {
        EntityKind::Agent => "prompt"@,
        EntityKind::Command => "template"@,
    }
}

pub fn body_key(kind: EntityKind) -> (r: String)
    ensures
        r@ == body_key_of(kind),
{
    match kind {
        EntityKind::Agent => String::from_str("prompt"),
        EntityKind::Command => String::from_str("template"),
    }
}

/// The text of a value; a value that is not a string reads as empty text.
pub open spec fn text_of(v: FieldValue) -> Seq<char> {
    match v {
        FieldValue::Text(s) => s@,
        _ => Seq::empty(),
    }
}

pub fn into_text(v: FieldValue) -> (r: String)
    ensures
        r@ == text_of(v),
{
    match v {
        FieldValue::Text(s) => s,
        _ => String::new(),
    }
}

/// New content for the file that a body field refers to.
pub struct BodyFileWrite {
    pub path: String,
    pub content: String,
}

/// The state of both stores for one entity while updates are applied.
pub struct Stores {
    /// A Markdown file exists for the entity, or is being created.
    pub has_frontmatter: bool,
    pub frontmatter: FrontmatterDoc,
    pub structured: Fields,
    pub frontmatter_modified: bool,
    pub structured_modified: bool,
    pub body_file: Option<BodyFileWrite>,
}

pub struct StoresView {
    pub has_frontmatter: bool,
    pub frontmatter: Map<Seq<char>, FieldValue>,
    pub body: Seq<char>,
    pub structured: Map<Seq<char>, FieldValue>,
    pub frontmatter_modified: bool,
    pub structured_modified: bool,
    pub body_file: Option<(Seq<char>, Seq<char>)>,
}

impl Stores {
    pub open spec fn view(&self) -> StoresView {
        StoresView {
            has_frontmatter: self.has_frontmatter,
            frontmatter: self.frontmatter.fields@,
            body: self.frontmatter.body@,
            structured: self.structured@,
            frontmatter_modified: self.frontmatter_modified,
            structured_modified: self.structured_modified,
            body_file: match self.body_file {
                Some(w) => Some((w.path@, w.content@)),
                None => None,
            },
        }
    }

    pub open spec fn wf(&self) -> bool {
        self.frontmatter.fields.wf() && self.structured.wf()
    }
}

/// The structured store holds the body field as a file reference.
pub open spec fn body_is_reference(s: StoresView, body_key: Seq<char>) -> bool {
    s.structured.contains_key(body_key) && s.structured[body_key] is Text
        && file_reference(trimmed(text_of(s.structured[body_key]))) is Some
}

/// One update of field `k` to value `v`; `None` when the body field refers
/// to a file by a reference that names none.
pub open spec fn step(
    s: StoresView,
    k: Seq<char>,
    v: FieldValue,
    body_key: Seq<char>,
    config_dir: Seq<char>,
) -> Option<StoresView> {
    if v.spec_is_null() {
        // a deletion: from whichever stores hold the field
        Some(StoresView {
            frontmatter: s.frontmatter.remove(k),
            frontmatter_modified: s.frontmatter_modified || s.frontmatter.contains_key(k),
            structured: s.structured.remove(k),
            structured_modified: s.structured_modified || s.structured.contains_key(k),
            ..s
        })
    } else if k == body_key {
        if s.has_frontmatter {
            Some(StoresView { body: text_of(v), frontmatter_modified: true, ..s })
        } else if body_is_reference(s, body_key) {
            match reference_path(config_dir, text_of(s.structured[body_key])) {
                None => None,
                Some(p) => Some(StoresView { body_file: Some((p, text_of(v))), ..s }),
            }
        } else {
            Some(StoresView { structured: s.structured.insert(k, v), structured_modified: true, ..s })
        }
    } else if s.has_frontmatter && s.frontmatter.contains_key(k) {
        Some(StoresView { frontmatter: s.frontmatter.insert(k, v), frontmatter_modified: true, ..s })
    } else if s.structured.contains_key(k) {
        Some(StoresView { structured: s.structured.insert(k, v), structured_modified: true, ..s })
    } else if s.has_frontmatter && s.structured == Map::<Seq<char>, FieldValue>::empty() {
        // a new field of an entity that lives in its Markdown file alone
        Some(StoresView { frontmatter: s.frontmatter.insert(k, v), frontmatter_modified: true, ..s })
    } else {
        // a new field of an entity with a structured record, or with no Markdown file
        Some(StoresView { structured: s.structured.insert(k, v), structured_modified: true, ..s })
    }
}

/// The updates applied in order, stopping at the first that fails.
pub open spec fn run(
    s: StoresView,
    ups: Seq<(String, FieldValue)>,
    body_key: Seq<char>,
    config_dir: Seq<char>,
) -> Option<StoresView>
    decreases ups.len(),
{
    if ups.len() == 0 {
        Some(s)
    } else {
        match step(s, ups[0].0@, ups[0].1, body_key, config_dir) {
            None => None,
            Some(s2) => run(s2, ups.drop_first(), body_key, config_dir),
        }
    }
}

/// The stores before any update: a command whose Markdown file is missing
/// gets a new, empty one.
pub open spec fn initial(
    kind: EntityKind,
    frontmatter: Option<(Map<Seq<char>, FieldValue>, Seq<char>)>,
    structured: Map<Seq<char>, FieldValue>,
) -> StoresView {
    StoresView {
        has_frontmatter: frontmatter is Some || kind == EntityKind::Command,
        frontmatter: match frontmatter {
            Some(d) => d.0,
            None => Map::empty(),
        },
        body: match frontmatter {
            Some(d) => d.1,
            None => Seq::empty(),
        },
        structured,
        frontmatter_modified: false,
        structured_modified: false,
        body_file: None,
    }
}

/// After the updates: an entity that lived in its Markdown file alone gets
/// no structured record written.
pub open spec fn settle(s: StoresView, frontmatter_existed: bool, had_structured: bool) -> StoresView {
    StoresView {
        structured_modified: s.structured_modified && !(frontmatter_existed && !had_structured),
        ..s
    }
}

/// What `reconcile` produces, or `None` for an invalid file reference.
pub open spec fn reconciled(
    kind: EntityKind,
    config_dir: Seq<char>,
    frontmatter: Option<(Map<Seq<char>, FieldValue>, Seq<char>)>,
    structured: Map<Seq<char>, FieldValue>,
    updates: Seq<(String, FieldValue)>,
) -> Option<StoresView> {
    match run(initial(kind, frontmatter, structured), updates, body_key_of(kind), config_dir) {
        None => None,
        Some(s) => Some(settle(s, frontmatter is Some, structured != Map::<Seq<char>, FieldValue>::empty())),
    }
}

pub open spec fn doc_view(d: Option<FrontmatterDoc>) -> Option<(Map<Seq<char>, FieldValue>, Seq<char>)> {
    match d {
        Some(doc) => Some((doc.fields@, doc.body@)),
        None => None,
    }
}

pub open spec fn doc_wf(d: Option<FrontmatterDoc>) -> bool {
    match d {
        Some(doc) => doc.fields.wf(),
        None => true,
    }
}

impl Stores {
    /// Applies one update of field `k` to value `v`.
    pub fn apply_update(&mut self, k: String, v: FieldValue, body_key: &String, config_dir: &str) -> (r: Result<(), ConfigError>)
        requires
            old(self).wf(),
        ensures
            final(self).wf(),
            match step(old(self)@, k@, v, body_key@, config_dir@) {
                Some(s) => r is Ok && final(self)@ == s,
                None => r == Err::<(), ConfigError>(ConfigError::InvalidReference),
            },
    {
        if v.is_null() {
            if self.frontmatter.fields.remove(&k).is_some() {
                self.frontmatter_modified = true;
            }
            if self.structured.remove(&k).is_some() {
                self.structured_modified = true;
            }
            return Ok(());
        }
        if k == *body_key {
            if self.has_frontmatter {
                self.frontmatter.body = into_text(v);
                self.frontmatter_modified = true;
                return Ok(());
            }
            let mut reference: Option<String> = None;
            match self.structured.get(body_key) {
                Some(FieldValue::Text(current)) => {
                    if is_prompt_file_reference(current.as_str()) {
                        reference = Some(current.clone());
                    }
                },
                _ => {},
            }
            match reference {
                Some(current) => {
                    match resolve_prompt_file_path(current.as_str(), config_dir) {
                        None => {
                            return Err(ConfigError::InvalidReference);
                        },
                        Some(path) => {
                            self.body_file = Some(BodyFileWrite { path, content: into_text(v) });
                            return Ok(());
                        },
                    }
                },
                None => {
                    self.structured.insert(k, v);
                    self.structured_modified = true;
                    return Ok(());
                },
            }
        }
        if self.has_frontmatter && self.frontmatter.fields.contains_key(&k) {
            self.frontmatter.fields.insert(k, v);
            self.frontmatter_modified = true;
        } else if self.structured.contains_key(&k) {
            self.structured.insert(k, v);
            self.structured_modified = true;
        } else if self.has_frontmatter && self.structured.is_empty() {
            self.frontmatter.fields.insert(k, v);
            self.frontmatter_modified = true;
        } else {
            self.structured.insert(k, v);
            self.structured_modified = true;
        }
        Ok(())
    }
}

/// Applies field updates to an entity whose Markdown file (if any) and
/// structured record (empty if none) are given, deciding for each field
/// which store takes it. The result says which stores changed; nothing is
/// written here.
pub fn reconcile(
    kind: EntityKind,
    config_dir: &str,
    frontmatter: Option<FrontmatterDoc>,
    structured: Fields,
    updates: Vec<(String, FieldValue)>,
) -> (r: Result<Stores, ConfigError>)
    requires
        doc_wf(frontmatter),
        structured.wf(),
    ensures
        match reconciled(kind, config_dir@, doc_view(frontmatter), structured@, updates@) {
            Some(s) => r is Ok && r->Ok_0.wf() && r->Ok_0@ == s,
            None => r == Err::<Stores, ConfigError>(ConfigError::InvalidReference),
        },
{
    let ghost all = updates@;
    let ghost init = initial(kind, doc_view(frontmatter), structured@);
    let ghost had = structured@ != Map::<Seq<char>, FieldValue>::empty();
    let existed = frontmatter.is_some();
    let had_structured = !structured.is_empty();
    let has_frontmatter = existed || kind == EntityKind::Command;
    let doc = match frontmatter {
        Some(d) => d,
        None => FrontmatterDoc { fields: Fields::new(), body: String::new() },
    };
    let mut stores = Stores {
        has_frontmatter,
        frontmatter: doc,
        structured,
        frontmatter_modified: false,
        structured_modified: false,
        body_file: None,
    };
    let key = body_key(kind);
    let mut rest = updates;
    proof {
        assert(stores@ == init);
        assert(rest@.subrange(0, rest@.len() as int) =~= rest@);
    }
    while rest.len() > 0
        invariant
            stores.wf(),
            key@ == body_key_of(kind),
            run(stores@, rest@, key@, config_dir@) == run(init, all, key@, config_dir@),
            had == had_structured,
            init == initial(kind, doc_view(frontmatter), structured@),
            all == updates@,
            existed == (doc_view(frontmatter) is Some),
        decreases rest@.len(),
    {
        let ghost before = rest@;
        let ghost s_before = stores@;
        let (k, v) = rest.remove(0);
        proof { assert(rest@ =~= before.drop_first()); }
        let ghost kv = k@;
        let ghost vv = v;
        let res = stores.apply_update(k, v, &key, config_dir);
        if res.is_err() {
            proof {
                assert(before[0].0@ == kv && before[0].1 == vv);
                assert(step(s_before, kv, vv, key@, config_dir@) is None);
                assert(run(s_before, before, key@, config_dir@) is None);
            }
            return Err(ConfigError::InvalidReference);
        }
    }
    if stores.structured_modified && existed && !had_structured {
        stores.structured_modified = false;
    }
    Ok(stores)
}

} // verus!
