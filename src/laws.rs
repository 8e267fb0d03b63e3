use vstd::prelude::*;
use crate::fields::FieldValue;
use crate::reconcile::{body_key_of, initial, reconciled, run, step, EntityKind, StoresView};
use crate::scope::{located_scope, CommandScope};

verus! {

/// Setting an ordinary field to a value places that value under the field's
/// name in exactly one store, the Markdown file or the structured record,
/// and leaves the other store as it was.
pub proof fn lemma_value_lands_in_one_store(
    s: StoresView,
    k: Seq<char>,
    v: FieldValue,
    body_key: Seq<char>,
    config_dir: Seq<char>,
)
    requires
        !v.spec_is_null(),
        k != body_key,
    ensures
        step(s, k, v, body_key, config_dir) is Some,
        ({
            let t = step(s, k, v, body_key, config_dir)->0;
            (t.has_frontmatter && t.frontmatter.contains_key(k) && t.frontmatter[k] == v
                && t.structured == s.structured)
            || (t.structured.contains_key(k) && t.structured[k] == v
                && t.frontmatter == s.frontmatter)
        }),
{
}

/// Deleting a field a second time changes nothing and does not fail.
pub proof fn lemma_delete_twice(s: StoresView, k: Seq<char>, body_key: Seq<char>, config_dir: Seq<char>)
    ensures
        step(s, k, FieldValue::Null, body_key, config_dir) is Some,
        ({
            let t = step(s, k, FieldValue::Null, body_key, config_dir)->0;
            step(t, k, FieldValue::Null, body_key, config_dir) == Some(t)
        }),
{
    let t = step(s, k, FieldValue::Null, body_key, config_dir)->0;
    assert(t.frontmatter.remove(k) =~= t.frontmatter);
    assert(t.structured.remove(k) =~= t.structured);
}

pub open spec fn keys_distinct(ups: Seq<(String, FieldValue)>) -> bool {
    forall|i: int, j: int|
        0 <= i < ups.len() && 0 <= j < ups.len() && i != j ==> #[trigger] ups[i].0@ != #[trigger] ups[j].0@
}

/// Every update names a field that the Markdown file defines and the
/// structured record does not, and none names the body field.
pub open spec fn frontmatter_fields_only(
    s: StoresView,
    ups: Seq<(String, FieldValue)>,
    body_key: Seq<char>,
) -> bool {
    forall|i: int| 0 <= i < ups.len() ==> {
        let k = #[trigger] ups[i].0@;
        k != body_key && s.frontmatter.contains_key(k) && !s.structured.contains_key(k)
    }
}

proof fn lemma_run_frontmatter_only(
    s: StoresView,
    ups: Seq<(String, FieldValue)>,
    body_key: Seq<char>,
    config_dir: Seq<char>,
)
    requires
        s.has_frontmatter,
        keys_distinct(ups),
        frontmatter_fields_only(s, ups, body_key),
    ensures
        run(s, ups, body_key, config_dir) is Some,
        run(s, ups, body_key, config_dir)->0.structured == s.structured,
        run(s, ups, body_key, config_dir)->0.structured_modified == s.structured_modified,
    decreases ups.len(),
{
    if ups.len() > 0 {
        let k = ups[0].0@;
        assert(k != body_key && s.frontmatter.contains_key(k) && !s.structured.contains_key(k));
        let t = step(s, k, ups[0].1, body_key, config_dir)->0;
        if ups[0].1.spec_is_null() {
            assert(t.structured =~= s.structured);
        }
        let rest = ups.drop_first();
        assert forall|i: int| 0 <= i < rest.len() implies {
            let kk = #[trigger] rest[i].0@;
            kk != body_key && t.frontmatter.contains_key(kk) && !t.structured.contains_key(kk)
        } by {
            assert(rest[i] == ups[i + 1]);
            assert(ups[i + 1].0@ != ups[0].0@);
        }
        assert forall|i: int, j: int|
            0 <= i < rest.len() && 0 <= j < rest.len() && i != j implies #[trigger] rest[i].0@ != #[trigger] rest[j].0@ by {
            assert(rest[i] == ups[i + 1] && rest[j] == ups[j + 1]);
        }
        lemma_run_frontmatter_only(t, rest, body_key, config_dir);
    }
}

/// An update that only names fields defined in an entity's Markdown file
/// (and not in its structured record) writes no structured record.
pub proof fn lemma_frontmatter_updates_leave_structured(
    kind: EntityKind,
    config_dir: Seq<char>,
    fields: Map<Seq<char>, FieldValue>,
    body: Seq<char>,
    structured: Map<Seq<char>, FieldValue>,
    updates: Seq<(String, FieldValue)>,
)
    requires
        keys_distinct(updates),
        frontmatter_fields_only(initial(kind, Some((fields, body)), structured), updates, body_key_of(kind)),
    ensures
        reconciled(kind, config_dir, Some((fields, body)), structured, updates) is Some,
        !reconciled(kind, config_dir, Some((fields, body)), structured, updates)->0.structured_modified,
        reconciled(kind, config_dir, Some((fields, body)), structured, updates)->0.structured == structured,
{
    lemma_run_frontmatter_only(initial(kind, Some((fields, body)), structured), updates, body_key_of(kind), config_dir);
}

/// An entity that lives in its Markdown file alone keeps an empty
/// structured record through any sequence of updates.
pub proof fn lemma_no_shadow_record(
    s: StoresView,
    ups: Seq<(String, FieldValue)>,
    body_key: Seq<char>,
    config_dir: Seq<char>,
)
    requires
        s.has_frontmatter,
        s.structured == Map::<Seq<char>, FieldValue>::empty(),
    ensures
        run(s, ups, body_key, config_dir) is Some,
        run(s, ups, body_key, config_dir)->0.structured == s.structured,
    decreases ups.len(),
{
    if ups.len() > 0 {
        let t = step(s, ups[0].0@, ups[0].1, body_key, config_dir)->0;
        if ups[0].1.spec_is_null() {
            assert(t.structured =~= s.structured);
        }
        lemma_no_shadow_record(t, ups.drop_first(), body_key, config_dir);
    }
}

/// The value of a field in a store, if the store has it.
pub open spec fn at(m: Map<Seq<char>, FieldValue>, k: Seq<char>) -> Option<FieldValue> {
    if m.contains_key(k) {
        Some(m[k])
    } else {
        None
    }
}

proof fn lemma_run_keeps_other_key(
    s: StoresView,
    ups: Seq<(String, FieldValue)>,
    body_key: Seq<char>,
    config_dir: Seq<char>,
    k: Seq<char>,
)
    requires
        forall|i: int| 0 <= i < ups.len() ==> #[trigger] ups[i].0@ != k,
        run(s, ups, body_key, config_dir) is Some,
    ensures
        ({
            let t = run(s, ups, body_key, config_dir)->0;
            at(t.frontmatter, k) == at(s.frontmatter, k) && at(t.structured, k) == at(s.structured, k)
                && t.has_frontmatter == s.has_frontmatter
                && (s.frontmatter_modified ==> t.frontmatter_modified)
                && (s.structured_modified ==> t.structured_modified)
        }),
    decreases ups.len(),
{
    if ups.len() > 0 {
        assert(ups[0].0@ != k);
        let t = step(s, ups[0].0@, ups[0].1, body_key, config_dir)->0;
        let rest = ups.drop_first();
        assert forall|i: int| 0 <= i < rest.len() implies #[trigger] rest[i].0@ != k by {
            assert(rest[i] == ups[i + 1]);
        }
        lemma_run_keeps_other_key(t, rest, body_key, config_dir, k);
    }
}

proof fn lemma_run_places(
    s: StoresView,
    ups: Seq<(String, FieldValue)>,
    body_key: Seq<char>,
    config_dir: Seq<char>,
    i: int,
)
    requires
        keys_distinct(ups),
        0 <= i < ups.len(),
        !ups[i].1.spec_is_null(),
        ups[i].0@ != body_key,
        run(s, ups, body_key, config_dir) is Some,
    ensures
        ({
            let t = run(s, ups, body_key, config_dir)->0;
            let k = ups[i].0@;
            let v = ups[i].1;
            (t.frontmatter_modified && t.has_frontmatter && at(t.frontmatter, k) == Some(v)
                && at(t.structured, k) == at(s.structured, k))
            || (t.structured_modified && at(t.structured, k) == Some(v)
                && at(t.frontmatter, k) == at(s.frontmatter, k))
        }),
    decreases ups.len(),
{
    let k = ups[i].0@;
    let s1 = step(s, ups[0].0@, ups[0].1, body_key, config_dir)->0;
    let rest = ups.drop_first();
    if i == 0 {
        lemma_value_lands_in_one_store(s, k, ups[0].1, body_key, config_dir);
        assert forall|j: int| 0 <= j < rest.len() implies #[trigger] rest[j].0@ != k by {
            assert(rest[j] == ups[j + 1]);
            assert(ups[j + 1].0@ != ups[0].0@);
        }
        lemma_run_keeps_other_key(s1, rest, body_key, config_dir, k);
    } else {
        assert(ups[0].0@ != k);
        assert(rest[i - 1] == ups[i]);
        assert forall|a: int, b: int|
            0 <= a < rest.len() && 0 <= b < rest.len() && a != b implies #[trigger] rest[a].0@ != #[trigger] rest[b].0@ by {
            assert(rest[a] == ups[a + 1] && rest[b] == ups[b + 1]);
        }
        lemma_run_places(s1, rest, body_key, config_dir, i - 1);
        if ups[0].1.spec_is_null() {
            assert(at(s1.frontmatter, k) == at(s.frontmatter, k));
            assert(at(s1.structured, k) == at(s.structured, k));
        }
    }
}

/// When a reconciliation succeeds, each ordinary field that an update sets
/// to a value holds that value afterwards in exactly one store, whose write
/// is due, while the other store keeps what it had under that name.
pub proof fn lemma_reconcile_places_each_value(
    kind: EntityKind,
    config_dir: Seq<char>,
    frontmatter: Option<(Map<Seq<char>, FieldValue>, Seq<char>)>,
    structured: Map<Seq<char>, FieldValue>,
    updates: Seq<(String, FieldValue)>,
    i: int,
)
    requires
        keys_distinct(updates),
        0 <= i < updates.len(),
        !updates[i].1.spec_is_null(),
        updates[i].0@ != body_key_of(kind),
        reconciled(kind, config_dir, frontmatter, structured, updates) is Some,
    ensures
        ({
            let t = reconciled(kind, config_dir, frontmatter, structured, updates)->0;
            let s = initial(kind, frontmatter, structured);
            let k = updates[i].0@;
            let v = updates[i].1;
            (t.frontmatter_modified && t.has_frontmatter && at(t.frontmatter, k) == Some(v)
                && at(t.structured, k) == at(structured, k))
            || (t.structured_modified && at(t.structured, k) == Some(v)
                && at(t.frontmatter, k) == at(s.frontmatter, k))
        }),
{
    let s = initial(kind, frontmatter, structured);
    lemma_run_places(s, updates, body_key_of(kind), config_dir, i);
    if frontmatter is Some && structured == Map::<Seq<char>, FieldValue>::empty() {
        lemma_no_shadow_record(s, updates, body_key_of(kind), config_dir);
    }
}

/// When the project-level and the user-level file of a command both exist
/// (and a working directory is given), the project-level one counts.
pub proof fn lemma_project_scope_wins(user_exists: bool)
    ensures
        located_scope(true, true, user_exists) == Some(CommandScope::Project),
{
}

} // verus!
