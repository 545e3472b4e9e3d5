//! The schema guard's own rules: what a violation says, which schema
//! documents may be registered, and when an instance passes.
//!
//! Callers retry once "with the
//! violation attached", so a violation says where and what.
use vstd::prelude::*;

use crate::chars::{append_str, join, join_strings, string_views};

verus! {

/// One reason an instance failed its schema.
#[derive(Debug, Clone, PartialEq, Eq)]
pub struct Violation {
    /// JSON pointer to the offending location in the instance.
    pub instance_path: String,
    /// JSON pointer to the keyword in the schema that rejected it.
    pub schema_path: String,
    pub message: String,
}

impl Violation {
    /// What a violation reads as: `<path>: <message>`, the root written as `/`.
    pub open spec fn rendered(self) -> Seq<char> {
        (if self.instance_path@.len() == 0 {
            "/"@
        } else {
            self.instance_path@
        }) + ": "@ + self.message@
    }

    /// `<path>: <message>`, with the root written as `/`.
    pub fn render(&self) -> (s: String)
        ensures
            s@ == self.rendered(),
    {
        let mut s = String::new();
        if self.instance_path.as_str().is_empty() {
            append_str(&mut s, "/");
        } else {
            append_str(&mut s, self.instance_path.as_str());
        }
        append_str(&mut s, ": ");
        append_str(&mut s, self.message.as_str());
        s
    }
}

/// Why the guard refused.
#[derive(Debug, Clone, PartialEq, Eq)]
pub enum SchemaError {
    /// No schema is registered under this id.
    Unknown(String),
    /// A schema document could not be registered.
    Compile { id: String, message: String },
    /// The instance failed its schema, for these reasons.
    Invalid { id: String, violations: Vec<Violation> },
    /// The instance is not the JSON it should be.
    Json(String),
}

pub open spec fn renderings(v: Seq<Violation>) -> Seq<Seq<char>> {
    v.map_values(|x: Violation| x.rendered())
}

impl SchemaError {
    /// The sentence this error reads as.
    pub open spec fn message_spec(&self) -> Seq<char> {
        match self {
            SchemaError::Unknown(id) => "no schema registered under `"@ + id@ + "`"@,
            SchemaError::Compile { id, message } => "schema `"@ + id@ + "` failed to compile: "@
                + message@,
            SchemaError::Invalid { id, violations } => "`"@ + id@ + "` rejected the instance: "@
                + join(renderings(violations@), "; "@),
            SchemaError::Json(d) => "json: "@ + d@,
        }
    }

    pub fn message(&self) -> (m: String)
        ensures
            m@ == self.message_spec(),
    {
        let mut m = String::new();
        match self {
            SchemaError::Unknown(id) => {
                append_str(&mut m, "no schema registered under `");
                append_str(&mut m, id.as_str());
                append_str(&mut m, "`");
            },
            SchemaError::Compile { id, message } => {
                append_str(&mut m, "schema `");
                append_str(&mut m, id.as_str());
                append_str(&mut m, "` failed to compile: ");
                append_str(&mut m, message.as_str());
            },
            SchemaError::Invalid { id, violations } => {
                let mut parts: Vec<String> = Vec::new();
                let mut i: usize = 0;
                while i < violations.len()
                    invariant
                        i <= violations@.len(),
                        string_views(parts@) == renderings(violations@.take(i as int)),
                    decreases violations@.len() - i,
                {
                    assert(violations@.take(i + 1) == violations@.take(i as int).push(violations@[i as int]));
                    let ghost before = parts@;
                    parts.push(violations[i].render());
                    assert(parts@.drop_last() == before);
                    assert(string_views(parts@) == string_views(before).push(parts@.last()@));
                    assert(renderings(violations@.take(i + 1)) == renderings(violations@.take(i as int)).push(
                        violations@[i as int].rendered(),
                    ));
                    i += 1;
                }
                assert(violations@.take(violations@.len() as int) == violations@);
                append_str(&mut m, "`");
                append_str(&mut m, id.as_str());
                append_str(&mut m, "` rejected the instance: ");
                let joined = join_strings(parts.as_slice(), "; ");
                append_str(&mut m, joined.as_str());
            },
            SchemaError::Json(d) => {
                append_str(&mut m, "json: ");
                append_str(&mut m, d.as_str());
            },
        }
        m
    }
}

/// What an instance's violations make of it: it passes exactly when there
/// are none, and otherwise is refused with all of them attached.
pub fn verdict(id: &str, violations: Vec<Violation>) -> (r: Result<(), SchemaError>)
    ensures
        violations@.len() == 0 <==> r is Ok,
        violations@.len() > 0 ==> (r matches Err(SchemaError::Invalid { id: i, violations: v })
            && i@ == id@ && v == violations),
{
    if violations.len() == 0 {
        Ok(())
    } else {
        Err(SchemaError::Invalid { id: String::from_str(id), violations })
    }
}

/// Why a schema document cannot be registered: the document's id (its path
/// when it has none) and what is wrong.
pub open spec fn missing_id() -> Seq<char> {
    "every schema must carry an $id"@
}

pub open spec fn duplicate_id() -> Seq<char> {
    "two schema files claim the same $id"@
}

/// The ids a list of schema documents (each its path and the `$id` it
/// declares, if any) registers, in order; or the first document that cannot
/// be registered, with why.
pub open spec fn registered(docs: Seq<(String, Option<String>)>) -> Result<
    Seq<Seq<char>>,
    (Seq<char>, Seq<char>),
>
    decreases docs.len(),
{
    if docs.len() == 0 {
        Ok(seq![])
    } else {
        match registered(docs.drop_last()) {
            Err(e) => Err(e),
            Ok(ids) => match docs.last().1 {
                None => Err((docs.last().0@, missing_id())),
                Some(id) => if ids.contains(id@) {
                    Err((id@, duplicate_id()))
                } else {
                    Ok(ids.push(id@))
                },
            },
        }
    }
}

/// Every id registered is registered once.
pub proof fn lemma_registered_ids_distinct(docs: Seq<(String, Option<String>)>)
    ensures
        registered(docs) matches Ok(ids) ==> forall|i: int, j: int|
            0 <= i < j < ids.len() ==> ids[i] != ids[j],
    decreases docs.len(),
{
    if docs.len() > 0 {
        lemma_registered_ids_distinct(docs.drop_last());
        if let Ok(ids) = registered(docs) {
            if let Ok(prev) = registered(docs.drop_last()) {
                assert forall|i: int, j: int| 0 <= i < j < ids.len() implies ids[i] != ids[j] by {
                    if j == ids.len() - 1 {
                        assert(ids[i] == prev[i]);
                        assert(!prev.contains(ids[j]));
                    } else {
                        assert(ids[i] == prev[i] && ids[j] == prev[j]);
                    }
                }
            }
        }
    }
}

/// The ids of the schema documents, checked the way the registry loads them:
/// each must declare an `$id`, and no two may declare the same one.
pub fn register_ids(docs: &[(String, Option<String>)]) -> (r: Result<Vec<String>, SchemaError>)
    ensures
        match registered(docs@) {
            Ok(ids) => r matches Ok(v) && string_views(v@) == ids,
            Err((id, why)) => r matches Err(SchemaError::Compile { id: i, message: m }) && i@ == id
                && m@ == why,
        },
{
    let mut ids: Vec<String> = Vec::new();
    let mut i: usize = 0;
    assert(docs@.take(0) == Seq::<(String, Option<String>)>::empty());
    assert(string_views(ids@) == Seq::<Seq<char>>::empty());
    while i < docs.len()
        invariant
            i <= docs@.len(),
            registered(docs@.take(i as int)) == Ok::<Seq<Seq<char>>, (Seq<char>, Seq<char>)>(
                string_views(ids@),
            ),
        decreases docs@.len() - i,
    {
        assert(docs@.take(i + 1).drop_last() == docs@.take(i as int));
        assert(docs@.take(i + 1).last() == docs@[i as int]);
        match &docs[i].1 {
            None => {
                proof {
                    lemma_registered_stops(docs@, i as int + 1);
                }
                return Err(
                    SchemaError::Compile {
                        id: docs[i].0.clone(),
                        message: String::from_str("every schema must carry an $id"),
                    },
                );
            },
            Some(id) => {
                if crate::chars::contains_text(&ids, id.as_str()) {
                    proof {
                        lemma_registered_stops(docs@, i as int + 1);
                    }
                    return Err(
                        SchemaError::Compile {
                            id: id.clone(),
                            message: String::from_str("two schema files claim the same $id"),
                        },
                    );
                }
                let ghost before = ids@;
                ids.push(id.clone());
                assert(string_views(ids@) == string_views(before).push(id@));
            },
        }
        i += 1;
    }
    assert(docs@.take(docs@.len() as int) == docs@);
    Ok(ids)
}

/// Once registering fails it stays failed with the same reason, whatever
/// documents follow.
proof fn lemma_registered_stops(docs: Seq<(String, Option<String>)>, k: int)
    requires
        0 <= k <= docs.len(),
        registered(docs.take(k)) is Err,
    ensures
        registered(docs) == registered(docs.take(k)),
    decreases docs.len() - k,
{
    if k < docs.len() {
        assert(docs.take(k + 1).drop_last() == docs.take(k));
        lemma_registered_stops(docs, k + 1);
    } else {
        assert(docs.take(k) == docs);
    }
}

} // verus!
