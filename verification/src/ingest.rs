//! Walking a folder into the index.
//!
//! Parse errors are recorded rather than raised, and an
//! excluded folder is never opened: the check is on the path rather than on
//! the content, because the point is not to read the file at all.
use vstd::prelude::*;

use crate::chars::{ascii_lower, ascii_lower_vec, chars_of, join, same_chars, string_views};

verus! {

/// What one pass over a folder did.
#[derive(Debug, Clone)]
pub struct IngestReport {
    pub indexed: usize,
    pub chunks: usize,
    /// Path, kind, and detail, in the shape the Profile shows them.
    pub errors: Vec<(String, &'static str, String)>,
    /// Paths never opened because an exclusion named a component of them.
    pub excluded: usize,
}

impl Default for IngestReport {
    fn default() -> (r: Self)
        ensures
            r.indexed == 0 && r.chunks == 0 && r.errors@.len() == 0 && r.excluded == 0,
    {
        IngestReport { indexed: 0, chunks: 0, errors: Vec::new(), excluded: 0 }
    }
}

/// Whether two names are equal ignoring ASCII case.
pub open spec fn same_ignoring_ascii_case(a: Seq<char>, b: Seq<char>) -> bool {
    ascii_lower(a) == ascii_lower(b)
}

fn eq_ignore_ascii_case(a: &str, b: &str) -> (r: bool)
    ensures
        r == same_ignoring_ascii_case(a@, b@),
{
    same_chars(&ascii_lower_vec(&chars_of(a)), &ascii_lower_vec(&chars_of(b)))
}

/// Whether any exclusion names a component of this path, ignoring ASCII
/// case. Component-wise rather than substring, so a folder called `Sensitive`
/// is excluded and a file called `insensitive-notes.md` is not.
pub fn excluded(components: &[String], exclude: &[String]) -> (r: bool)
    ensures
        r == exists|i: int, j: int|
            0 <= i < components@.len() && 0 <= j < exclude@.len() && same_ignoring_ascii_case(
                (#[trigger] components@[i])@,
                (#[trigger] exclude@[j])@,
            ),
{
    let mut i: usize = 0;
    while i < components.len()
        invariant
            i <= components@.len(),
            forall|a: int, b: int|
                0 <= a < i && 0 <= b < exclude@.len() ==> !same_ignoring_ascii_case(
                    (#[trigger] components@[a])@,
                    (#[trigger] exclude@[b])@,
                ),
        decreases components@.len() - i,
    {
        let mut j: usize = 0;
        while j < exclude.len()
            invariant
                i < components@.len(),
                j <= exclude@.len(),
                forall|a: int, b: int|
                    0 <= a < i && 0 <= b < exclude@.len() ==> !same_ignoring_ascii_case(
                        (#[trigger] components@[a])@,
                        (#[trigger] exclude@[b])@,
                    ),
                forall|b: int|
                    0 <= b < j ==> !same_ignoring_ascii_case(
                        components@[i as int]@,
                        (#[trigger] exclude@[b])@,
                    ),
            decreases exclude@.len() - j,
        {
            if eq_ignore_ascii_case(components[i].as_str(), exclude[j].as_str()) {
                return true;
            }
            j += 1;
        }
        i += 1;
    }
    false
}

/// Whether `prefix` is the first components of `parts`.
pub open spec fn components_prefix(prefix: Seq<Seq<char>>, parts: Seq<Seq<char>>) -> bool {
    prefix.len() <= parts.len() && parts.take(prefix.len() as int) == prefix
}

/// A path as the index names it: relative to the folder root when the root's
/// components begin the path's, joined with `/`; otherwise the path as
/// written. Backslashes read as forward slashes either way.
pub open spec fn relative_spec(
    root: Seq<Seq<char>>,
    parts: Seq<Seq<char>>,
    path_text: Seq<char>,
) -> Seq<char> {
    let s = if components_prefix(root, parts) {
        join(parts.skip(root.len() as int), "/"@)
    } else {
        path_text
    };
    crate::repo::forward_slashes(s)
}

/// The name a file is indexed under, given the root's and the path's
/// components and the path as written.
pub fn relative(root: &[String], parts: &[String], path_text: &str) -> (r: String)
    ensures
        r@ == relative_spec(string_views(root@), string_views(parts@), path_text@),
{
    let mut is_prefix = root.len() <= parts.len();
    let mut i: usize = 0;
    while is_prefix && i < root.len()
        invariant
            i <= root@.len(),
            is_prefix ==> root@.len() <= parts@.len(),
            is_prefix ==> forall|k: int| 0 <= k < i ==> (#[trigger] root@[k])@ == parts@[k]@,
            !is_prefix ==> !components_prefix(string_views(root@), string_views(parts@)),
        decreases root@.len() - i + (if is_prefix { 1int } else { 0int }),
    {
        if !crate::chars::same_text(root[i].as_str(), parts[i].as_str()) {
            is_prefix = false;
            assert(string_views(parts@).take(root@.len() as int)[i as int] != string_views(
                root@,
            )[i as int]);
        } else {
            i += 1;
        }
    }
    if is_prefix {
        assert(string_views(parts@).take(root@.len() as int) == string_views(root@));
    }
    let text = if is_prefix {
        let mut rest: Vec<String> = Vec::new();
        let mut k = root.len();
        while k < parts.len()
            invariant
                root@.len() <= k <= parts@.len(),
                string_views(rest@) == string_views(parts@).skip(root@.len() as int).take(
                    k - root@.len(),
                ),
            decreases parts@.len() - k,
        {
            let ghost before = rest@;
            rest.push(parts[k].clone());
            assert(rest@.drop_last() == before);
            assert(string_views(rest@) == string_views(before).push(parts@[k as int]@));
            assert(string_views(parts@).skip(root@.len() as int).take(k + 1 - root@.len())
                == string_views(parts@).skip(root@.len() as int).take(k - root@.len()).push(
                parts@[k as int]@,
            ));
            k += 1;
        }
        assert(string_views(parts@).skip(root@.len() as int).take(
            parts@.len() - root@.len(),
        ) == string_views(parts@).skip(root@.len() as int));
        crate::chars::join_strings(rest.as_slice(), "/")
    } else {
        String::from_str(path_text)
    };
    let chars = chars_of(text.as_str());
    let mut out: Vec<char> = Vec::new();
    let mut j: usize = 0;
    while j < chars.len()
        invariant
            j <= chars@.len(),
            out@ == crate::repo::forward_slashes(chars@.take(j as int)),
        decreases chars@.len() - j,
    {
        let c = chars[j];
        out.push(if c == '\\' { '/' } else { c });
        assert(chars@.take(j + 1) == chars@.take(j as int).push(c));
        j += 1;
    }
    assert(chars@.take(chars@.len() as int) == chars@);
    crate::chars::string_of(&out)
}

} // verus!
