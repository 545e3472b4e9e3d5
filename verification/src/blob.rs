//! The content addressed blob store's naming rules.
//!
//! A directory beside the database holding images,
//! sanitised svgs and prompt texts, each stored once under the SHA-256 of its
//! bytes. Reading and writing the files is the caller's; what a digest is, and
//! where a digest lives, is decided here.
use vstd::prelude::*;

use crate::chars::{append_chars, append_str, chars_of, same_text, string_of, sub_vec};
use crate::digest::{hex, sha256, sha256_hex};

verus! {

/// How many bytes UTF-8 takes for `c`.
pub open spec fn utf8_width(c: char) -> nat {
    if (c as u32) < 0x80 {
        1
    } else if (c as u32) < 0x800 {
        2
    } else if (c as u32) < 0x10000 {
        3
    } else {
        4
    }
}

/// The byte offset at which the `k`-th character of `s` starts in UTF-8.
pub open spec fn byte_offset(s: Seq<char>, k: int) -> nat
    decreases k,
{
    if k <= 0 {
        0
    } else {
        byte_offset(s, k - 1) + utf8_width(s[k - 1])
    }
}

/// Whether byte offset `b` falls between two characters of `s` (or at its
/// end), so that a string can be cut there.
pub open spec fn byte_boundary(s: Seq<char>, b: nat) -> bool {
    exists|k: int| 0 <= k <= s.len() && byte_offset(s, k) == b
}

/// The character index at byte offset `b`.
pub open spec fn char_at_byte(s: Seq<char>, b: nat) -> int {
    choose|k: int| 0 <= k <= s.len() && byte_offset(s, k) == b
}

/// `a` joined with `b` as a path: `b` alone when it is absolute, otherwise
/// `b` after `a` with one separator between them unless `a` is empty or
/// already ends in one.
pub open spec fn joined(a: Seq<char>, b: Seq<char>) -> Seq<char> {
    if b.len() > 0 && b[0] == '/' {
        b
    } else if a.len() == 0 || a.last() == '/' {
        a + b
    } else {
        a + "/"@ + b
    }
}

proof fn lemma_byte_offset_increasing(s: Seq<char>)
    ensures
        forall|i: int, j: int|
            0 <= i < j ==> #[trigger] byte_offset(s, i) < #[trigger] byte_offset(s, j),
{
    assert forall|i: int, j: int| 0 <= i < j implies #[trigger] byte_offset(s, i) < #[trigger] byte_offset(
        s,
        j,
    ) by {
        lemma_byte_offset_up(s, i, j);
    }
}

proof fn lemma_byte_offset_up(s: Seq<char>, i: int, j: int)
    requires
        0 <= i < j,
    ensures
        byte_offset(s, i) < byte_offset(s, j),
    decreases j - i,
{
    if j - 1 > i {
        lemma_byte_offset_up(s, i, j - 1);
    }
}

fn utf8_width_of(c: char) -> (w: usize)
    ensures
        w == utf8_width(c),
{
    let n = c as u32;
    if n < 0x80 {
        1
    } else if n < 0x800 {
        2
    } else if n < 0x10000 {
        3
    } else {
        4
    }
}

/// The index of the character that starts at byte offset `b`.
fn char_index_of_byte(d: &Vec<char>, b: usize) -> (k: usize)
    requires
        byte_boundary(d@, b as nat),
        b <= 4,
    ensures
        k == char_at_byte(d@, b as nat),
        0 <= k <= d@.len(),
        byte_offset(d@, k as int) == b,
{
    proof {
        lemma_byte_offset_increasing(d@);
    }
    let ghost target = char_at_byte(d@, b as nat);
    let n = d.len();
    let mut i: usize = 0;
    let mut off: usize = 0;
    while off < b
        invariant
            n == d@.len(),
            0 <= target <= d@.len(),
            byte_offset(d@, target) == b,
            b <= 4,
            i <= target,
            off == byte_offset(d@, i as int),
            off <= b,
            forall|x: int, y: int| 0 <= x < y ==> #[trigger] byte_offset(d@, x) < #[trigger] byte_offset(d@, y),
        decreases target - i,
    {
        assert(i < target) by {
            if i == target {
                assert(false);
            }
            if i > target {
                assert(byte_offset(d@, target) < byte_offset(d@, i as int));
            }
        }
        off = off + utf8_width_of(d[i]);
        i = i + 1;
        assert(off == byte_offset(d@, i as int));
        assert(i <= target) by {
            if i > target {
                assert(byte_offset(d@, target) < byte_offset(d@, i as int));
            }
        }
        assert(off <= b) by {
            if (i as int) < target {
                assert(byte_offset(d@, i as int) < byte_offset(d@, target));
            }
        }
    }
    assert(i == target) by {
        if i < target {
            assert(byte_offset(d@, i as int) < byte_offset(d@, target));
        }
    }
    i
}

/// `a` and `b` joined as `Path::join` joins them.
fn join_path(a: &str, b: &str) -> (p: String)
    ensures
        p@ == joined(a@, b@),
{
    let bv = chars_of(b);
    if bv.len() > 0 && bv[0] == '/' {
        return String::from_str(b);
    }
    let av = chars_of(a);
    let mut p = String::from_str(a);
    if !(av.len() == 0 || av[av.len() - 1] == '/') {
        append_str(&mut p, "/");
    }
    append_str(&mut p, b);
    p
}

pub struct BlobStore {
    root: String,
}

impl BlobStore {
    pub closed spec fn root_path(self) -> Seq<char> {
        self.root@
    }

    /// A store rooted at `root`.
    pub fn new(root: String) -> (b: Self)
        ensures
            b.root_path() == root@,
    {
        BlobStore { root }
    }

    pub fn root(&self) -> (r: &str)
        ensures
            r@ == self.root_path(),
    {
        self.root.as_str()
    }

    /// The digest that names `bytes`: their SHA-256 in lowercase hex.
    pub fn hash(bytes: &[u8]) -> (h: String)
        ensures
            h@ == hex(sha256(bytes@)),
    {
        sha256_hex(bytes)
    }

    /// Where a blob lives: two levels of fan out on the digest's prefix, so a
    /// profile with a hundred thousand blobs does not put them all in one
    /// directory. The prefix is cut at UTF-8 byte offsets two and four, and the
    /// parts are joined as `Path::join` joins them.
    pub fn path_for(&self, digest: &str) -> (p: String)
        requires
            byte_boundary(digest@, 2),
            byte_boundary(digest@, 4),
        ensures
            p@ == joined(
                joined(
                    joined(self.root_path(), digest@.take(char_at_byte(digest@, 2))),
                    digest@.subrange(char_at_byte(digest@, 2), char_at_byte(digest@, 4)),
                ),
                digest@,
            ),
    {
        let d = chars_of(digest);
        let k2 = char_index_of_byte(&d, 2);
        let k4 = char_index_of_byte(&d, 4);
        proof {
            lemma_byte_offset_increasing(d@);
        }
        let first = join_path(self.root.as_str(), string_of(&sub_vec(&d, 0, k2)).as_str());
        assert(d@.subrange(0, k2 as int) == d@.take(k2 as int));
        let second = join_path(first.as_str(), string_of(&sub_vec(&d, k2, k4)).as_str());
        join_path(second.as_str(), digest)
    }

    /// What `bytes` read back under `digest` actually hash to, when that is
    /// not `digest`: bit rot, or a file changed behind the store's back.
    pub fn corrupt_digest(digest: &str, bytes: &[u8]) -> (r: Option<String>)
        ensures
            match r {
                Some(actual) => actual@ == hex(sha256(bytes@)) && actual@ != digest@,
                None => hex(sha256(bytes@)) == digest@,
            },
    {
        let actual = sha256_hex(bytes);
        if same_text(actual.as_str(), digest) {
            None
        } else {
            Some(actual)
        }
    }
}

} // verus!
