//! The directory store's computational core: file name parsing, partial
//! detection, and content versioning.
//!
//! Listing, loading and saving prompt files is file-system work and lives
//! in the surrounding application; what it computes — which files are
//! prompts, how a file name encodes name and variant, and what version a
//! source has — is here.

use vstd::prelude::*;
use vstd::string::*;
use sha1::Digest;
use crate::helpers::hex_digit;
use crate::text::{chars_of, has_at, has_at_exec, string_of_range};

verus! {

broadcast use vstd::std_specs::vec::group_vec_axioms;

/// Configuration options for a directory store.
#[derive(Debug, Clone, PartialEq)]
pub struct DirStoreOptions {
    /// Base directory for prompts.
    pub directory: String,
}

/// A directory-based prompt store: prompts are files named
/// `name.prompt` or `name.variant.prompt`, and partials start with `_`.
#[derive(Debug, Clone, PartialEq)]
pub struct DirStore {
    /// Base directory for prompts.
    pub directory: String,
}

/// The twenty digest bytes the secure hash of a byte string produces.
pub uninterp spec fn sha1_of(data: Seq<u8>) -> Seq<u8>;

/// Relies on `sha1::Sha1::digest`: the SHA-1 digest is a function of the
/// bytes alone and is twenty bytes long.
#[verifier::external_body]
fn sha1_digest(data: &[u8]) -> (r: Vec<u8>)
    ensures
        r@ == sha1_of(data@),
        r@.len() == 20,
{
    sha1::Sha1::digest(data).to_vec()
}

/// The lowercase hexadecimal text of a byte string: two digits per byte.
pub open spec fn hex_of(b: Seq<u8>) -> Seq<char>
    decreases b.len(),
{
    if b.len() == 0 {
        Seq::empty()
    } else {
        seq![hex_digit(b[0] as int / 16), hex_digit(b[0] as int % 16)] + hex_of(b.drop_first())
    }
}

/// Relies on `hex::encode`: each byte becomes two lowercase hexadecimal
/// digits, in order.
#[verifier::external_body]
fn hex_encode(b: &[u8]) -> (r: String)
    ensures
        r@ == hex_of(b@),
{
    hex::encode(b)
}

/// The hexadecimal text of a byte string is twice as long.
pub proof fn lemma_hex_len(b: Seq<u8>)
    ensures
        hex_of(b).len() == 2 * b.len(),
    decreases b.len(),
{
    if b.len() > 0 {
        lemma_hex_len(b.drop_first());
    }
}

/// The version of a prompt source: the first eight lowercase hexadecimal
/// digits of the SHA-1 digest of its bytes.
pub open spec fn version_of(s: Seq<char>) -> Seq<char> {
    hex_of(sha1_of(vstd::utf8::encode_utf8(s))).take(8)
}

/// The position of the last `.` strictly before `j`.
pub open spec fn rfind_dot(s: Seq<char>, j: int) -> Option<int>
    decreases j when 0 <= j <= s.len()
{
    if j <= 0 {
        None
    } else if s[j - 1] == '.' {
        Some(j - 1)
    } else {
        rfind_dot(s, j - 1)
    }
}

/// What a prompt file name encodes: `None` when the name does not end in
/// `.prompt`; otherwise the stem's text before its last `.` and the
/// variant after it, or the whole stem and no variant when the stem has no
/// `.`.
pub open spec fn filename_parts(s: Seq<char>) -> Option<(Seq<char>, Option<Seq<char>>)> {
    if s.len() >= 7 && has_at(s, s.len() - 7, ".prompt"@) {
        let stem = s.take(s.len() - 7);
        match rfind_dot(stem, stem.len() as int) {
            None => Some((stem, None)),
            Some(d) => Some((stem.take(d), Some(stem.skip(d + 1)))),
        }
    } else {
        None
    }
}

impl DirStore {
    /// Creates a new directory store.
    pub fn new(options: DirStoreOptions) -> (r: DirStore)
        ensures
            r.directory == options.directory,
    {
        DirStore { directory: options.directory }
    }

    /// Computes the version of a prompt source: the first eight
    /// hexadecimal digits of its digest.
    pub fn calculate_version(content: &str) -> (r: String)
        ensures
            r@ == version_of(content@),
            r@.len() == 8,
    {
        let digest = sha1_digest(content.as_bytes());
        let hex = hex_encode(digest.as_slice());
        proof {
            lemma_hex_len(digest@);
        }
        let short = hex.as_str().substring_char(0, 8);
        proof {
            assert(hex@.subrange(0, 8) =~= version_of(content@));
        }
        String::from_str(short)
    }

    /// Splits a prompt file name into its prompt name and optional
    /// variant; a name that does not end in `.prompt` is not a prompt file.
    #[verifier::loop_isolation(false)]
    pub fn parse_filename(filename: &str) -> (r: Option<(String, Option<String>)>)
        ensures
            match filename_parts(filename@) {
                Some(p) => r matches Some(q) && q.0@ == p.0 && (match (q.1, p.1) {
                    (Some(a), Some(b)) => a@ == b,
                    (None, None) => true,
                    _ => false,
                }),
                None => r is None,
            },
    {
        let cs = chars_of(filename);
        let suffix = chars_of(".prompt");
        let n = cs.len();
        if n < 7 || !has_at_exec(&cs, n - 7, &suffix) {
            return None;
        }
        let stem_len = n - 7;
        let ghost stem = filename@.take(stem_len as int);
        let mut j: usize = stem_len;
        while j > 0
            invariant
                j <= stem_len,
                stem == filename@.take(stem_len as int),
                rfind_dot(stem, stem_len as int) == rfind_dot(stem, j as int),
            decreases j,
        {
            proof {
                assert(stem[j - 1] == cs@[j - 1]);
            }
            if cs[j - 1] == '.' {
                let name = string_of_range(&cs, 0, j - 1);
                let variant = string_of_range(&cs, j, stem_len);
                proof {
                    assert(name@ =~= stem.take(j - 1));
                    assert(variant@ =~= stem.skip(j as int));
                }
                return Some((name, Some(variant)));
            }
            j = j - 1;
        }
        let name = string_of_range(&cs, 0, stem_len);
        proof {
            assert(name@ =~= stem);
        }
        Some((name, None))
    }

    /// Whether a file name names a partial: it starts with `_`.
    pub fn is_partial(filename: &str) -> (r: bool)
        ensures
            r == (filename@.len() > 0 && filename@[0] == '_'),
    {
        let cs = chars_of(filename);
        cs.len() > 0 && cs[0] == '_'
    }
}

} // verus!
