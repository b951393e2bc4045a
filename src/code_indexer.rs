//! An index of code snippets, keyed by the hexadecimal MD5 digest of each
//! snippet, that suggests the snippets containing a query.
use vstd::prelude::*;

use crate::text::{contains_text, occurs_in};

verus! {

/// The MD5 digest of the UTF-8 encoding of `text`.
pub uninterp spec fn md5_digest_of(text: Seq<char>) -> Seq<u8>;

/// Relies on md5::compute, which returns the 16-byte MD5 digest of the
/// text's bytes.
#[verifier::external_body]
fn md5_digest(text: &str) -> (r: Vec<u8>)
    ensures
        r@ == md5_digest_of(text@),
        r@.len() == 16,
{
    md5::compute(text).0.to_vec()
}

/// The lower-case hexadecimal digit for `d`.
pub open spec fn hex_digit(d: nat) -> char
    recommends
        d < 16,
{
    "0123456789abcdef"@[d as int]
}

/// Two lower-case hexadecimal digits for each byte, most significant first.
pub open spec fn hex_lower(bytes: Seq<u8>) -> Seq<char>
    decreases bytes.len(),
{
    if bytes.len() == 0 {
        seq![]
    } else {
        let b = bytes.last();
        hex_lower(bytes.drop_last()) + seq![hex_digit((b / 16) as nat), hex_digit((b % 16) as nat)]
    }
}

/// The key under which a snippet is indexed.
pub open spec fn snippet_key(code: Seq<char>) -> Seq<char> {
    hex_lower(md5_digest_of(code))
}

/// Writes bytes as lower-case hexadecimal.
pub fn hex_text(bytes: &Vec<u8>) -> (r: String)
    ensures
        r@ == hex_lower(bytes@),
{
    let digits = "0123456789abcdef";
    proof {
        reveal_strlit("0123456789abcdef");
    }
    let mut r = String::new();
    let mut i: usize = 0;
    while i < bytes.len()
        invariant
            digits@ == "0123456789abcdef"@,
            digits@.len() == 16,
            i <= bytes@.len(),
            r@ == hex_lower(bytes@.subrange(0, i as int)),
        decreases bytes@.len() - i,
    {
        let b = bytes[i];
        let hi = (b / 16) as usize;
        let lo = (b % 16) as usize;
        r.append(digits.substring_char(hi, hi + 1));
        r.append(digits.substring_char(lo, lo + 1));
        proof {
            let next = bytes@.subrange(0, i + 1);
            assert(next.drop_last() =~= bytes@.subrange(0, i as int));
            assert(r@ =~= hex_lower(next));
        }
        i = i + 1;
    }
    assert(bytes@.subrange(0, bytes@.len() as int) =~= bytes@);
    r
}

/// The key under which `code` is indexed: the lower-case hexadecimal MD5
/// digest of its text.
pub fn key_of(code: &str) -> (r: String)
    ensures
        r@ == snippet_key(code@),
{
    let digest = md5_digest(code);
    hex_text(&digest)
}

/// The snippets among `entries`' codes that contain `query`, in entry order.
pub open spec fn snippets_containing(
    entries: Seq<(Seq<char>, Seq<char>)>,
    query: Seq<char>,
) -> Seq<Seq<char>>
    decreases entries.len(),
{
    if entries.len() == 0 {
        seq![]
    } else {
        let rest = snippets_containing(entries.drop_last(), query);
        if occurs_in(query, entries.last().1) {
            rest.push(entries.last().1)
        } else {
            rest
        }
    }
}

/// Code snippets, each under its key; a key is present at most once.
pub struct CodeIndexer {
    entries: Vec<(String, String)>,
}

impl View for CodeIndexer {
    type V = Seq<(Seq<char>, Seq<char>)>;

    /// The entries as key and code, in the order their keys were first added.
    closed spec fn view(&self) -> Self::V {
        self.entries@.map_values(|e: (String, String)| (e.0@, e.1@))
    }
}

/// No two entries have the same key.
pub open spec fn keys_unique(entries: Seq<(Seq<char>, Seq<char>)>) -> bool {
    forall|i: int, j: int|
        0 <= i < entries.len() && 0 <= j < entries.len() && i != j ==> entries[i].0 != entries[j].0
}

/// The entries after `code` is indexed: its key's entry gets `code`, or a
/// new entry is added at the end.
pub open spec fn indexed(entries: Seq<(Seq<char>, Seq<char>)>, code: Seq<char>) -> Seq<
    (Seq<char>, Seq<char>),
> {
    let key = snippet_key(code);
    if exists|i: int| 0 <= i < entries.len() && (#[trigger] entries[i]).0 == key {
        let i = choose|i: int| 0 <= i < entries.len() && (#[trigger] entries[i]).0 == key;
        entries.update(i, (key, code))
    } else {
        entries.push((key, code))
    }
}

impl CodeIndexer {
    /// An empty index.
    pub fn new() -> (r: Self)
        ensures
            r@.len() == 0,
    {
        CodeIndexer { entries: Vec::new() }
    }

    /// Adds `code` under its key, replacing what the key held before.
    pub fn index_code(&mut self, code: &str)
        requires
            keys_unique(old(self)@),
        ensures
            keys_unique(final(self)@),
            final(self)@ == indexed(old(self)@, code@),
    {
        let key = key_of(code);
        let ghost old_view = self@;
        let mut i: usize = 0;
        while i < self.entries.len()
            invariant
                self@ == old_view,
                old_view == old(self)@,
                self@.len() == self.entries@.len(),
                keys_unique(old_view),
                key@ == snippet_key(code@),
                i <= self.entries@.len(),
                forall|j: int| 0 <= j < i ==> (#[trigger] old_view[j]).0 != key@,
            decreases self.entries@.len() - i,
        {
            if self.entries[i].0 == key {
                assert(old_view[i as int].0 == snippet_key(code@));
                self.entries.set(i, (key, String::from_str(code)));
                proof {
                    let c = choose|c: int|
                        0 <= c < old_view.len() && (#[trigger] old_view[c]).0 == snippet_key(code@);
                    assert(c == i as int);
                    assert(self@ =~= old_view.update(i as int, (snippet_key(code@), code@)));
                }
                return;
            }
            i = i + 1;
        }
        self.entries.push((key, String::from_str(code)));
        assert(self@ =~= indexed(old_view, code@));
    }

    /// The indexed snippets that contain `query`, in entry order.
    pub fn suggest(&self, query: &str) -> (r: Vec<String>)
        ensures
            r@.map_values(|s: String| s@) == snippets_containing(self@, query@),
    {
        let mut r: Vec<String> = Vec::new();
        let mut i: usize = 0;
        while i < self.entries.len()
            invariant
                self@.len() == self.entries@.len(),
                i <= self.entries@.len(),
                r@.map_values(|s: String| s@) == snippets_containing(
                    self@.subrange(0, i as int),
                    query@,
                ),
            decreases self.entries@.len() - i,
        {
            let code = &self.entries[i].1;
            let found = contains_text(code.as_str(), query);
            proof {
                let next = self@.subrange(0, i + 1);
                assert(next.drop_last() =~= self@.subrange(0, i as int));
                assert(next.last().1 == code@);
            }
            if found {
                r.push(code.clone());
            }
            proof {
                let next = self@.subrange(0, i + 1);
                assert(r@.map_values(|s: String| s@) =~= snippets_containing(next, query@));
            }
            i = i + 1;
        }
        assert(self@.subrange(0, self@.len() as int) =~= self@);
        r
    }
}

} // verus!
