//! The compiled-code cache's layout: one file per function under `<root>/.oi/cache`.
use vstd::prelude::*;
use vstd::string::StringSliceAdditionalSpecFns;

use crate::text::{lit, push_all, push_str};

verus! {

/// The lowercase hex digit for a value below 16.
pub open spec fn spec_hex_digit(n: u8) -> u8 {
    if n < 10 {
        (48 + n) as u8
    } else {
        (87 + n) as u8
    }
}

/// The lowercase hex text of bytes, two digits per byte.
pub open spec fn spec_hex(k: Seq<u8>) -> Seq<u8>
    decreases k.len(),
{
    if k.len() == 0 {
        Seq::empty()
    } else {
        spec_hex(k.drop_last()) + seq![spec_hex_digit(k.last() / 16), spec_hex_digit(k.last() % 16)]
    }
}

/// The cache directory under a project root.
pub open spec fn spec_cache_dir(root: Seq<u8>) -> Seq<u8> {
    root + "/.oi/cache".spec_bytes()
}

/// The code cache of a project: a directory, one file per function, named by its key in hex.
pub struct Store {
    pub dir: Vec<u8>,
}

/// The hex digit for a value below 16.
pub fn hex_digit(n: u8) -> (r: u8)
    requires
        n < 16,
    ensures
        r == spec_hex_digit(n),
{
    if n < 10 {
        48 + n
    } else {
        87 + n
    }
}

impl Store {
    /// The cache of the project at `root`; `None` when caching is switched off.
    pub fn open(root: &[u8], off: bool) -> (r: Option<Store>)
        ensures
            off <==> r is None,
            r matches Some(s) ==> s.dir@ == spec_cache_dir(root@),
    {
        if off {
            return None;
        }
        let mut dir = crate::text::owned(root);
        push_str(&mut dir, "/.oi/cache");
        Some(Store { dir })
    }

    /// The file that holds the entry for a key.
    pub fn entry(&self, key: &[u8]) -> (r: Vec<u8>)
        ensures
            r@ == self.dir@ + seq![47u8] + spec_hex(key@),
    {
        let mut out = crate::text::owned(self.dir.as_slice());
        out.push(47);
        let ghost start = out@;
        let mut i: usize = 0;
        while i < key.len()
            invariant
                i <= key@.len(),
                out@ == start + spec_hex(key@.take(i as int)),
            decreases key@.len() - i,
        {
            proof {
                assert(key@.take(i + 1).drop_last() =~= key@.take(i as int));
                assert(key@.take(i + 1).last() == key@[i as int]);
            }
            out.push(hex_digit(key[i] / 16));
            out.push(hex_digit(key[i] % 16));
            proof {
                assert(out@ =~= start + spec_hex(key@.take(i + 1)));
            }
            i = i + 1;
        }
        assert(key@.take(key@.len() as int) =~= key@);
        out
    }
}

/// The hex text of bytes is twice as long as they are.
pub proof fn lemma_hex_len(k: Seq<u8>)
    ensures
        spec_hex(k).len() == 2 * k.len(),
    decreases k.len(),
{
    if k.len() > 0 {
        lemma_hex_len(k.drop_last());
    }
}

/// Distinct keys have distinct cache entries: the hex text of bytes gives the bytes back.
pub proof fn lemma_hex_injective(a: Seq<u8>, b: Seq<u8>)
    requires
        spec_hex(a) == spec_hex(b),
    ensures
        a == b,
    decreases a.len(),
{
    lemma_hex_len(a);
    lemma_hex_len(b);
    if a.len() > 0 {
        let ha = spec_hex(a.drop_last());
        let hb = spec_hex(b.drop_last());
        lemma_hex_len(a.drop_last());
        lemma_hex_len(b.drop_last());
        assert(spec_hex(a) == ha + seq![spec_hex_digit(a.last() / 16), spec_hex_digit(a.last() % 16)]);
        assert(spec_hex(b) == hb + seq![spec_hex_digit(b.last() / 16), spec_hex_digit(b.last() % 16)]);
        assert(ha =~= spec_hex(a).take(ha.len() as int));
        assert(hb =~= spec_hex(b).take(hb.len() as int));
        lemma_hex_injective(a.drop_last(), b.drop_last());
        let n = spec_hex(a).len();
        assert(spec_hex(a)[n - 2] == spec_hex_digit(a.last() / 16));
        assert(spec_hex(b)[n - 2] == spec_hex_digit(b.last() / 16));
        assert(spec_hex(a)[n - 1] == spec_hex_digit(a.last() % 16));
        assert(spec_hex(b)[n - 1] == spec_hex_digit(b.last() % 16));
        assert(a.last() / 16 == b.last() / 16);
        assert(a.last() % 16 == b.last() % 16);
        assert(a.last() == b.last());
        assert(a =~= a.drop_last().push(a.last()));
        assert(b =~= b.drop_last().push(b.last()));
    }
}

/// Two keys share a cache file only when they are the same key.
pub proof fn lemma_entries_distinct(s: Store, a: Seq<u8>, b: Seq<u8>)
    requires
        s.dir@ + seq![47u8] + spec_hex(a) == s.dir@ + seq![47u8] + spec_hex(b),
    ensures
        a == b,
{
    let p = s.dir@ + seq![47u8];
    assert(spec_hex(a) =~= (p + spec_hex(a)).skip(p.len() as int));
    assert(spec_hex(b) =~= (p + spec_hex(b)).skip(p.len() as int));
    lemma_hex_injective(a, b);
}

} // verus!
