//! The names the compiler resolves in `core`.
use vstd::prelude::*;
use vstd::string::StringSliceAdditionalSpecFns;

verus! {

/// The annotation markers, in order.
pub open spec fn spec_markers() -> Seq<Seq<u8>> {
    seq![
        "params".spec_bytes(),
        "required".spec_bytes(),
        "test".spec_bytes(),
        "link".spec_bytes(),
        "export".spec_bytes(),
        "c".spec_bytes(),
        "implicit".spec_bytes(),
        "pure".spec_bytes(),
        "nozero".spec_bytes(),
    ]
}

/// The `core` path of a marker name.
pub open spec fn spec_core_path(name: Seq<u8>) -> Seq<u8> {
    "core::".spec_bytes() + name
}

/// Annotation markers resolve to `core` even where a local name shadows them: the `core` path of
/// a marker, and nothing for any other name.
pub fn marker(name: &[u8]) -> (r: Option<Vec<u8>>)
    ensures
        r is Some <==> spec_markers().contains(name@),
        r matches Some(p) ==> p@ == spec_core_path(name@),
{
    let ghost m = spec_markers();
    let known = crate::text::is(name, "params") || crate::text::is(name, "required") || crate::text::is(name, "test")
        || crate::text::is(name, "link") || crate::text::is(name, "export") || crate::text::is(name, "c")
        || crate::text::is(name, "implicit") || crate::text::is(name, "pure") || crate::text::is(name, "nozero");
    proof {
        assert(m[0] == "params".spec_bytes());
        assert(m[1] == "required".spec_bytes());
        assert(m[2] == "test".spec_bytes());
        assert(m[3] == "link".spec_bytes());
        assert(m[4] == "export".spec_bytes());
        assert(m[5] == "c".spec_bytes());
        assert(m[6] == "implicit".spec_bytes());
        assert(m[7] == "pure".spec_bytes());
        assert(m[8] == "nozero".spec_bytes());
        if m.contains(name@) {
            let k = choose|k: int| 0 <= k < m.len() && m[k] == name@;
            assert(0 <= k < 9);
        }
        if known {
            if name@ == "params".spec_bytes() {
                assert(m[0] == name@);
            } else if name@ == "required".spec_bytes() {
                assert(m[1] == name@);
            } else if name@ == "test".spec_bytes() {
                assert(m[2] == name@);
            } else if name@ == "link".spec_bytes() {
                assert(m[3] == name@);
            } else if name@ == "export".spec_bytes() {
                assert(m[4] == name@);
            } else if name@ == "c".spec_bytes() {
                assert(m[5] == name@);
            } else if name@ == "implicit".spec_bytes() {
                assert(m[6] == name@);
            } else if name@ == "pure".spec_bytes() {
                assert(m[7] == name@);
            } else {
                assert(m[8] == name@);
            }
        }
    }
    if known {
        let mut out = crate::text::lit("core::");
        crate::text::push_all(&mut out, name);
        Some(out)
    } else {
        None
    }
}

} // verus!
