//! Which `herdr` binary to call back: the one named by `HERDR_BIN_PATH`, which
//! herdr sets on every plugin process, or `herdr` looked up on `PATH`.

use vstd::prelude::*;

verus! {

/// The bytes of `herdr`.
pub open spec fn default_binary() -> Seq<u8> {
    seq![104u8, 101u8, 114u8, 100u8, 114u8]
}

/// The fallback is the bytes of `herdr`, looked up on `PATH`.
pub proof fn law_fallback_is_herdr()
    ensures
        default_binary() == seq![104u8, 101u8, 114u8, 100u8, 114u8],
{
}

/// The binary to invoke, given the value the environment offered (raw
/// bytes): that value when it is set and not empty, `herdr` otherwise. An
/// empty value falls back rather than running the current directory.
pub fn binary_path(configured: Option<Vec<u8>>) -> (r: Vec<u8>)
    ensures
        r@ == match configured {
            Some(p) if p@.len() > 0 => p@,
            _ => default_binary(),
        },
{
    match configured {
        Some(p) if p.len() > 0 => p,
        _ => {
            let r = vec![104u8, 101u8, 114u8, 100u8, 114u8];
            assert(r@ =~= default_binary());
            r
        },
    }
}

} // verus!
