//! Decisions about the console the converter runs in: whether to wait for a
//! key before the window closes, and what to show while waiting.
use vstd::prelude::*;

verus! {

/// Whether the converter was started by double-clicking it, so that its
/// console window would close at once on exit. That is the case on Windows
/// when the program path is absolute and the shell is not MSYS2.
pub fn is_cmd(on_windows: bool, argv0_is_absolute: bool, in_msys2: bool) -> (r: bool)
    ensures
        r == (on_windows && argv0_is_absolute && !in_msys2),
{
    on_windows && argv0_is_absolute && !in_msys2
}

/// The tip shown before waiting when no game was given.
pub open spec fn tip_text() -> Seq<u8> {
    seq![10u8, 84u8, 105u8, 112u8, 58u8, 32u8, 84u8, 111u8, 32u8, 99u8, 111u8, 110u8, 118u8, 101u8, 114u8, 116u8, 32u8, 97u8, 32u8, 103u8, 97u8, 109u8, 101u8, 44u8, 32u8, 99u8, 108u8, 105u8, 99u8, 107u8, 32u8, 97u8, 110u8, 100u8, 32u8, 100u8, 114u8, 97u8, 103u8, 32u8, 105u8, 116u8, 32u8, 111u8, 110u8, 32u8, 116u8, 111u8, 112u8, 32u8, 111u8, 102u8, 32u8, 116u8, 104u8, 101u8, 32u8, 101u8, 120u8, 101u8, 99u8, 117u8, 116u8, 97u8, 98u8, 108u8, 101u8, 46u8, 10u8]
}

/// The prompt shown while waiting for a key.
pub open spec fn prompt_text() -> Seq<u8> {
    seq![60u8, 60u8, 32u8, 80u8, 114u8, 101u8, 115u8, 115u8, 32u8, 65u8, 110u8, 121u8, 32u8, 75u8, 101u8, 121u8, 32u8, 62u8, 62u8, 10u8]
}

/// What is shown before waiting for a key: the prompt, after the tip when
/// `tip` is set.
pub fn pause(tip: bool) -> (r: Vec<u8>)
    ensures
        r@ == if tip {
            tip_text() + prompt_text()
        } else {
            prompt_text()
        },
{
    let prompt: Vec<u8> = vec![60u8, 60u8, 32u8, 80u8, 114u8, 101u8, 115u8, 115u8, 32u8, 65u8, 110u8, 121u8, 32u8, 75u8, 101u8, 121u8, 32u8, 62u8, 62u8, 10u8];
    assert(prompt@ =~= prompt_text());
    if tip {
        let mut out: Vec<u8> = vec![10u8, 84u8, 105u8, 112u8, 58u8, 32u8, 84u8, 111u8, 32u8, 99u8, 111u8, 110u8, 118u8, 101u8, 114u8, 116u8, 32u8, 97u8, 32u8, 103u8, 97u8, 109u8, 101u8, 44u8, 32u8, 99u8, 108u8, 105u8, 99u8, 107u8, 32u8, 97u8, 110u8, 100u8, 32u8, 100u8, 114u8, 97u8, 103u8, 32u8, 105u8, 116u8, 32u8, 111u8, 110u8, 32u8, 116u8, 111u8, 112u8, 32u8, 111u8, 102u8, 32u8, 116u8, 104u8, 101u8, 32u8, 101u8, 120u8, 101u8, 99u8, 117u8, 116u8, 97u8, 98u8, 108u8, 101u8, 46u8, 10u8];
        assert(out@ =~= tip_text());
        crate::bytes::put_bytes(&mut out, &prompt);
        out
    } else {
        prompt
    }
}

} // verus!
