//! What the browser keeps and shows when the page engine stops on an
//! internal error.
use crate::text::{chars_of, push_str, string_of};
use vstd::prelude::*;

verus! {

/// Characters of a panic message kept for the crash page.
pub const MAX_PANIC_DETAIL_CHARS: usize = 400;

/// The first `MAX_PANIC_DETAIL_CHARS` characters of the panic message, or a
/// fixed text when the payload carried no message.
pub open spec fn spec_panic_detail(message: Option<Seq<char>>) -> Seq<char> {
    let m = match message {
        Some(m) => m,
        None => "unknown page-engine panic"@,
    };
    if m.len() > MAX_PANIC_DETAIL_CHARS {
        m.take(MAX_PANIC_DETAIL_CHARS as int)
    } else {
        m
    }
}

/// The crash detail for a panic whose payload held `message` (a `String` or
/// a `&str`), or none.
pub fn panic_detail(message: Option<&str>) -> (d: String)
    ensures
        d@ == spec_panic_detail(match message {
            Some(m) => Some(m@),
            None => None::<Seq<char>>,
        }),
{
    let v = match message {
        Some(m) => chars_of(m),
        None => chars_of("unknown page-engine panic"),
    };
    if v.len() > MAX_PANIC_DETAIL_CHARS {
        let mut out: Vec<char> = Vec::new();
        let mut i: usize = 0;
        while i < MAX_PANIC_DETAIL_CHARS
            invariant
                i <= MAX_PANIC_DETAIL_CHARS < v@.len(),
                out@ == v@.take(i as int),
            decreases MAX_PANIC_DETAIL_CHARS - i,
        {
            out.push(v[i]);
            i = i + 1;
            assert(out@ =~= v@.take(i as int));
        }
        string_of(out.as_slice())
    } else {
        string_of(v.as_slice())
    }
}

/// The status line shown after the page engine stopped.
pub fn crash_status(detail: &str) -> (s: String)
    ensures
        s@ == "Page engine stopped after an internal error: "@ + detail@ + ". Reload to try again."@,
{
    let mut v: Vec<char> = Vec::new();
    push_str(&mut v, "Page engine stopped after an internal error: ");
    assert(v@ =~= "Page engine stopped after an internal error: "@);
    push_str(&mut v, detail);
    push_str(&mut v, ". Reload to try again.");
    string_of(v.as_slice())
}

} // verus!
