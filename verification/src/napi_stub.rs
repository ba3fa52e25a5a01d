//! The text of the N-API stubs used on Windows: a C file that defines one
//! trapping stub per N-API function, so that the addon links without
//! `node.exe`, and a Rust file whose `setup` replaces each stub with a jump
//! to the real function once the addon is loaded.

use crate::text::{hex_lower, push_hex, push_str};
use vstd::prelude::*;

verus! {

/// Every character of `s` is ASCII.
pub open spec fn is_ascii_text(s: Seq<char>) -> bool {
    forall|i: int| 0 <= i < s.len() ==> (#[trigger] s[i] as u32) < 128
}

/// How `{:?}` writes an ASCII character inside a string literal: the usual
/// backslash escapes, `\u{..}` in lower-case hex for the other control
/// characters, and every other character as itself.
pub open spec fn debug_escape(c: char) -> Seq<char> {
    if c == '\0' {
        seq!['\\', '0']
    } else if c == '\t' {
        seq!['\\', 't']
    } else if c == '\r' {
        seq!['\\', 'r']
    } else if c == '\n' {
        seq!['\\', 'n']
    } else if c == '\\' {
        seq!['\\', '\\']
    } else if c == '"' {
        seq!['\\', '"']
    } else if (c as u32) < 0x20 || (c as u32) == 0x7f {
        seq!['\\', 'u', '{'] + hex_lower(c as u32 as nat) + seq!['}']
    } else {
        seq![c]
    }
}

/// The escaped characters of `s`, in order.
pub open spec fn debug_chars(s: Seq<char>) -> Seq<char>
    decreases s.len(),
{
    if s.len() == 0 {
        Seq::empty()
    } else {
        debug_chars(s.drop_last()) + debug_escape(s.last())
    }
}

/// What `{:?}` prints for an ASCII string: the escaped text in double
/// quotes.
pub open spec fn debug_str(s: Seq<char>) -> Seq<char> {
    seq!['"'] + debug_chars(s) + seq!['"']
}

fn push_debug_escape(out: &mut String, c: char)
    requires
        (c as u32) < 128,
    ensures
        final(out)@ == old(out)@ + debug_escape(c),
{
    if c == '\0' {
        push_str(out, "\\0");
    } else if c == '\t' {
        push_str(out, "\\t");
    } else if c == '\r' {
        push_str(out, "\\r");
    } else if c == '\n' {
        push_str(out, "\\n");
    } else if c == '\\' {
        push_str(out, "\\\\");
    } else if c == '"' {
        push_str(out, "\\\"");
    } else if (c as u32) < 0x20 || (c as u32) == 0x7f {
        push_str(out, "\\u{");
        push_hex(out, c as u32 as u64);
        push_str(out, "}");
    } else {
        let ghost before = out@;
        crate::text::push_char(out, c);
        assert(out@ =~= before + seq![c]);
        return;
    }
    proof {
        reveal_strlit("\\0");
        reveal_strlit("\\t");
        reveal_strlit("\\r");
        reveal_strlit("\\n");
        reveal_strlit("\\\\");
        reveal_strlit("\\\"");
        reveal_strlit("\\u{");
        reveal_strlit("}");
    }
    assert(out@ =~= old(out)@ + debug_escape(c));
}

/// Appends `s` as `{:?}` prints it.
pub fn push_debug_str(out: &mut String, s: &str)
    requires
        is_ascii_text(s@),
    ensures
        final(out)@ == old(out)@ + debug_str(s@),
{
    proof {
        reveal_strlit("\"");
    }
    push_str(out, "\"");
    let ghost start = out@;
    let n = s.unicode_len();
    let mut i: usize = 0;
    while i < n
        invariant
            n == s@.len(),
            i <= n,
            is_ascii_text(s@),
            out@ == start + debug_chars(s@.take(i as int)),
        decreases n - i,
    {
        let c = s.get_char(i);
        assert((s@[i as int] as u32) < 128);
        push_debug_escape(out, c);
        assert(s@.take(i + 1).drop_last() =~= s@.take(i as int));
        assert(s@.take(i + 1).last() == c);
        assert(out@ =~= start + debug_chars(s@.take(i + 1)));
        i = i + 1;
    }
    assert(s@.take(n as int) =~= s@);
    push_str(out, "\"");
    assert(out@ =~= old(out)@ + debug_str(s@));
}

/// The opening of the Rust file: its comment, `setup`'s signature and the
/// pointer type it casts to.
pub const SETUP_RS_HEADER: &'static str = "/// Patches N-API functions, replacing the stubs with jumps\n/// to the actual implementations provided by node.exe\npub unsafe fn setup() {\n   type F = *const ::std::ffi::c_void;\n";

/// The opening of the C file: the includes and the `stub` macro, which
/// defines a function that traps, padded to leave room for a jump.
pub const NAPI_STUB_C_HEADER: &'static str = "\n#include <stdlib.h>\n#include <stdio.h>\n\n#define stub(name) void name() { \\\n    asm(\"ud2\"); asm(\"nop\"); asm(\"nop\"); asm(\"nop\"); \\\n    asm(\"nop\"); asm(\"nop\"); asm(\"nop\"); asm(\"nop\"); \\\n    asm(\"nop\"); asm(\"nop\"); asm(\"nop\"); asm(\"nop\"); \\\n}\n            \n";

/// The line of `setup` that hooks one N-API function.
pub open spec fn hook_line(name: Seq<char>) -> Seq<char> {
    "   winhook::hook("@ + debug_str(name) + ", ::nj_sys::"@ + name + " as F);\n"@
}

/// The hook lines for `names`, in order.
pub open spec fn hook_lines(names: Seq<Seq<char>>) -> Seq<char>
    decreases names.len(),
{
    if names.len() == 0 {
        Seq::empty()
    } else {
        hook_lines(names.drop_last()) + hook_line(names.last())
    }
}

/// The Rust file: the header, one hook line per name in order, and the
/// closing brace of `setup`.
pub open spec fn spec_setup_rs(names: Seq<Seq<char>>) -> Seq<char> {
    SETUP_RS_HEADER@ + hook_lines(names) + "}\n"@
}

/// The line of the C file that defines the stub for one N-API function.
pub open spec fn stub_line(name: Seq<char>) -> Seq<char> {
    "stub("@ + name + ")\n"@
}

/// The stub lines for `names`, in order.
pub open spec fn stub_lines(names: Seq<Seq<char>>) -> Seq<char>
    decreases names.len(),
{
    if names.len() == 0 {
        Seq::empty()
    } else {
        stub_lines(names.drop_last()) + stub_line(names.last())
    }
}

/// The C file: the header, then one stub line per name in order.
pub open spec fn spec_napi_stub_c(names: Seq<Seq<char>>) -> Seq<char> {
    NAPI_STUB_C_HEADER@ + stub_lines(names)
}

/// A printable ASCII character that `{:?}` writes as itself.
pub open spec fn is_plain_char(c: char) -> bool {
    0x20 <= (c as u32) && (c as u32) <= 0x7e && c != '"' && c != '\\'
}

/// Escaping works character by character: the escape of two texts one after
/// the other is the escape of the first followed by that of the second.
pub proof fn lemma_debug_chars_concat(a: Seq<char>, b: Seq<char>)
    ensures
        debug_chars(a + b) == debug_chars(a) + debug_chars(b),
    decreases b.len(),
{
    if b.len() == 0 {
        assert(a + b =~= a);
    } else {
        lemma_debug_chars_concat(a, b.drop_last());
        assert((a + b).drop_last() =~= a + b.drop_last());
        assert((a + b).last() == b.last());
    }
}

/// Text made of printable characters other than quotes and backslashes,
/// such as a C function name, is written unchanged between the quotes.
pub proof fn lemma_plain_text_is_quoted_unchanged(s: Seq<char>)
    requires
        forall|i: int| 0 <= i < s.len() ==> is_plain_char(#[trigger] s[i]),
    ensures
        debug_chars(s) == s,
        debug_str(s) == seq!['"'] + s + seq!['"'],
    decreases s.len(),
{
    if s.len() > 0 {
        let p = s.drop_last();
        assert forall|i: int| 0 <= i < p.len() implies is_plain_char(#[trigger] p[i]) by {
            assert(p[i] == s[i]);
        }
        lemma_plain_text_is_quoted_unchanged(p);
        let c = s.last();
        assert(is_plain_char(s[s.len() - 1]));
        assert(c != '\0' && c != '\t' && c != '\r' && c != '\n');
        assert(debug_escape(c) == seq![c]);
        assert(p.push(c) =~= s);
        assert(p + seq![c] =~= s);
    } else {
        assert(debug_chars(s) =~= s);
    }
}

/// The stub line of a function holds its name whole, whatever its length:
/// `stub(`, the name, `)` and a newline.
pub proof fn lemma_stub_line_holds_name(name: Seq<char>)
    ensures
        stub_line(name).len() == name.len() + 7,
        stub_line(name).take(5) == "stub("@,
        stub_line(name).subrange(5, 5 + name.len() as int) == name,
        stub_line(name).subrange(5 + name.len() as int, name.len() + 7int) == ")\n"@,
{
    reveal_strlit("stub(");
    reveal_strlit(")\n");
    let l = stub_line(name);
    assert(l.take(5) =~= "stub("@);
    assert(l.subrange(5, 5 + name.len() as int) =~= name);
    assert(l.subrange(5 + name.len() as int, name.len() + 7int) =~= ")\n"@);
}

/// The stub lines of two lists of functions, one after the other, are those
/// of the first list followed by those of the second: one line per
/// function, in order, none dropped or repeated.
pub proof fn lemma_stub_lines_concat(a: Seq<Seq<char>>, b: Seq<Seq<char>>)
    ensures
        stub_lines(a + b) == stub_lines(a) + stub_lines(b),
    decreases b.len(),
{
    if b.len() == 0 {
        assert(a + b =~= a);
        assert(stub_lines(a) + stub_lines(b) =~= stub_lines(a));
    } else {
        lemma_stub_lines_concat(a, b.drop_last());
        assert((a + b).drop_last() =~= a + b.drop_last());
        assert((a + b).last() == b.last());
    }
}

/// A single function gets exactly its own stub line, and no function gets
/// no line.
pub proof fn lemma_stub_lines_single(name: Seq<char>)
    ensures
        stub_lines(Seq::<Seq<char>>::empty()) == Seq::<char>::empty(),
        stub_lines(seq![name]) == stub_line(name),
{
    assert(seq![name].drop_last() =~= Seq::<Seq<char>>::empty());
    assert(Seq::<char>::empty() + stub_line(name) =~= stub_line(name));
}

/// The hook line of a function quotes its name for the lookup and names the
/// binding whole, whatever its length: `   winhook::hook(`, the quoted
/// name, `, ::nj_sys::`, the name, ` as F);` and a newline.
pub proof fn lemma_hook_line_holds_name(name: Seq<char>)
    ensures
        ({
            let l = hook_line(name);
            let q = debug_str(name).len() as int;
            let n = name.len() as int;
            &&& l.len() == 17 + q + 12 + n + 8
            &&& l.take(17) == "   winhook::hook("@
            &&& l.subrange(17, 17 + q) == debug_str(name)
            &&& l.subrange(17 + q, 29 + q) == ", ::nj_sys::"@
            &&& l.subrange(29 + q, 29 + q + n) == name
            &&& l.subrange(29 + q + n, l.len() as int) == " as F);\n"@
        }),
{
    reveal_strlit("   winhook::hook(");
    reveal_strlit(", ::nj_sys::");
    reveal_strlit(" as F);\n");
    let l = hook_line(name);
    let d = debug_str(name);
    let q = d.len() as int;
    let n = name.len() as int;
    assert(l.take(17) =~= "   winhook::hook("@);
    assert(l.subrange(17, 17 + q) =~= d);
    assert(l.subrange(17 + q, 29 + q) =~= ", ::nj_sys::"@);
    assert(l.subrange(29 + q, 29 + q + n) =~= name);
    assert(l.subrange(29 + q + n, l.len() as int) =~= " as F);\n"@);
}

/// The hook lines of two lists of functions, one after the other, are those
/// of the first list followed by those of the second.
pub proof fn lemma_hook_lines_concat(a: Seq<Seq<char>>, b: Seq<Seq<char>>)
    ensures
        hook_lines(a + b) == hook_lines(a) + hook_lines(b),
    decreases b.len(),
{
    if b.len() == 0 {
        assert(a + b =~= a);
        assert(hook_lines(a) + hook_lines(b) =~= hook_lines(a));
    } else {
        lemma_hook_lines_concat(a, b.drop_last());
        assert((a + b).drop_last() =~= a + b.drop_last());
        assert((a + b).last() == b.last());
    }
}

/// A single function gets exactly its own hook line, and no function gets
/// no line.
pub proof fn lemma_hook_lines_single(name: Seq<char>)
    ensures
        hook_lines(Seq::<Seq<char>>::empty()) == Seq::<char>::empty(),
        hook_lines(seq![name]) == hook_line(name),
{
    assert(seq![name].drop_last() =~= Seq::<Seq<char>>::empty());
    assert(Seq::<char>::empty() + hook_line(name) =~= hook_line(name));
}

/// Every name is ASCII text.
pub open spec fn all_ascii(names: Seq<String>) -> bool {
    forall|i: int| 0 <= i < names.len() ==> is_ascii_text(#[trigger] names[i]@)
}

/// The Rust file that installs the hooks for the given N-API functions.
pub fn napi_setup_rs(names: &Vec<String>) -> (text: String)
    requires
        all_ascii(names@),
    ensures
        text@ == spec_setup_rs(names@.map_values(|n: String| n@)),
{
    let ghost ns = names@.map_values(|n: String| n@);
    let mut text = String::new();
    push_str(&mut text, SETUP_RS_HEADER);
    let mut i: usize = 0;
    while i < names.len()
        invariant
            i <= names.len(),
            all_ascii(names@),
            ns == names@.map_values(|n: String| n@),
            text@ == SETUP_RS_HEADER@ + hook_lines(ns.take(i as int)),
        decreases names.len() - i,
    {
        let name = names[i].as_str();
        assert(is_ascii_text(names@[i as int]@));
        let ghost before = text@;
        push_str(&mut text, "   winhook::hook(");
        push_debug_str(&mut text, name);
        push_str(&mut text, ", ::nj_sys::");
        push_str(&mut text, name);
        push_str(&mut text, " as F);\n");
        assert(ns.take(i + 1).drop_last() =~= ns.take(i as int));
        assert(ns.take(i + 1).last() == name@);
        assert(text@ =~= before + hook_line(name@));
        i = i + 1;
    }
    assert(ns.take(names.len() as int) =~= ns);
    push_str(&mut text, "}\n");
    text
}

/// The C file that defines a stub for each of the given N-API functions.
pub fn napi_stub_c(names: &Vec<String>) -> (text: String)
    ensures
        text@ == spec_napi_stub_c(names@.map_values(|n: String| n@)),
{
    let ghost ns = names@.map_values(|n: String| n@);
    let mut text = String::new();
    push_str(&mut text, NAPI_STUB_C_HEADER);
    let mut i: usize = 0;
    while i < names.len()
        invariant
            i <= names.len(),
            ns == names@.map_values(|n: String| n@),
            text@ == NAPI_STUB_C_HEADER@ + stub_lines(ns.take(i as int)),
        decreases names.len() - i,
    {
        let name = names[i].as_str();
        let ghost before = text@;
        push_str(&mut text, "stub(");
        push_str(&mut text, name);
        push_str(&mut text, ")\n");
        assert(ns.take(i + 1).drop_last() =~= ns.take(i as int));
        assert(ns.take(i + 1).last() == name@);
        assert(text@ =~= before + stub_line(name@));
        i = i + 1;
    }
    assert(ns.take(names.len() as int) =~= ns);
    text
}

} // verus!
