//! Redirecting N-API entry points at run time on Windows: the symbol to
//! look up and the jump that is written over the stub.

use crate::text::push_char;
use vstd::prelude::*;

verus! {

/// Where the last `::`-separated segment of `s` starts, scanning for
/// separators from the left as `str::split` does (a separator found is
/// skipped whole before scanning resumes).
pub open spec fn segment_start(s: Seq<char>, i: int, start: int) -> int
    decreases s.len() - i,
{
    if i < 0 || i + 1 >= s.len() {
        start
    } else if s[i] == ':' && s[i + 1] == ':' {
        segment_start(s, i + 2, i + 2)
    } else {
        segment_start(s, i + 1, start)
    }
}

proof fn lemma_segment_start_bounds(s: Seq<char>, i: int, start: int)
    requires
        0 <= i,
        0 <= start <= i,
        start <= s.len(),
    ensures
        0 <= segment_start(s, i, start) <= s.len(),
    decreases s.len() - i,
{
    if i + 1 >= s.len() {
    } else if s[i] == ':' && s[i + 1] == ':' {
        lemma_segment_start_bounds(s, i + 2, i + 2);
    } else {
        lemma_segment_start_bounds(s, i + 1, start);
    }
}

/// The name of a function without its module path: what follows the last
/// `::`.
pub open spec fn spec_proc_name(name: Seq<char>) -> Seq<char> {
    name.skip(segment_start(name, 0, 0))
}

/// `s` has a `::` separator starting at `j`.
pub open spec fn has_sep_at(s: Seq<char>, j: int) -> bool {
    0 <= j && j + 1 < s.len() && s[j] == ':' && s[j + 1] == ':'
}

proof fn lemma_segment_start_is_last_segment(s: Seq<char>, i: int, start: int)
    requires
        0 <= start <= i <= s.len(),
        start == 0 || (start >= 2 && has_sep_at(s, start - 2)),
        forall|j: int| start <= j < i ==> !#[trigger] has_sep_at(s, j),
    ensures
        start <= segment_start(s, i, start) <= s.len(),
        segment_start(s, i, start) == 0 || (segment_start(s, i, start) >= 2 && has_sep_at(
            s,
            segment_start(s, i, start) - 2,
        )),
        forall|j: int| segment_start(s, i, start) <= j ==> !#[trigger] has_sep_at(s, j),
    decreases s.len() - i,
{
    if i + 1 >= s.len() {
        assert forall|j: int| start <= j implies !#[trigger] has_sep_at(s, j) by {
            if j >= i {
                assert(!(j + 1 < s.len()));
            }
        }
    } else if s[i] == ':' && s[i + 1] == ':' {
        assert(has_sep_at(s, i));
        lemma_segment_start_is_last_segment(s, i + 2, i + 2);
    } else {
        assert forall|j: int| start <= j < i + 1 implies !#[trigger] has_sep_at(s, j) by {
            if j == i {
                assert(!has_sep_at(s, i));
            }
        }
        lemma_segment_start_is_last_segment(s, i + 1, start);
    }
}

/// The symbol looked up for a function is the whole of what follows the
/// last `::` of its name, whatever its length: a suffix of the name, which
/// starts the name or follows a `::`, and holds no `::` itself. A name
/// without `::` is looked up unchanged.
pub proof fn lemma_proc_name_is_last_segment(name: Seq<char>)
    ensures
        ({
            let r = spec_proc_name(name);
            let k = name.len() - r.len();
            &&& r.len() <= name.len()
            &&& name == name.take(k) + r
            &&& k == 0 || has_sep_at(name, k - 2)
            &&& forall|j: int| k <= j ==> !#[trigger] has_sep_at(name, j)
        }),
        (forall|j: int| !#[trigger] has_sep_at(name, j)) ==> spec_proc_name(name) == name,
{
    lemma_segment_start_is_last_segment(name, 0, 0);
    let start = segment_start(name, 0, 0);
    let r = spec_proc_name(name);
    assert(r.len() == name.len() - start);
    assert(name =~= name.take(start) + r);
    if forall|j: int| !#[trigger] has_sep_at(name, j) {
        if start != 0 {
            assert(has_sep_at(name, start - 2));
        }
        assert(r =~= name);
    }
}

pub fn proc_name(name: &str) -> (res: String)
    ensures
        res@ == spec_proc_name(name@),
        res@.len() <= name@.len(),
        name@ == name@.take(name@.len() - res@.len()) + res@,
        name@.len() == res@.len() || has_sep_at(name@, name@.len() - res@.len() - 2),
        forall|j: int| name@.len() - res@.len() <= j ==> !#[trigger] has_sep_at(name@, j),
        (forall|j: int| !#[trigger] has_sep_at(name@, j)) ==> res@ == name@,
{
    proof {
        lemma_proc_name_is_last_segment(name@);
    }
    let n = name.unicode_len();
    let mut i: usize = 0;
    let mut start: usize = 0;
    while i < n && i + 1 < n
        invariant
            n == name@.len(),
            start <= i,
            i <= n,
            segment_start(name@, i as int, start as int) == segment_start(name@, 0, 0),
        decreases n - i,
    {
        if name.get_char(i) == ':' && name.get_char(i + 1) == ':' {
            i = i + 2;
            start = i;
        } else {
            i = i + 1;
        }
    }
    proof {
        lemma_segment_start_bounds(name@, i as int, start as int);
    }
    let mut res = String::new();
    let mut k: usize = start;
    while k < n
        invariant
            n == name@.len(),
            start <= k <= n,
            start == segment_start(name@, 0, 0),
            res@ == name@.subrange(start as int, k as int),
        decreases n - k,
    {
        push_char(&mut res, name.get_char(k));
        assert(name@.subrange(start as int, k + 1) =~= name@.subrange(start as int, k as int).push(
            name@[k as int],
        ));
        k = k + 1;
    }
    assert(name@.subrange(start as int, n as int) =~= name@.skip(start as int));
    res
}

/// The little-endian bytes of the low `n` bytes of `v`.
pub open spec fn le_bytes(v: u64, n: nat) -> Seq<u8> {
    Seq::new(n, |k: int| ((v >> (8 * k) as u64) & 0xff) as u8)
}

/// The code written over a stub: load the target address into the
/// accumulator and jump to it (`mov eax, imm32; jmp eax` on 32-bit x86,
/// `mov rax, imm64; jmp rax` on x86-64).
pub open spec fn spec_jump_thunk(dest: u64, wide: bool) -> Seq<u8> {
    if wide {
        seq![0x48u8, 0xb8u8] + le_bytes(dest, 8) + seq![0xffu8, 0xe0u8]
    } else {
        seq![0xb8u8] + le_bytes(dest, 4) + seq![0xffu8, 0xe0u8]
    }
}

/// Powers of 256.
pub open spec fn pow256(k: nat) -> int
    decreases k,
{
    if k == 0 {
        1
    } else {
        256 * pow256((k - 1) as nat)
    }
}

/// The number that bytes stand for, least significant first.
pub open spec fn le_value(bytes: Seq<u8>) -> int
    decreases bytes.len(),
{
    if bytes.len() == 0 {
        0
    } else {
        le_value(bytes.drop_last()) + bytes.last() * pow256((bytes.len() - 1) as nat)
    }
}

proof fn lemma_le_bytes_step(v: u64, n: nat)
    ensures
        le_bytes(v, n + 1).drop_last() == le_bytes(v, n),
        le_bytes(v, n + 1).last() == ((v >> (8 * n) as u64) & 0xff) as u8,
        le_value(le_bytes(v, n + 1)) == le_value(le_bytes(v, n)) + (((v >> (8 * n) as u64) & 0xff)
            as u8) * pow256(n),
{
    assert(le_bytes(v, n + 1).drop_last() =~= le_bytes(v, n));
}

proof fn lemma_byte_of(v: u64, k: u64)
    requires
        k < 64,
    ensures
        (((v >> k) & 0xff) as u8) as int == (v >> k) & 0xff,
{
    assert((((v >> k) & 0xff) as u8) as u64 == (v >> k) & 0xff) by (bit_vector);
}

/// The address bytes of a jump read back, least significant first, as the
/// address jumped to: all eight on x86-64, and the low four on 32-bit x86
/// where the address fits in 32 bits.
pub proof fn lemma_le_bytes_read_back(v: u64)
    ensures
        le_value(le_bytes(v, 8)) == v,
        v <= u32::MAX ==> le_value(le_bytes(v, 4)) == v,
{
    reveal_with_fuel(pow256, 8);
    assert(pow256(1) == 0x100);
    assert(pow256(2) == 0x10000);
    assert(pow256(3) == 0x1000000);
    assert(pow256(4) == 0x100000000);
    assert(pow256(5) == 0x10000000000);
    assert(pow256(6) == 0x1000000000000);
    assert(pow256(7) == 0x100000000000000);
    lemma_byte_of(v, 0);
    lemma_byte_of(v, 8);
    lemma_byte_of(v, 16);
    lemma_byte_of(v, 24);
    lemma_byte_of(v, 32);
    lemma_byte_of(v, 40);
    lemma_byte_of(v, 48);
    lemma_byte_of(v, 56);
    assert(le_bytes(v, 0) =~= Seq::<u8>::empty());
    lemma_le_bytes_step(v, 0);
    lemma_le_bytes_step(v, 1);
    lemma_le_bytes_step(v, 2);
    lemma_le_bytes_step(v, 3);
    lemma_le_bytes_step(v, 4);
    lemma_le_bytes_step(v, 5);
    lemma_le_bytes_step(v, 6);
    lemma_le_bytes_step(v, 7);
    assert(v >> 0u64 == v) by (bit_vector);
    assert(v == (v & 0xff) + ((v >> 8u64) & 0xff) * 0x100 + ((v >> 16u64) & 0xff) * 0x10000 + ((v
        >> 24u64) & 0xff) * 0x1000000 + ((v >> 32u64) & 0xff) * 0x100000000 + ((v >> 40u64) & 0xff)
        * 0x10000000000 + ((v >> 48u64) & 0xff) * 0x1000000000000 + ((v >> 56u64) & 0xff)
        * 0x100000000000000) by (bit_vector);
    assert(v <= 0xffffffff ==> v == (v & 0xff) + ((v >> 8u64) & 0xff) * 0x100 + ((v >> 16u64)
        & 0xff) * 0x10000 + ((v >> 24u64) & 0xff) * 0x1000000) by (bit_vector);
}

/// The jump written over a stub goes to the given address: after the
/// opcode bytes (`mov rax` / `mov eax`) come the address bytes, which read
/// back as the address, and `jmp rax` / `jmp eax` closes it.
pub proof fn lemma_jump_thunk_targets(dest: u64, wide: bool)
    requires
        !wide ==> dest <= u32::MAX,
    ensures
        wide ==> spec_jump_thunk(dest, wide).len() == 12 && spec_jump_thunk(dest, wide).take(2)
            == seq![0x48u8, 0xb8u8] && le_value(spec_jump_thunk(dest, wide).subrange(2, 10))
            == dest && spec_jump_thunk(dest, wide).subrange(10, 12) == seq![0xffu8, 0xe0u8],
        !wide ==> spec_jump_thunk(dest, wide).len() == 7 && spec_jump_thunk(dest, wide).take(1)
            == seq![0xb8u8] && le_value(spec_jump_thunk(dest, wide).subrange(1, 5)) == dest
            && spec_jump_thunk(dest, wide).subrange(5, 7) == seq![0xffu8, 0xe0u8],
{
    lemma_le_bytes_read_back(dest);
    let t = spec_jump_thunk(dest, wide);
    if wide {
        assert(t.take(2) =~= seq![0x48u8, 0xb8u8]);
        assert(t.subrange(2, 10) =~= le_bytes(dest, 8));
        assert(t.subrange(10, 12) =~= seq![0xffu8, 0xe0u8]);
    } else {
        assert(t.take(1) =~= seq![0xb8u8]);
        assert(t.subrange(1, 5) =~= le_bytes(dest, 4));
        assert(t.subrange(5, 7) =~= seq![0xffu8, 0xe0u8]);
    }
}

pub fn jump_thunk(dest: u64, wide: bool) -> (code: Vec<u8>)
    requires
        !wide ==> dest <= u32::MAX,
    ensures
        code@ == spec_jump_thunk(dest, wide),
        wide ==> code@.len() == 12 && le_value(code@.subrange(2, 10)) == dest,
        !wide ==> code@.len() == 7 && le_value(code@.subrange(1, 5)) == dest,
{
    proof {
        lemma_jump_thunk_targets(dest, wide);
    }
    let mut code: Vec<u8> = Vec::new();
    if wide {
        code.push(0x48);
    }
    code.push(0xb8);
    let prefix = code.len();
    let width: u64 = if wide { 8 } else { 4 };
    let mut k: u64 = 0;
    while k < width
        invariant
            width == (if wide { 8u64 } else { 4u64 }),
            k <= width,
            prefix == (if wide { 2usize } else { 1usize }),
            code@.len() == prefix + k,
            code@.subrange(0, prefix as int) == (if wide { seq![0x48u8, 0xb8u8] } else { seq![0xb8u8] }),
            code@.subrange(prefix as int, prefix + k) == le_bytes(dest, k as nat),
        decreases width - k,
    {
        let shifted = (dest >> (8 * k)) & 0xff;
        assert(shifted <= 0xff) by (bit_vector)
            requires
                shifted == (dest >> (8 * k)) & 0xff,
        ;
        let byte = shifted as u8;
        assert(byte == le_bytes(dest, (k + 1) as nat)[k as int]);
        let ghost before = code@;
        code.push(byte);
        assert(code@.subrange(0, prefix as int) =~= before.subrange(0, prefix as int));
        assert(code@.subrange(prefix as int, prefix + k + 1) =~= before.subrange(
            prefix as int,
            prefix + k,
        ).push(byte));
        assert(le_bytes(dest, (k + 1) as nat) =~= le_bytes(dest, k as nat).push(byte));
        assert(code@.subrange(prefix as int, prefix + k + 1) =~= le_bytes(dest, (k + 1) as nat));
        k = k + 1;
    }
    let ghost body = code@;
    code.push(0xff);
    code.push(0xe0);
    assert(code@ =~= spec_jump_thunk(dest, wide)) by {
        assert(body =~= body.subrange(0, prefix as int) + body.subrange(prefix as int, body.len() as int));
    }
    code
}

} // verus!
