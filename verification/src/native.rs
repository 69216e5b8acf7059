//! The native (Apple Silicon) backend: assembly text for an IR module.
//!
//! The module holds, of the compiler's IR, what code generation reads: each
//! function's name, parameter and local counts, result type, body and
//! export flag, and the field counts of struct types.

use vstd::prelude::*;
use crate::text::{nat_digits, owned, push_char, push_str, push_u64};
use crate::native::emitter::{emit_function, function_text_spec};

pub mod emitter;



verus! {

/// The value types the backend distinguishes.
#[derive(Debug, Clone, Copy, PartialEq, Eq, Structural)]
pub enum IrType {
    I32,
    I64,
    /// Any other value type.
    Other,
}

/// An IR instruction, as the backend reads it.
#[derive(Debug)]
pub enum Instruction {
    I64Const(i64),
    I32Const(i32),
    LocalGet(u32),
    LocalSet(u32),
    LocalTee(u32),
    I64Add,
    I32Add,
    I64Sub,
    I32Sub,
    I64Mul,
    I32Mul,
    I64Div,
    I64Rem,
    I64Eq,
    I64Ne,
    I64LtS,
    I64GtS,
    I64LeS,
    I64GeS,
    I32GtU,
    I32GeU,
    I32Eqz,
    I32And,
    I64And,
    I32Or,
    I64Or,
    I64Xor,
    I64Shl,
    I32Shl,
    I64ShrU,
    I32ShrU,
    I64ExtendI32S,
    I64ExtendI32U,
    I32WrapI64,
    Call(u32),
    CallImport(u32),
    /// `if` with a result type.
    If,
    /// `if` without a result.
    IfEmpty,
    Else,
    End,
    Drop,
    Return,
    StructNew(u32),
    StructGet(u32, u32),
    StructSet(u32, u32),
    I32Load { offset: u32 },
    I32Load8U { offset: u32 },
    I32Store { offset: u32 },
    I32Store8 { offset: u32 },
    I64Load { offset: u32 },
    I64Store { offset: u32 },
    Unreachable,
    /// An instruction this backend does not generate, with its rendering.
    Unsupported(String),
}

/// A function of the module.
#[derive(Debug)]
pub struct NativeFunction {
    pub name: String,
    pub param_count: usize,
    pub local_count: usize,
    pub result: IrType,
    pub body: Vec<Instruction>,
    pub is_export: bool,
}

/// The shape of a GC type.
#[derive(Debug, Clone, Copy, PartialEq, Eq, Structural)]
pub enum GcTypeKind {
    /// A struct with this many fields.
    Struct(usize),
    Array,
    PackedByteArray,
}

/// A GC type of the module.
#[derive(Debug)]
pub struct GcType {
    pub name: String,
    pub kind: GcTypeKind,
}

/// An IR module.
#[derive(Debug)]
pub struct NativeModule {
    pub functions: Vec<NativeFunction>,
    pub gc_types: Vec<GcType>,
}

/// The number of runtime imports before the module's own functions in the
/// call index space.
pub open spec fn import_count() -> int {
    17
}

/// The size bound under which the backend's label counters, stack depths and
/// frame offsets stay within their machine integers.
pub open spec fn size_limit() -> int {
    0x1000_0000
}

/// The module is within the sizes the backend handles.
pub open spec fn within_limits(m: NativeModule) -> bool {
    &&& m.functions@.len() <= size_limit()
    &&& forall|i: int|
        0 <= i < m.functions@.len() ==> {
            let f = #[trigger] m.functions@[i];
            &&& f.param_count + f.local_count <= size_limit()
            &&& f.body@.len() <= size_limit()
        }
    &&& forall|i: int|
        0 <= i < m.gc_types@.len() ==> (#[trigger] m.gc_types@[i].kind matches GcTypeKind::Struct(
            n,
        ) ==> n <= size_limit())
}

/// Whether the module is within the sizes the backend handles.
pub fn fits_native_limits(m: &NativeModule) -> (r: bool)
    ensures
        r == within_limits(*m),
{
    if m.functions.len() > 0x1000_0000 {
        return false;
    }
    let mut i: usize = 0;
    while i < m.functions.len()
        invariant
            i <= m.functions@.len(),
            forall|k: int|
                0 <= k < i ==> {
                    let f = #[trigger] m.functions@[k];
                    &&& f.param_count + f.local_count <= size_limit()
                    &&& f.body@.len() <= size_limit()
                },
        decreases m.functions.len() - i,
    {
        let f = &m.functions[i];
        if f.param_count > 0x1000_0000 || f.local_count > 0x1000_0000 - f.param_count
            || f.body.len() > 0x1000_0000 {
            return false;
        }
        i = i + 1;
    }
    let mut j: usize = 0;
    while j < m.gc_types.len()
        invariant
            j <= m.gc_types@.len(),
            forall|k: int|
                0 <= k < j ==> (#[trigger] m.gc_types@[k].kind matches GcTypeKind::Struct(n) ==> n
                    <= size_limit()),
        decreases m.gc_types.len() - j,
    {
        match m.gc_types[j].kind {
            GcTypeKind::Struct(n) => {
                if n > 0x1000_0000 {
                    return false;
                }
            },
            _ => {},
        }
        j = j + 1;
    }
    true
}

// ---------------------------------------------------------------------------
// Symbols and frame layout.

/// Whether a character may stand in a symbol as it is.
pub open spec fn symbol_char(c: char) -> bool {
    ('a' <= c <= 'z') || ('A' <= c <= 'Z') || ('0' <= c <= '9') || c == '_'
}

/// `name` with every character that may not stand in a symbol replaced by `_`.
pub open spec fn sanitize_spec(name: Seq<char>) -> Seq<char> {
    name.map_values(|c: char| if symbol_char(c) { c } else { '_' })
}

/// `name` with every character other than ASCII letters, digits and `_`
/// replaced by `_`.
pub fn native_sanitize_symbol(name: &str) -> (r: String)
    ensures
        r@ == sanitize_spec(name@),
{
    let chars = crate::text::chars_of(name);
    let mut out = String::new();
    let mut i: usize = 0;
    while i < chars.len()
        invariant
            i <= chars.len(),
            chars@ == name@,
            out@ == sanitize_spec(name@.take(i as int)),
        decreases chars.len() - i,
    {
        let c = chars[i];
        let ok = ('a' <= c && c <= 'z') || ('A' <= c && c <= 'Z') || ('0' <= c && c <= '9') || c
            == '_';
        push_char(&mut out, if ok { c } else { '_' });
        assert(sanitize_spec(name@.take(i + 1)) =~= sanitize_spec(name@.take(i as int)).push(
            if symbol_char(c) { c } else { '_' },
        ));
        i = i + 1;
    }
    assert(name@.take(chars.len() as int) =~= name@);
    out
}

/// The frame offset of local `index` from the frame pointer.
pub open spec fn local_offset_spec(index: int) -> int {
    -8 * (index + 1)
}

/// The frame offset of local `index` from the frame pointer.
pub fn native_local_offset(index: u32) -> (r: i32)
    requires
        index < size_limit(),
    ensures
        r == local_offset_spec(index as int),
{
    -8 * (index as i32 + 1)
}

/// The stack frame of a function: eight bytes per parameter and local,
/// rounded up to sixteen.
pub open spec fn frame_size_spec(slots: int) -> int {
    (slots * 8 + 15) / 16 * 16
}

/// The stack frame size of a function with `slots` parameters and locals.
pub fn native_frame_size(slots: usize) -> (r: usize)
    requires
        slots <= size_limit(),
    ensures
        r == frame_size_spec(slots as int),
{
    let bytes = slots * 8;
    (bytes + 15) / 16 * 16
}

/// The label of function `index`: `_main` for an exported `main`.
pub open spec fn function_label_spec(name: Seq<char>, is_export: bool, index: int) -> Seq<char> {
    if name == "main"@ && is_export {
        "_main"@
    } else {
        "_lsharp_fn_"@ + nat_digits(index as nat) + "_"@ + sanitize_spec(name)
    }
}

/// The label of function `function_index` of the module.
pub fn native_function_label(m: &NativeModule, function_index: usize) -> (r: String)
    requires
        function_index < m.functions@.len(),
    ensures
        r@ == function_label_spec(
            m.functions@[function_index as int].name@,
            m.functions@[function_index as int].is_export,
            function_index as int,
        ),
{
    let function = &m.functions[function_index];
    if crate::text::str_eq(function.name.as_str(), "main") && function.is_export {
        owned("_main")
    } else {
        let mut s = owned("_lsharp_fn_");
        push_u64(&mut s, function_index as u64);
        push_str(&mut s, "_");
        let sanitized = native_sanitize_symbol(function.name.as_str());
        push_str(&mut s, sanitized.as_str());
        s
    }
}

// ---------------------------------------------------------------------------
// Instruction text.

/// Pushing a register on the machine stack.
pub open spec fn push_text(register: Seq<char>) -> Seq<char> {
    "    sub sp, sp, #16\n"@ + "    str "@ + register + ", [sp]\n"@
}

/// Popping the machine stack into a register.
pub open spec fn pop_text(register: Seq<char>) -> Seq<char> {
    "    ldr "@ + register + ", [sp]\n"@ + "    add sp, sp, #16\n"@
}

/// The 16-bit chunk `k` of the two's-complement bits of `value`.
pub open spec fn chunk(value: i64, k: int) -> u64 {
    ((value as u64) >> ((16 * k) as u64)) & 0xffff
}

/// The `movk` line of chunk `k`, if it is not zero.
pub open spec fn movk_text(register: Seq<char>, value: i64, k: int) -> Seq<char> {
    if chunk(value, k) != 0 {
        "    movk "@ + register + ", #"@ + nat_digits(chunk(value, k) as nat) + ", lsl #"@
            + nat_digits((k * 16) as nat) + "\n"@
    } else {
        Seq::empty()
    }
}

/// Loading a 64-bit constant into a register: a `movz` of the low chunk and a
/// `movk` of each other chunk that is not zero.
pub open spec fn const_text(register: Seq<char>, value: i64) -> Seq<char> {
    "    movz "@ + register + ", #"@ + nat_digits(chunk(value, 0) as nat) + "\n"@ + movk_text(
        register,
        value,
        1,
    ) + movk_text(register, value, 2) + movk_text(register, value, 3)
}

/// Allocating `x9` bytes (rounded up to eight) on the bump heap; the
/// allocation's offset ends in `x9`.
pub open spec fn heap_alloc_text() -> Seq<char> {
    "    add x9, x9, #7\n"@ + "    lsr x9, x9, #3\n"@ + "    lsl x9, x9, #3\n"@
        + "    adrp x10, _lsharp_heap_next@PAGE\n"@ + "    add x10, x10, _lsharp_heap_next@PAGEOFF\n"@
        + "    ldr x11, [x10]\n"@ + "    add x12, x11, x9\n"@ + "    str x12, [x10]\n"@
        + "    mov x9, x11\n"@
}

/// `register` with its first `x` turned into `w`, naming its low 32 bits.
pub open spec fn narrow_register(register: Seq<char>) -> Seq<char> {
    match crate::text::find_char(register, 'x') {
        Some(i) => register.take(i) + seq!['w'] + register.skip(i + 1),
        None => register,
    }
}

/// Setting `target` to the heap base plus the 32-bit offset in `offset_register`.
pub open spec fn heap_address_text(offset_register: Seq<char>, target: Seq<char>) -> Seq<char> {
    "    uxtw "@ + offset_register + ", "@ + narrow_register(offset_register) + "\n"@
        + "    adrp "@ + target + ", _lsharp_heap@PAGE\n"@ + "    add "@ + target + ", "@ + target
        + ", _lsharp_heap@PAGEOFF\n"@ + "    add "@ + target + ", "@ + target + ", "@
        + offset_register + "\n"@
}

/// The heap address plus a memory-access offset.
pub open spec fn heap_address_memarg_text(
    offset_register: Seq<char>,
    target: Seq<char>,
    memarg_offset: u32,
) -> Seq<char> {
    heap_address_text(offset_register, target) + if memarg_offset > 0 {
        const_text("x12"@, memarg_offset as i64) + "    add "@ + target + ", "@ + target
            + ", x12\n"@
    } else {
        Seq::empty()
    }
}

/// Appends the push of `register`.
pub fn native_emit_push(out: &mut String, register: &str)
    ensures
        final(out)@ == old(out)@ + push_text(register@),
{
    push_str(out, "    sub sp, sp, #16\n");
    push_str(out, "    str ");
    push_str(out, register);
    push_str(out, ", [sp]\n");
    assert(out@ =~= old(out)@ + push_text(register@));
}

/// Appends the pop into `register`.
pub fn native_emit_pop(out: &mut String, register: &str)
    ensures
        final(out)@ == old(out)@ + pop_text(register@),
{
    push_str(out, "    ldr ");
    push_str(out, register);
    push_str(out, ", [sp]\n");
    push_str(out, "    add sp, sp, #16\n");
    assert(out@ =~= old(out)@ + pop_text(register@));
}

fn push_movk(out: &mut String, register: &str, value: i64, k: u64)
    requires
        1 <= k <= 3,
    ensures
        final(out)@ == old(out)@ + movk_text(register@, value, k as int),
{
    let c = ((value as u64) >> (16 * k)) & 0xffff;
    if c != 0 {
        push_str(out, "    movk ");
        push_str(out, register);
        push_str(out, ", #");
        push_u64(out, c);
        push_str(out, ", lsl #");
        push_u64(out, k * 16);
        push_str(out, "\n");
        assert(out@ =~= old(out)@ + movk_text(register@, value, k as int));
    } else {
        assert(out@ =~= old(out)@ + movk_text(register@, value, k as int));
    }
}

/// Appends the loading of a 64-bit constant into `register`.
pub fn native_emit_i64_const(out: &mut String, register: &str, value: i64)
    ensures
        final(out)@ == old(out)@ + const_text(register@, value),
{
    let raw = value as u64;
    push_str(out, "    movz ");
    push_str(out, register);
    push_str(out, ", #");
    push_u64(out, raw & 0xffff);
    push_str(out, "\n");
    assert(chunk(value, 0) == raw & 0xffff) by {
        assert((raw >> 0u64) == raw) by (bit_vector);
    }
    let ghost head = out@;
    push_movk(out, register, value, 1);
    push_movk(out, register, value, 2);
    push_movk(out, register, value, 3);
    assert(out@ =~= old(out)@ + const_text(register@, value));
}

/// Appends a bump-heap allocation of `x9` bytes.
pub fn native_emit_heap_alloc(out: &mut String)
    ensures
        final(out)@ == old(out)@ + heap_alloc_text(),
{
    push_str(out, "    add x9, x9, #7\n");
    push_str(out, "    lsr x9, x9, #3\n");
    push_str(out, "    lsl x9, x9, #3\n");
    push_str(out, "    adrp x10, _lsharp_heap_next@PAGE\n");
    push_str(out, "    add x10, x10, _lsharp_heap_next@PAGEOFF\n");
    push_str(out, "    ldr x11, [x10]\n");
    push_str(out, "    add x12, x11, x9\n");
    push_str(out, "    str x12, [x10]\n");
    push_str(out, "    mov x9, x11\n");
    assert(out@ =~= old(out)@ + heap_alloc_text());
}

fn narrow(register: &str) -> (r: String)
    ensures
        r@ == narrow_register(register@),
{
    let chars = crate::text::chars_of(register);
    match crate::text::find_char_exec(&chars, 'x') {
        Some(i) => {
            proof {
                crate::text::lemma_find_char_found(register@, 'x');
            }
            let n = chars.len();
            assert(i < n);
            let mut s = crate::text::string_from_range(&chars, 0, i);
            push_char(&mut s, 'w');
            let rest = crate::text::string_from_range(&chars, i + 1, chars.len());
            push_str(&mut s, rest.as_str());
            assert(s@ =~= register@.take(i as int) + seq!['w'] + register@.skip(i + 1));
            s
        },
        None => owned(register),
    }
}

/// Appends setting `target` to the heap base plus the offset in `offset_register`.
pub fn native_emit_heap_base_plus_offset(out: &mut String, offset_register: &str, target: &str)
    ensures
        final(out)@ == old(out)@ + heap_address_text(offset_register@, target@),
{
    let narrow_register = narrow(offset_register);
    push_str(out, "    uxtw ");
    push_str(out, offset_register);
    push_str(out, ", ");
    push_str(out, narrow_register.as_str());
    push_str(out, "\n");
    push_str(out, "    adrp ");
    push_str(out, target);
    push_str(out, ", _lsharp_heap@PAGE\n");
    push_str(out, "    add ");
    push_str(out, target);
    push_str(out, ", ");
    push_str(out, target);
    push_str(out, ", _lsharp_heap@PAGEOFF\n");
    push_str(out, "    add ");
    push_str(out, target);
    push_str(out, ", ");
    push_str(out, target);
    push_str(out, ", ");
    push_str(out, offset_register);
    push_str(out, "\n");
    assert(out@ =~= old(out)@ + heap_address_text(offset_register@, target@));
}

/// Appends the heap address plus a memory-access offset.
pub fn native_emit_heap_base_plus_offset_and_memarg(
    out: &mut String,
    offset_register: &str,
    target: &str,
    memarg_offset: u32,
)
    ensures
        final(out)@ == old(out)@ + heap_address_memarg_text(
            offset_register@,
            target@,
            memarg_offset,
        ),
{
    native_emit_heap_base_plus_offset(out, offset_register, target);
    if memarg_offset > 0 {
        native_emit_i64_const(out, "x12", memarg_offset as i64);
        push_str(out, "    add ");
        push_str(out, target);
        push_str(out, ", ");
        push_str(out, target);
        push_str(out, ", x12\n");
    }
    assert(out@ =~= old(out)@ + heap_address_memarg_text(offset_register@, target@, memarg_offset));
}


// ---------------------------------------------------------------------------
// The entry function and the functions reachable from it.

/// The message when a module has no `main`.
pub open spec fn missing_main_message() -> Seq<char> {
    "native backend には main 関数が必要です"@
}

/// Whether a function is `main` (and exported, when `exported_only`).
pub open spec fn is_main(f: NativeFunction, exported_only: bool) -> bool {
    f.name@ == "main"@ && (f.is_export || !exported_only)
}

/// The position of the first `main` among `fs` (exported, when `exported_only`).
pub open spec fn first_main(fs: Seq<NativeFunction>, exported_only: bool) -> Option<int>
    decreases fs.len(),
{
    if fs.len() == 0 {
        None
    } else if is_main(fs[0], exported_only) {
        Some(0)
    } else {
        match first_main(fs.drop_first(), exported_only) {
            Some(i) => Some(i + 1),
            None => None,
        }
    }
}

/// The entry function: the first exported `main`, else the first `main`.
pub open spec fn main_index_spec(m: NativeModule) -> Option<int> {
    match first_main(m.functions@, true) {
        Some(i) => Some(i),
        None => first_main(m.functions@, false),
    }
}

proof fn lemma_first_main_in_range(fs: Seq<NativeFunction>, exported_only: bool)
    ensures
        first_main(fs, exported_only) matches Some(i) ==> 0 <= i < fs.len(),
    decreases fs.len(),
{
    if fs.len() > 0 {
        lemma_first_main_in_range(fs.drop_first(), exported_only);
    }
}

fn find_main(m: &NativeModule, exported_only: bool) -> (r: Option<usize>)
    ensures
        match r {
            Some(i) => first_main(m.functions@, exported_only) == Some(i as int) && i
                < m.functions@.len(),
            None => first_main(m.functions@, exported_only) is None,
        },
{
    let fs = &m.functions;
    let mut i: usize = 0;
    assert(fs@.skip(0) =~= fs@);
    while i < fs.len()
        invariant
            i <= fs@.len(),
            fs@ == m.functions@,
            first_main(fs@, exported_only) == match first_main(fs@.skip(i as int), exported_only) {
                Some(j) => Some(j + i),
                None => None::<int>,
            },
        decreases fs.len() - i,
    {
        let f = &fs[i];
        proof {
            assert(fs@.skip(i as int)[0] == fs@[i as int]);
            assert(fs@.skip(i as int).drop_first() =~= fs@.skip(i + 1));
        }
        if crate::text::str_eq(f.name.as_str(), "main") && (f.is_export || !exported_only) {
            return Some(i);
        }
        i = i + 1;
    }
    None
}

/// The index of the entry function, or the error that the module has none.
pub fn native_main_index(m: &NativeModule) -> (r: Result<usize, String>)
    ensures
        match r {
            Ok(i) => main_index_spec(*m) == Some(i as int) && i < m.functions@.len(),
            Err(e) => main_index_spec(*m) is None && e@ == missing_main_message(),
        },
{
    match find_main(m, true) {
        Some(i) => Ok(i),
        None => match find_main(m, false) {
            Some(i) => Ok(i),
            None => Err(owned("native backend には main 関数が必要です")),
        },
    }
}

/// The module function an instruction calls, if it calls one.
pub open spec fn callee_of(ins: Instruction, n: int) -> Option<int> {
    match ins {
        Instruction::Call(index) => if index >= import_count() && index - import_count() < n {
            Some(index - import_count())
        } else {
            None
        },
        _ => None,
    }
}

/// Whether function `f` calls function `g`.
pub open spec fn calls(m: NativeModule, f: int, g: int) -> bool {
    &&& 0 <= f < m.functions@.len()
    &&& exists|k: int|
        0 <= k < m.functions@[f].body@.len() && callee_of(
            #[trigger] m.functions@[f].body@[k],
            m.functions@.len() as int,
        ) == Some(g)
}

/// A chain of calls from `path[0]` to its last function.
pub open spec fn is_call_path(m: NativeModule, path: Seq<int>) -> bool {
    &&& path.len() >= 1
    &&& forall|k: int| 0 <= k < path.len() - 1 ==> calls(m, #[trigger] path[k], path[k + 1])
}

/// Whether function `g` is reachable from function `start` by calls.
pub open spec fn reachable_from(m: NativeModule, start: int, g: int) -> bool {
    exists|path: Seq<int>| #[trigger] is_call_path(m, path) && path[0] == start && path.last() == g
}

proof fn lemma_reachable_start(m: NativeModule, start: int)
    ensures
        reachable_from(m, start, start),
{
    let path = seq![start];
    assert(is_call_path(m, path));
}

proof fn lemma_reachable_step(m: NativeModule, start: int, f: int, g: int)
    requires
        reachable_from(m, start, f),
        calls(m, f, g),
    ensures
        reachable_from(m, start, g),
{
    let path = choose|path: Seq<int>| #[trigger] is_call_path(m, path) && path[0] == start
        && path.last() == f;
    let longer = path.push(g);
    assert forall|k: int| 0 <= k < longer.len() - 1 implies calls(
        m,
        #[trigger] longer[k],
        longer[k + 1],
    ) by {
        if k < path.len() - 1 {
            assert(longer[k] == path[k] && longer[k + 1] == path[k + 1]);
        } else {
            assert(longer[k] == f && longer[k + 1] == g);
        }
    }
    assert(is_call_path(m, longer));
}

/// A set of functions that holds `start` and every callee of its members
/// holds every function reachable from `start`.
proof fn lemma_closed_holds_reachable(m: NativeModule, marked: Seq<bool>, start: int, g: int)
    requires
        marked.len() == m.functions@.len(),
        0 <= start < marked.len(),
        marked[start],
        forall|f: int, h: int|
            0 <= f < marked.len() && #[trigger] marked[f] && #[trigger] calls(m, f, h) ==> 0 <= h
                < marked.len() && marked[h],
        reachable_from(m, start, g),
    ensures
        0 <= g < marked.len() && marked[g],
{
    let path = choose|path: Seq<int>| #[trigger] is_call_path(m, path) && path[0] == start
        && path.last() == g;
    lemma_closed_along(m, marked, path, path.len() - 1);
}

proof fn lemma_closed_along(m: NativeModule, marked: Seq<bool>, path: Seq<int>, k: int)
    requires
        marked.len() == m.functions@.len(),
        is_call_path(m, path),
        0 <= k < path.len(),
        0 <= path[0] < marked.len(),
        marked[path[0]],
        forall|f: int, h: int|
            0 <= f < marked.len() && #[trigger] marked[f] && #[trigger] calls(m, f, h) ==> 0 <= h
                < marked.len() && marked[h],
    ensures
        0 <= path[k] < marked.len() && marked[path[k]],
    decreases k,
{
    if k > 0 {
        lemma_closed_along(m, marked, path, k - 1);
        assert(calls(m, path[k - 1], path[k]));
    }
}

/// The number of `true` entries.
pub open spec fn count_marked(s: Seq<bool>) -> nat
    decreases s.len(),
{
    if s.len() == 0 {
        0
    } else {
        count_marked(s.drop_last()) + if s.last() {
            1nat
        } else {
            0nat
        }
    }
}

proof fn lemma_count_marked_bound(s: Seq<bool>)
    ensures
        count_marked(s) <= s.len(),
    decreases s.len(),
{
    if s.len() > 0 {
        lemma_count_marked_bound(s.drop_last());
    }
}

proof fn lemma_count_marked_update(s: Seq<bool>, i: int)
    requires
        0 <= i < s.len(),
        !s[i],
    ensures
        count_marked(s.update(i, true)) == count_marked(s) + 1,
    decreases s.len(),
{
    let t = s.update(i, true);
    if i == s.len() - 1 {
        assert(t.drop_last() =~= s.drop_last());
    } else {
        assert(t.drop_last() =~= s.drop_last().update(i, true));
        lemma_count_marked_update(s.drop_last(), i);
    }
}

/// The functions reachable by calls from the entry function, in ascending
/// order, or the error that the module has no `main`.
pub fn native_reachable_function_indexes(m: &NativeModule) -> (r: Result<Vec<usize>, String>)
    ensures
        match r {
            Ok(v) => main_index_spec(*m) matches Some(main) && (forall|a: int, b: int|
                0 <= a < b < v@.len() ==> v@[a] < v@[b]) && (forall|g: int|
                0 <= g < m.functions@.len() ==> (v@.contains(g as usize) <==> reachable_from(
                    *m,
                    main,
                    g,
                ))) && (forall|a: int| 0 <= a < v@.len() ==> v@[a] < m.functions@.len()),
            Err(e) => main_index_spec(*m) is None && e@ == missing_main_message(),
        },
{
    let main = match native_main_index(m) {
        Ok(i) => i,
        Err(e) => {
            return Err(e);
        },
    };
    let n = m.functions.len();
    let mut reachable: Vec<bool> = vec![false; n];
    let mut pending: Vec<usize> = vec![main];
    proof {
        lemma_reachable_start(*m, main as int);
    }
    loop
        invariant
            n == m.functions@.len(),
            main < n,
            main_index_spec(*m) == Some(main as int),
            reachable@.len() == n,
            forall|k: int| 0 <= k < pending@.len() ==> #[trigger] pending@[k] < n,
            forall|k: int|
                0 <= k < pending@.len() ==> reachable_from(*m, main as int, #[trigger] pending@[k] as int),
            forall|i: int| 0 <= i < n && #[trigger] reachable@[i] ==> reachable_from(*m, main as int, i),
            reachable@[main as int] || pending@.contains(main),
            forall|f: int, h: int|
                0 <= f < n && #[trigger] reachable@[f] && #[trigger] calls(*m, f, h) ==> 0 <= h < n
                    && (reachable@[h] || pending@.contains(h as usize)),
        ensures
            pending@.len() == 0,
        decreases n - count_marked(reachable@), pending@.len(),
    {
        let ghost pre = pending@;
        let f = match pending.pop() {
            Some(f) => f,
            None => {
                break;
            },
        };
        let ghost popped = pending@;
        assert(pre =~= popped.push(f));
        if reachable[f] {
            proof {
                assert forall|g: int, h: int|
                    0 <= g < n && #[trigger] reachable@[g] && #[trigger] calls(*m, g, h) implies 0
                        <= h < n && (reachable@[h] || pending@.contains(h as usize)) by {
                    if !reachable@[h] {
                        let old_pending = popped.push(f);
                        assert(pre.contains(h as usize));
                        let k = choose|k: int| 0 <= k < old_pending.len() && old_pending[k] == h as usize;
                        if k < popped.len() {
                            assert(popped[k] == h as usize);
                        }
                    }
                }
                if !reachable@[main as int] {
                    let old_pending = popped.push(f);
                    let k = choose|k: int| 0 <= k < old_pending.len() && old_pending[k] == main;
                    if k < popped.len() {
                        assert(popped[k] == main);
                    }
                }
            }
            continue;
        }
        proof {
            assert(popped.push(f)[popped.len() as int] == f);
            lemma_count_marked_update(reachable@, f as int);
            lemma_count_marked_bound(reachable@.update(f as int, true));
        }
        let ghost before_mark = reachable@;
        reachable.set(f, true);
        let body = &m.functions[f].body;
        let mut k: usize = 0;
        while k < body.len()
            invariant
                n == m.functions@.len(),
                f < n,
                *body == m.functions@[f as int].body,
                k <= body@.len(),
                reachable_from(*m, main as int, f as int),
                popped.len() <= pending@.len(),
                forall|j: int| 0 <= j < popped.len() ==> pending@[j] == #[trigger] popped[j],
                forall|j: int| 0 <= j < pending@.len() ==> #[trigger] pending@[j] < n,
                forall|j: int|
                    0 <= j < pending@.len() ==> reachable_from(*m, main as int, #[trigger] pending@[j] as int),
                forall|j: int|
                    0 <= j < k ==> (callee_of(#[trigger] body@[j], n as int) matches Some(h)
                        ==> pending@.contains(h as usize)),
            decreases body.len() - k,
        {
            match &body[k] {
                Instruction::Call(index) => {
                    let index = *index;
                    if index >= 17 && ((index - 17) as usize) < n {
                        let h = (index - 17) as usize;
                        proof {
                            assert(calls(*m, f as int, h as int)) by {
                                assert(callee_of(body@[k as int], n as int) == Some(h as int));
                            }
                            lemma_reachable_step(*m, main as int, f as int, h as int);
                        }
                        let ghost before_push = pending@;
                        pending.push(h);
                        proof {
                            assert(pending@[pending@.len() - 1] == h);
                            assert forall|j: int|
                                0 <= j < k + 1 implies (callee_of(#[trigger] body@[j], n as int) matches Some(
                                    g,
                                ) ==> pending@.contains(g as usize)) by {
                                if j < k {
                                    if let Some(g) = callee_of(body@[j], n as int) {
                                        let w = choose|w: int| 0 <= w < before_push.len() && before_push[w] == g as usize;
                                        assert(pending@[w] == g as usize);
                                    }
                                }
                            }
                        }
                    }
                },
                _ => {},
            }
            k = k + 1;
        }
        proof {
            assert forall|g: int, h: int|
                0 <= g < n && #[trigger] reachable@[g] && #[trigger] calls(*m, g, h) implies 0 <= h
                    < n && (reachable@[h] || pending@.contains(h as usize)) by {
                let w = choose|w: int|
                    0 <= w < m.functions@[g].body@.len() && callee_of(
                        #[trigger] m.functions@[g].body@[w],
                        m.functions@.len() as int,
                    ) == Some(h);
                if g == f as int {
                    assert(callee_of(body@[w], n as int) == Some(h));
                } else {
                    assert(before_mark[g]);
                    if !before_mark[h] && h != f as int {
                        let old_pending = popped.push(f);
                        assert(pre.contains(h as usize));
                        let q = choose|q: int| 0 <= q < old_pending.len() && old_pending[q] == h as usize;
                        assert(q < popped.len());
                        assert(pending@[q] == h as usize);
                    }
                }
            }
            if !reachable@[main as int] {
                let old_pending = popped.push(f);
                let q = choose|q: int| 0 <= q < old_pending.len() && old_pending[q] == main;
                if q < popped.len() {
                    assert(pending@[q] == main);
                }
            }
        }
    }
    proof {
        assert forall|g: int| 0 <= g < n implies (#[trigger] reachable@[g] <==> reachable_from(*m, main as int, g)) by {
            if reachable_from(*m, main as int, g) {
                lemma_closed_holds_reachable(*m, reachable@, main as int, g);
            }
        }
    }
    let mut out: Vec<usize> = Vec::new();
    let mut i: usize = 0;
    while i < n
        invariant
            i <= n,
            n == reachable@.len(),
            n == m.functions@.len(),
            main_index_spec(*m) == Some(main as int),
            forall|g: int| 0 <= g < n ==> (#[trigger] reachable@[g] <==> reachable_from(*m, main as int, g)),
            forall|a: int, b: int| 0 <= a < b < out@.len() ==> out@[a] < out@[b],
            forall|a: int| 0 <= a < out@.len() ==> #[trigger] out@[a] < i,
            forall|g: int| 0 <= g < i ==> (out@.contains(g as usize) <==> #[trigger] reachable@[g]),
        decreases n - i,
    {
        let ghost before = out@;
        if reachable[i] {
            out.push(i);
        }
        proof {
            assert forall|g: int| 0 <= g < i + 1 implies (out@.contains(g as usize) <==> #[trigger] reachable@[g]) by {
                if g < i {
                    if before.contains(g as usize) {
                        let w = choose|w: int| 0 <= w < before.len() && before[w] == g as usize;
                        assert(out@[w] == g as usize);
                    }
                    if out@.contains(g as usize) {
                        let w = choose|w: int| 0 <= w < out@.len() && out@[w] == g as usize;
                        if w < before.len() {
                            assert(before[w] == g as usize);
                        }
                    }
                } else {
                    if reachable@[g] {
                        assert(out@[out@.len() - 1] == g as usize);
                    }
                    if out@.contains(g as usize) {
                        let w = choose|w: int| 0 <= w < out@.len() && out@[w] == g as usize;
                        if w < before.len() {
                            assert(before[w] < i);
                        }
                    }
                }
            }
        }
        i = i + 1;
    }
    proof {
        assert forall|g: int| 0 <= g < m.functions@.len() implies (out@.contains(g as usize)
            <==> reachable_from(*m, main as int, g)) by {
            assert(out@.contains(g as usize) <==> reachable@[g]);
        }
    }
    Ok(out)
}


// ---------------------------------------------------------------------------
// The whole module.

/// The functions reachable from `main`, each once, in ascending order.
pub open spec fn reachable_listing(m: NativeModule, main: int, v: Seq<usize>) -> bool {
    &&& forall|a: int, b: int| 0 <= a < b < v.len() ==> v[a] < v[b]
    &&& forall|a: int| 0 <= a < v.len() ==> v[a] < m.functions@.len()
    &&& forall|g: int|
        0 <= g < m.functions@.len() ==> (v.contains(g as usize) <==> reachable_from(m, main, g))
}

/// The data and text sections that precede the functions: the `printf`
/// format, the heap pointer and the heap itself.
pub open spec fn module_header() -> Seq<char> {
    ".section __TEXT,__cstring\n"@ + "L_lsharp_fmt_i64:\n"@ + ".asciz \"%lld\\n\"\n"@ + ".data\n"@
        + ".p2align 3\n"@ + "_lsharp_heap_next:\n"@ + ".quad 0\n"@
        + ".zerofill __DATA,__bss,_lsharp_heap,1048576,4\n"@ + ".text\n"@
}

/// The texts of the functions `order`, one after another, or the error of
/// the first that cannot be generated.
pub open spec fn functions_text(m: NativeModule, order: Seq<usize>) -> Result<Seq<char>, Seq<char>>
    decreases order.len(),
{
    if order.len() == 0 {
        Ok(Seq::empty())
    } else {
        match functions_text(m, order.drop_last()) {
            Err(e) => Err(e),
            Ok(t) => match function_text_spec(m, order.last() as int) {
                Err(e) => Err(e),
                Ok(u) => Ok(t + u),
            },
        }
    }
}

/// Once a prefix of the functions fails, the whole listing fails with the
/// same error.
proof fn lemma_functions_error(m: NativeModule, order: Seq<usize>, k: int)
    requires
        0 <= k <= order.len(),
        functions_text(m, order.take(k)) is Err,
    ensures
        functions_text(m, order) == functions_text(m, order.take(k)),
    decreases order.len() - k,
{
    if k < order.len() {
        assert(order.take(k + 1).drop_last() =~= order.take(k));
        lemma_functions_error(m, order, k + 1);
    } else {
        assert(order.take(k) =~= order);
    }
}

/// Appends the texts of the functions `order` to `out`; on the first that
/// cannot be generated, returns its error.
#[verifier::spinoff_prover]
fn emit_functions(m: &NativeModule, order: &Vec<usize>, out: &mut String) -> (r: Result<(), String>)
    requires
        within_limits(*m),
        forall|a: int| 0 <= a < order@.len() ==> order@[a] < m.functions@.len(),
    ensures
        match functions_text(*m, order@) {
            Ok(t) => r is Ok && final(out)@ == old(out)@ + t,
            Err(e) => r matches Err(x) && x@ == e,
        },
{
    let ghost out0 = out@;
    let ghost mut text: Seq<char> = Seq::empty();
    assert(order@.take(0) =~= Seq::<usize>::empty());
    let mut i: usize = 0;
    while i < order.len()
        invariant
            within_limits(*m),
            forall|a: int| 0 <= a < order@.len() ==> order@[a] < m.functions@.len(),
            i <= order@.len(),
            out@ == out0 + text,
            functions_text(*m, order@.take(i as int)) == Ok::<Seq<char>, Seq<char>>(text),
        decreases order.len() - i,
    {
        proof {
            assert(order@.take(i + 1).drop_last() =~= order@.take(i as int));
            assert(order@.take(i + 1).last() == order@[i as int]);
        }
        let fi = order[i];
        match emit_function(m, fi) {
            Ok(t) => {
                push_str(out, t.as_str());
                proof {
                    text = text + t@;
                    assert(out@ =~= out0 + text);
                }
            },
            Err(e) => {
                proof {
                    assert(functions_text(*m, order@.take(i + 1)) == Err::<Seq<char>, Seq<char>>(e@));
                    lemma_functions_error(*m, order@, i + 1);
                }
                return Err(e);
            },
        }
        i = i + 1;
    }
    assert(order@.take(order@.len() as int) =~= order@);
    Ok(())
}

/// The assembly text of the module: the header, then each function
/// reachable from `main` in ascending order; or the error that there is no
/// `main`, or the first reachable function's error.
pub fn native_module_assembly(m: &NativeModule) -> (r: Result<String, String>)
    requires
        within_limits(*m),
    ensures
        match main_index_spec(*m) {
            None => r matches Err(e) && e@ == missing_main_message(),
            Some(main) => exists|v: Seq<usize>|
                #[trigger] reachable_listing(*m, main, v) && match functions_text(*m, v) {
                    Ok(t) => r matches Ok(s) && s@ == module_header() + t,
                    Err(e) => r matches Err(x) && x@ == e,
                },
        },
{
    let order = match native_reachable_function_indexes(m) {
        Ok(v) => v,
        Err(e) => {
            return Err(e);
        },
    };
    let ghost main = main_index_spec(*m)->Some_0;
    assert(reachable_listing(*m, main, order@));
    let mut out = owned(".section __TEXT,__cstring\n");
    push_str(&mut out, "L_lsharp_fmt_i64:\n");
    push_str(&mut out, ".asciz \"%lld\\n\"\n");
    push_str(&mut out, ".data\n");
    push_str(&mut out, ".p2align 3\n");
    push_str(&mut out, "_lsharp_heap_next:\n");
    push_str(&mut out, ".quad 0\n");
    push_str(&mut out, ".zerofill __DATA,__bss,_lsharp_heap,1048576,4\n");
    push_str(&mut out, ".text\n");
    assert(out@ =~= module_header());
    match emit_functions(m, &order, &mut out) {
        Ok(()) => Ok(out),
        Err(e) => Err(e),
    }
}

/// A native backend failure as it is reported: its message behind the
/// backend's diagnostic code.
pub fn native_backend_error(message: &str) -> (r: String)
    ensures
        r@ == "[LS4001] "@ + message@,
{
    let mut s = owned("[LS4001] ");
    push_str(&mut s, message);
    s
}

} // verus!
