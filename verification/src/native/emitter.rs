//! Assembly text for one function: a stack machine whose operand stack lives
//! on the machine stack, one 16-byte slot per value.

use vstd::prelude::*;
use crate::native::{
    const_text, frame_size_spec, function_label_spec, heap_address_memarg_text, heap_address_text,
    heap_alloc_text, local_offset_spec, native_emit_heap_alloc,
    native_emit_heap_base_plus_offset, native_emit_heap_base_plus_offset_and_memarg,
    native_emit_i64_const, native_emit_pop, native_emit_push, native_frame_size,
    native_function_label, native_local_offset, native_sanitize_symbol, pop_text, push_text,
    sanitize_spec, size_limit, within_limits, GcTypeKind, Instruction, IrType, NativeFunction,
    NativeModule,
};
use crate::text::{int_decimal, nat_digits, owned, push_i64, push_str, push_u64};

verus! {

/// An open `if`: its labels, the stack depth on entry, and the depth at the
/// end of its `then` branch once an `else` was seen.
pub struct FrameView {
    pub else_label: Seq<char>,
    pub end_label: Seq<char>,
    pub entry_depth: nat,
    pub then_depth: Option<nat>,
}

/// The state of the emitter: operand stack depth, label counter, open `if`s.
pub struct EmitView {
    pub depth: nat,
    pub counter: nat,
    pub frames: Seq<FrameView>,
}

/// The state with `k` values popped.
pub open spec fn popped(st: EmitView, k: nat) -> EmitView {
    EmitView { depth: (st.depth - k) as nat, ..st }
}

/// The state with one value pushed.
pub open spec fn pushed(st: EmitView) -> EmitView {
    EmitView { depth: st.depth + 1, ..st }
}

/// The function being emitted.
pub open spec fn fun_of(m: NativeModule, fi: int) -> NativeFunction {
    m.functions@[fi]
}

/// The name of the function being emitted.
pub open spec fn name_of(m: NativeModule, fi: int) -> Seq<char> {
    fun_of(m, fi).name@
}

/// A label of the function: `kind` with the label counter.
pub open spec fn label_spec(m: NativeModule, fi: int, counter: nat, kind: Seq<char>) -> Seq<char> {
    "L_lsharp_"@ + nat_digits(fi as nat) + "_"@ + sanitize_spec(name_of(m, fi)) + "_"@ + nat_digits(
        counter,
    ) + "_"@ + kind
}

/// The label the function returns through.
pub open spec fn return_label_spec(m: NativeModule, fi: int) -> Seq<char> {
    "L_lsharp_return_"@ + nat_digits(fi as nat) + "_"@ + sanitize_spec(name_of(m, fi))
}

pub open spec fn underflow_message(name: Seq<char>) -> Seq<char> {
    "native backend の Apple Silicon 実装でスタック値が不足しています: "@ + name
}

pub open spec fn local_range_message(name: Seq<char>, index: int, count: int) -> Seq<char> {
    "native backend の Apple Silicon 実装で local index が範囲外です: "@ + name + " local="@
        + nat_digits(index as nat) + " local_count="@ + nat_digits(count as nat)
}

pub open spec fn unsupported_message(name: Seq<char>, rendering: Seq<char>) -> Seq<char> {
    "native backend の Apple Silicon 実装は未対応 IR を含む関数をまだ生成できません: "@ + name + " "@
        + rendering
}

pub open spec fn import_call_message(index: int) -> Seq<char> {
    "native backend の Apple Silicon 実装は import/runtime call をまだ生成できません: call "@
        + nat_digits(index as nat)
}

pub open spec fn call_range_message(index: int) -> Seq<char> {
    "native backend の Apple Silicon 実装で call index が関数範囲外です: call "@ + nat_digits(
        index as nat,
    )
}

pub open spec fn call_arity_message(callee: Seq<char>) -> Seq<char> {
    "native backend の Apple Silicon 実装は 8 引数までの呼び出しのみ対応しています: "@ + callee
}

pub open spec fn else_message() -> Seq<char> {
    "native backend の Apple Silicon 実装で else に対応する if がありません"@
}

pub open spec fn end_message() -> Seq<char> {
    "native backend の Apple Silicon 実装で end に対応する block がありません"@
}

pub open spec fn branch_depth_message(then_depth: nat, else_depth: nat) -> Seq<char> {
    "native backend の Apple Silicon 実装で if 分岐の stack depth が一致しません: then="@
        + nat_digits(then_depth) + " else="@ + nat_digits(else_depth)
}

pub open spec fn struct_type_message(type_index: int) -> Seq<char> {
    "native backend の Apple Silicon 実装で struct type index が範囲外です: type="@ + nat_digits(
        type_index as nat,
    )
}

pub open spec fn array_type_message(gc_name: Seq<char>) -> Seq<char> {
    "native backend の Apple Silicon 実装は array GC type をまだ生成できません: "@ + gc_name
}

pub open spec fn field_range_message(type_index: int, field_index: int) -> Seq<char> {
    "native backend の Apple Silicon 実装で struct field index が範囲外です: type="@ + nat_digits(
        type_index as nat,
    ) + " field="@ + nat_digits(field_index as nat)
}

/// The field count of struct type `t`, or the error for another type.
pub open spec fn field_count_spec(m: NativeModule, t: int) -> Result<nat, Seq<char>> {
    if !(0 <= t < m.gc_types@.len()) {
        Err(struct_type_message(t))
    } else {
        match m.gc_types@[t].kind {
            GcTypeKind::Struct(n) => Ok(n as nat),
            _ => Err(array_type_message(m.gc_types@[t].name@)),
        }
    }
}

/// The outcome of an instruction: the new state and its text, or an error.
pub type StepResult = Result<(EmitView, Seq<char>), Seq<char>>;

/// A binary operation on the two topmost values.
pub open spec fn binop_step(m: NativeModule, fi: int, st: EmitView, op: Seq<char>) -> StepResult {
    if st.depth < 2 {
        Err(underflow_message(name_of(m, fi)))
    } else {
        Ok(
            (
                pushed(popped(st, 2)),
                pop_text("x10"@) + pop_text("x9"@) + "    "@ + op + "\n"@ + push_text("x9"@),
            ),
        )
    }
}

/// A comparison of the two topmost values.
pub open spec fn compare_step(m: NativeModule, fi: int, st: EmitView, cond: Seq<char>) -> StepResult {
    if st.depth < 2 {
        Err(underflow_message(name_of(m, fi)))
    } else {
        Ok(
            (
                pushed(popped(st, 2)),
                pop_text("x10"@) + pop_text("x9"@) + "    cmp x9, x10\n"@ + "    cset x9, "@ + cond
                    + "\n"@ + push_text("x9"@),
            ),
        )
    }
}

/// Pushing a constant.
pub open spec fn const_step(st: EmitView, value: i64) -> StepResult {
    Ok((pushed(st), const_text("x9"@, value) + push_text("x9"@)))
}

/// The frame offset text of a local.
pub open spec fn local_slot(index: int) -> Seq<char> {
    "[x29, #"@ + int_decimal(local_offset_spec(index)) + "]\n"@
}

/// The number of slots of the function: parameters and locals.
pub open spec fn slot_count(m: NativeModule, fi: int) -> int {
    fun_of(m, fi).param_count + fun_of(m, fi).local_count
}

/// Reading, writing or teeing a local.
pub open spec fn local_step(m: NativeModule, fi: int, st: EmitView, index: u32, kind: int) -> StepResult {
    if index >= slot_count(m, fi) {
        Err(local_range_message(name_of(m, fi), index as int, slot_count(m, fi)))
    } else if kind == 0 {
        Ok((pushed(st), "    ldr x9, "@ + local_slot(index as int) + push_text("x9"@)))
    } else if st.depth == 0 {
        Err(underflow_message(name_of(m, fi)))
    } else if kind == 1 {
        Ok((popped(st, 1), pop_text("x9"@) + "    str x9, "@ + local_slot(index as int)))
    } else {
        Ok(
            (
                st,
                pop_text("x9"@) + "    str x9, "@ + local_slot(index as int) + push_text("x9"@),
            ),
        )
    }
}

/// The pops of the argument registers of a call with `n` parameters, last first.
pub open spec fn argument_pops(n: nat) -> Seq<char>
    decreases n,
{
    if n == 0 {
        Seq::empty()
    } else {
        pop_text("x"@ + nat_digits((n - 1) as nat)) + argument_pops((n - 1) as nat)
    }
}

/// A call of import or function `index`.
pub open spec fn call_step(m: NativeModule, fi: int, st: EmitView, index: u32) -> StepResult {
    let name = name_of(m, fi);
    if index == 0 {
        if st.depth < 1 {
            Err(underflow_message(name))
        } else {
            Ok(
                (
                    popped(st, 1),
                    pop_text("x9"@) + "    adrp x0, L_lsharp_fmt_i64@PAGE\n"@
                        + "    add x0, x0, L_lsharp_fmt_i64@PAGEOFF\n"@ + "    sub sp, sp, #16\n"@
                        + "    str x9, [sp]\n"@ + "    bl _printf\n"@ + "    add sp, sp, #16\n"@,
                ),
            )
        }
    } else if index == 1 {
        if st.depth < 1 {
            Err(underflow_message(name))
        } else {
            Ok((st, pop_text("x9"@) + heap_alloc_text() + push_text("x9"@)))
        }
    } else if index == 5 {
        if st.depth < 1 {
            Err(underflow_message(name))
        } else {
            Ok((popped(st, 1), pop_text("x0"@) + "    bl _exit\n"@))
        }
    } else if index == 14 {
        if st.depth < 1 {
            Err(underflow_message(name))
        } else {
            Ok((st, pop_text("x9"@) + const_text("x9"@, 0) + push_text("x9"@)))
        }
    } else if index == 15 {
        Ok((pushed(st), const_text("x9"@, 0) + push_text("x9"@)))
    } else if index == 16 {
        if st.depth < 2 {
            Err(underflow_message(name))
        } else {
            Ok((popped(st, 1), pop_text("x10"@) + pop_text("x9"@) + push_text("x9"@)))
        }
    } else if index < crate::native::import_count() {
        Err(import_call_message(index as int))
    } else if index - crate::native::import_count() >= m.functions@.len() {
        Err(call_range_message(index as int))
    } else {
        let callee_index = index - crate::native::import_count();
        let callee = m.functions@[callee_index];
        if callee.param_count > 8 {
            Err(call_arity_message(callee.name@))
        } else if st.depth < callee.param_count {
            Err(underflow_message(name))
        } else {
            Ok(
                (
                    pushed(popped(st, callee.param_count as nat)),
                    argument_pops(callee.param_count as nat) + "    bl "@ + function_label_spec(
                        callee.name@,
                        callee.is_export,
                        callee_index,
                    ) + "\n"@ + push_text("x0"@),
                ),
            )
        }
    }
}

/// Storing the popped fields of a new struct, last field first.
pub open spec fn field_stores(k: nat) -> Seq<char>
    decreases k,
{
    if k == 0 {
        Seq::empty()
    } else {
        pop_text("x10"@) + "    str x10, [x11, #"@ + nat_digits(((k - 1) * 8) as nat) + "]\n"@
            + field_stores((k - 1) as nat)
    }
}

/// A struct instruction: `kind` 0 allocates a struct from its fields, 1 reads
/// a field, 2 writes a field.
pub open spec fn struct_step(
    m: NativeModule,
    fi: int,
    st: EmitView,
    type_index: u32,
    field_index: u32,
    kind: int,
) -> StepResult {
    let name = name_of(m, fi);
    match field_count_spec(m, type_index as int) {
        Err(e) => Err(e),
        Ok(n) => if kind == 0 {
            if st.depth < n {
                Err(underflow_message(name))
            } else {
                Ok(
                    (
                        pushed(popped(st, n)),
                        const_text("x9"@, (n * 8) as i64) + heap_alloc_text() + "    mov x13, x9\n"@
                            + heap_address_text("x13"@, "x11"@) + field_stores(n) + push_text(
                            "x13"@,
                        ),
                    ),
                )
            }
        } else if field_index >= n {
            Err(field_range_message(type_index as int, field_index as int))
        } else if kind == 1 {
            if st.depth < 1 {
                Err(underflow_message(name))
            } else {
                Ok(
                    (
                        st,
                        pop_text("x9"@) + heap_address_text("x9"@, "x11"@) + "    ldr x9, [x11, #"@
                            + nat_digits((field_index * 8) as nat) + "]\n"@ + push_text("x9"@),
                    ),
                )
            }
        } else {
            if st.depth < 2 {
                Err(underflow_message(name))
            } else {
                Ok(
                    (
                        popped(st, 2),
                        pop_text("x10"@) + pop_text("x9"@) + heap_address_text("x9"@, "x11"@)
                            + "    str x10, [x11, #"@ + nat_digits((field_index * 8) as nat)
                            + "]\n"@,
                    ),
                )
            }
        },
    }
}

/// A load from linear memory: the address is popped, the value pushed.
pub open spec fn load_step(m: NativeModule, fi: int, st: EmitView, offset: u32, lines: Seq<char>) -> StepResult {
    if st.depth < 1 {
        Err(underflow_message(name_of(m, fi)))
    } else {
        Ok(
            (
                st,
                pop_text("x9"@) + heap_address_memarg_text("x9"@, "x11"@, offset) + lines + push_text(
                    "x9"@,
                ),
            ),
        )
    }
}

/// A store to linear memory: the value and the address are popped.
pub open spec fn store_step(m: NativeModule, fi: int, st: EmitView, offset: u32, line: Seq<char>) -> StepResult {
    if st.depth < 2 {
        Err(underflow_message(name_of(m, fi)))
    } else {
        Ok(
            (
                popped(st, 2),
                pop_text("x10"@) + pop_text("x9"@) + heap_address_memarg_text("x9"@, "x11"@, offset)
                    + line,
            ),
        )
    }
}

/// The start of an `if`: the condition is popped and a frame opened.
pub open spec fn if_step(m: NativeModule, fi: int, st: EmitView) -> StepResult {
    let else_label = label_spec(m, fi, st.counter, "else"@);
    let end_label = label_spec(m, fi, st.counter + 1, "endif"@);
    if st.depth < 1 {
        Err(underflow_message(name_of(m, fi)))
    } else {
        let frame = FrameView {
            else_label,
            end_label,
            entry_depth: (st.depth - 1) as nat,
            then_depth: None,
        };
        Ok(
            (
                EmitView {
                    depth: (st.depth - 1) as nat,
                    counter: st.counter + 2,
                    frames: st.frames.push(frame),
                },
                pop_text("x9"@) + "    cmp x9, #0\n"@ + "    b.eq "@ + else_label + "\n"@,
            ),
        )
    }
}

/// An `else`: the `then` depth is recorded and the entry depth restored.
pub open spec fn else_step(st: EmitView) -> StepResult {
    if st.frames.len() == 0 {
        Err(else_message())
    } else {
        let frame = st.frames.last();
        let updated = FrameView { then_depth: Some(st.depth), ..frame };
        Ok(
            (
                EmitView {
                    depth: frame.entry_depth,
                    frames: st.frames.drop_last().push(updated),
                    ..st
                },
                "    b "@ + frame.end_label + "\n"@ + frame.else_label + ":\n"@,
            ),
        )
    }
}

/// An `end`: the frame is closed; after an `else` both branches must leave
/// the same depth, without one the entry depth is restored.
pub open spec fn end_step(st: EmitView) -> StepResult {
    if st.frames.len() == 0 {
        Err(end_message())
    } else {
        let frame = st.frames.last();
        let rest = EmitView { frames: st.frames.drop_last(), ..st };
        match frame.then_depth {
            Some(t) => if st.depth != t {
                Err(branch_depth_message(t, st.depth))
            } else {
                Ok((rest, frame.end_label + ":\n"@))
            },
            None => Ok(
                (
                    EmitView { depth: frame.entry_depth, ..rest },
                    frame.else_label + ":\n"@ + frame.end_label + ":\n"@,
                ),
            ),
        }
    }
}

/// The outcome of one instruction.
#[verifier::opaque]
pub open spec fn step_spec(m: NativeModule, fi: int, st: EmitView, ins: Instruction) -> StepResult {
    let name = name_of(m, fi);
    match ins {
        Instruction::I64Const(v) => const_step(st, v),
        Instruction::I32Const(v) => const_step(st, v as i64),
        Instruction::LocalGet(i) => local_step(m, fi, st, i, 0),
        Instruction::LocalSet(i) => local_step(m, fi, st, i, 1),
        Instruction::LocalTee(i) => local_step(m, fi, st, i, 2),
        Instruction::I64Add | Instruction::I32Add => binop_step(m, fi, st, "add x9, x9, x10"@),
        Instruction::I64Sub | Instruction::I32Sub => binop_step(m, fi, st, "sub x9, x9, x10"@),
        Instruction::I64Mul | Instruction::I32Mul => binop_step(m, fi, st, "mul x9, x9, x10"@),
        Instruction::I64Div => binop_step(m, fi, st, "sdiv x9, x9, x10"@),
        Instruction::I64Rem => binop_step(m, fi, st, "sdiv x11, x9, x10\n    msub x9, x11, x10, x9"@),
        Instruction::I64Eq => compare_step(m, fi, st, "eq"@),
        Instruction::I64Ne => compare_step(m, fi, st, "ne"@),
        Instruction::I64LtS => compare_step(m, fi, st, "lt"@),
        Instruction::I64GtS => compare_step(m, fi, st, "gt"@),
        Instruction::I64LeS => compare_step(m, fi, st, "le"@),
        Instruction::I64GeS => compare_step(m, fi, st, "ge"@),
        Instruction::I32GtU => compare_step(m, fi, st, "hi"@),
        Instruction::I32GeU => compare_step(m, fi, st, "hs"@),
        Instruction::I32Eqz => if st.depth < 1 {
            Err(underflow_message(name))
        } else {
            Ok((st, pop_text("x9"@) + "    cmp x9, #0\n"@ + "    cset x9, eq\n"@ + push_text("x9"@)))
        },
        Instruction::I32And | Instruction::I64And => binop_step(m, fi, st, "and x9, x9, x10"@),
        Instruction::I32Or | Instruction::I64Or => binop_step(m, fi, st, "orr x9, x9, x10"@),
        Instruction::I64Xor => binop_step(m, fi, st, "eor x9, x9, x10"@),
        Instruction::I64Shl | Instruction::I32Shl => binop_step(m, fi, st, "lsl x9, x9, x10"@),
        Instruction::I64ShrU | Instruction::I32ShrU => binop_step(m, fi, st, "lsr x9, x9, x10"@),
        Instruction::I64ExtendI32S | Instruction::I64ExtendI32U | Instruction::I32WrapI64 => Ok(
            (st, Seq::empty()),
        ),
        Instruction::Call(i) | Instruction::CallImport(i) => call_step(m, fi, st, i),
        Instruction::If | Instruction::IfEmpty => if_step(m, fi, st),
        Instruction::Else => else_step(st),
        Instruction::End => end_step(st),
        Instruction::Drop => if st.depth < 1 {
            Err(underflow_message(name))
        } else {
            Ok((popped(st, 1), pop_text("x9"@)))
        },
        Instruction::Return => if st.depth < 1 {
            Err(underflow_message(name))
        } else {
            Ok((popped(st, 1), pop_text("x0"@) + "    b "@ + return_label_spec(m, fi) + "\n"@))
        },
        Instruction::StructNew(t) => struct_step(m, fi, st, t, 0, 0),
        Instruction::StructGet(t, f) => struct_step(m, fi, st, t, f, 1),
        Instruction::StructSet(t, f) => struct_step(m, fi, st, t, f, 2),
        Instruction::I32Load { offset } => load_step(
            m,
            fi,
            st,
            offset,
            "    ldr w9, [x11]\n"@ + "    uxtw x9, w9\n"@,
        ),
        Instruction::I32Load8U { offset } => load_step(
            m,
            fi,
            st,
            offset,
            "    ldrb w9, [x11]\n"@ + "    uxtw x9, w9\n"@,
        ),
        Instruction::I64Load { offset } => load_step(m, fi, st, offset, "    ldr x9, [x11]\n"@),
        Instruction::I32Store { offset } => store_step(m, fi, st, offset, "    str w10, [x11]\n"@),
        Instruction::I32Store8 { offset } => store_step(m, fi, st, offset, "    strb w10, [x11]\n"@),
        Instruction::I64Store { offset } => store_step(m, fi, st, offset, "    str x10, [x11]\n"@),
        Instruction::Unreachable => Ok(
            (pushed(st), "    brk #1\n"@ + const_text("x9"@, 0) + push_text("x9"@)),
        ),
        Instruction::Unsupported(r) => Err(unsupported_message(name, r@)),
    }
}


// ---------------------------------------------------------------------------
// The executable emitter.

/// An open `if`.
struct IfFrame {
    else_label: String,
    end_label: String,
    entry_depth: usize,
    then_depth: Option<usize>,
}

impl View for IfFrame {
    type V = FrameView;

    closed spec fn view(&self) -> FrameView {
        FrameView {
            else_label: self.else_label@,
            end_label: self.end_label@,
            entry_depth: self.entry_depth as nat,
            then_depth: match self.then_depth {
                Some(t) => Some(t as nat),
                None => None,
            },
        }
    }
}

/// The state of the emitter for one function.
pub struct EmitterState {
    depth: usize,
    counter: usize,
    frames: Vec<IfFrame>,
}

impl View for EmitterState {
    type V = EmitView;

    closed spec fn view(&self) -> EmitView {
        EmitView {
            depth: self.depth as nat,
            counter: self.counter as nat,
            frames: self.frames@.map_values(|f: IfFrame| f@),
        }
    }
}

/// Depths and the label counter are bounded by `b` steps.
pub open spec fn bounded(st: EmitView, b: int) -> bool {
    &&& st.depth <= b
    &&& st.counter <= 2 * b
    &&& forall|i: int|
        0 <= i < st.frames.len() ==> (#[trigger] st.frames[i]).entry_depth <= b && (
        st.frames[i].then_depth matches Some(t) ==> t <= b)
}

/// An instruction's effect matches its outcome.
pub open spec fn outcome_matches(
    expected: StepResult,
    st1: EmitView,
    out0: Seq<char>,
    out1: Seq<char>,
    r: Result<(), String>,
) -> bool {
    match expected {
        Ok((s, t)) => r is Ok && st1 == s && out1 == out0 + t,
        Err(e) => r matches Err(x) && x@ == e,
    }
}

/// The context of one function's emission: the module is within limits and
/// the function is one of its own.
pub open spec fn emit_context(m: NativeModule, fi: int) -> bool {
    within_limits(m) && 0 <= fi < m.functions@.len()
}

impl EmitterState {
    fn new() -> (r: EmitterState)
        ensures
            r@ == (EmitView { depth: 0, counter: 0, frames: Seq::empty() }),
    {
        let r = EmitterState { depth: 0, counter: 0, frames: Vec::new() };
        assert(r@.frames =~= Seq::<FrameView>::empty());
        r
    }
}

fn underflow(name: &str) -> (r: String)
    ensures
        r@ == underflow_message(name@),
{
    let mut s = owned("native backend の Apple Silicon 実装でスタック値が不足しています: ");
    push_str(&mut s, name);
    s
}

/// Pops the top value into `register`.
fn pop_value(st: &mut EmitterState, out: &mut String, register: &str, name: &str) -> (r: Result<(), String>)
    ensures
        old(st)@.depth == 0 ==> (r matches Err(x) && x@ == underflow_message(name@)),
        old(st)@.depth > 0 ==> r is Ok && final(st)@ == popped(old(st)@, 1) && final(out)@ == old(
            out,
        )@ + pop_text(register@),
{
    if st.depth == 0 {
        return Err(underflow(name));
    }
    native_emit_pop(out, register);
    st.depth = st.depth - 1;
    Ok(())
}

/// Pushes `register` as a new top value.
fn push_value(st: &mut EmitterState, out: &mut String, register: &str)
    requires
        old(st)@.depth < usize::MAX,
    ensures
        final(st)@ == pushed(old(st)@),
        final(out)@ == old(out)@ + push_text(register@),
{
    native_emit_push(out, register);
    st.depth = st.depth + 1;
}


fn emit_binop(
    st: &mut EmitterState,
    out: &mut String,
    m: &NativeModule,
    fi: usize,
    name: &str,
    op: &str,
) -> (r: Result<(), String>)
    requires
        emit_context(*m, fi as int),
        name@ == name_of(*m, fi as int),
        bounded(old(st)@, size_limit()),
    ensures
        outcome_matches(binop_step(*m, fi as int, old(st)@, op@), final(st)@, old(out)@, final(out)@, r),
{
    let ghost out0 = out@;
    if st.depth < 2 {
        return Err(underflow(name));
    }
    let _ = pop_value(st, out, "x10", name);
    let _ = pop_value(st, out, "x9", name);
    push_str(out, "    ");
    push_str(out, op);
    push_str(out, "\n");
    push_value(st, out, "x9");
    assert(out@ =~= out0 + (pop_text("x10"@) + pop_text("x9"@) + "    "@ + op@ + "\n"@ + push_text(
        "x9"@,
    )));
    Ok(())
}

fn emit_compare(
    st: &mut EmitterState,
    out: &mut String,
    m: &NativeModule,
    fi: usize,
    name: &str,
    cond: &str,
) -> (r: Result<(), String>)
    requires
        emit_context(*m, fi as int),
        name@ == name_of(*m, fi as int),
        bounded(old(st)@, size_limit()),
    ensures
        outcome_matches(compare_step(*m, fi as int, old(st)@, cond@), final(st)@, old(out)@, final(out)@, r),
{
    let ghost out0 = out@;
    if st.depth < 2 {
        return Err(underflow(name));
    }
    let _ = pop_value(st, out, "x10", name);
    let _ = pop_value(st, out, "x9", name);
    push_str(out, "    cmp x9, x10\n");
    push_str(out, "    cset x9, ");
    push_str(out, cond);
    push_str(out, "\n");
    push_value(st, out, "x9");
    assert(out@ =~= out0 + (pop_text("x10"@) + pop_text("x9"@) + "    cmp x9, x10\n"@ + "    cset x9, "@
        + cond@ + "\n"@ + push_text("x9"@)));
    Ok(())
}

fn emit_const(st: &mut EmitterState, out: &mut String, value: i64) -> (r: Result<(), String>)
    requires
        bounded(old(st)@, size_limit()),
    ensures
        outcome_matches(const_step(old(st)@, value), final(st)@, old(out)@, final(out)@, r),
{
    let ghost out0 = out@;
    native_emit_i64_const(out, "x9", value);
    push_value(st, out, "x9");
    assert(out@ =~= out0 + (const_text("x9"@, value) + push_text("x9"@)));
    Ok(())
}

fn local_range(name: &str, index: u32, count: usize) -> (r: String)
    ensures
        r@ == local_range_message(name@, index as int, count as int),
{
    let mut s = owned("native backend の Apple Silicon 実装で local index が範囲外です: ");
    push_str(&mut s, name);
    push_str(&mut s, " local=");
    push_u64(&mut s, index as u64);
    push_str(&mut s, " local_count=");
    push_u64(&mut s, count as u64);
    s
}

fn push_local_slot(out: &mut String, index: u32)
    requires
        index < size_limit(),
    ensures
        final(out)@ == old(out)@ + local_slot(index as int),
{
    push_str(out, "[x29, #");
    push_i64(out, native_local_offset(index) as i64);
    push_str(out, "]\n");
    assert(out@ =~= old(out)@ + local_slot(index as int));
}

fn emit_local(
    st: &mut EmitterState,
    out: &mut String,
    m: &NativeModule,
    fi: usize,
    name: &str,
    index: u32,
    kind: u8,
) -> (r: Result<(), String>)
    requires
        emit_context(*m, fi as int),
        name@ == name_of(*m, fi as int),
        bounded(old(st)@, size_limit()),
        kind <= 2,
    ensures
        outcome_matches(
            local_step(*m, fi as int, old(st)@, index, kind as int),
            final(st)@,
            old(out)@,
            final(out)@,
            r,
        ),
{
    let ghost out0 = out@;
    let f = &m.functions[fi];
    let count = f.param_count + f.local_count;
    if index as usize >= count {
        return Err(local_range(name, index, count));
    }
    if kind == 0 {
        push_str(out, "    ldr x9, ");
        push_local_slot(out, index);
        push_value(st, out, "x9");
        assert(out@ =~= out0 + ("    ldr x9, "@ + local_slot(index as int) + push_text("x9"@)));
        return Ok(());
    }
    if st.depth == 0 {
        return Err(underflow(name));
    }
    let _ = pop_value(st, out, "x9", name);
    push_str(out, "    str x9, ");
    push_local_slot(out, index);
    if kind == 1 {
        assert(out@ =~= out0 + (pop_text("x9"@) + "    str x9, "@ + local_slot(index as int)));
    } else {
        push_value(st, out, "x9");
        assert(out@ =~= out0 + (pop_text("x9"@) + "    str x9, "@ + local_slot(index as int)
            + push_text("x9"@)));
    }
    Ok(())
}


fn push_argument_pops(st: &mut EmitterState, out: &mut String, count: usize, name: &str)
    requires
        old(st)@.depth >= count,
        count <= 8,
    ensures
        final(st)@ == popped(old(st)@, count as nat),
        final(out)@ == old(out)@ + argument_pops(count as nat),
{
    let ghost out0 = out@;
    let mut k = count;
    assert(out0 + argument_pops(count as nat) =~= out@ + argument_pops(k as nat));
    while k > 0
        invariant
            k <= count,
            st@ == popped(old(st)@, (count - k) as nat),
            old(st)@.depth >= count,
            out0 + argument_pops(count as nat) == out@ + argument_pops(k as nat),
        decreases k,
    {
        let mut register = owned("x");
        push_u64(&mut register, (k - 1) as u64);
        let ghost before = out@;
        let _ = pop_value(st, out, register.as_str(), name);
        proof {
            assert(argument_pops(k as nat) == pop_text("x"@ + nat_digits((k - 1) as nat))
                + argument_pops((k - 1) as nat));
            assert(out0 + argument_pops(count as nat) =~= out@ + argument_pops((k - 1) as nat));
        }
        k = k - 1;
    }
    assert(out@ + argument_pops(0) =~= out@);
}

fn emit_call(
    st: &mut EmitterState,
    out: &mut String,
    m: &NativeModule,
    fi: usize,
    name: &str,
    index: u32,
) -> (r: Result<(), String>)
    requires
        emit_context(*m, fi as int),
        name@ == name_of(*m, fi as int),
        bounded(old(st)@, size_limit()),
    ensures
        outcome_matches(call_step(*m, fi as int, old(st)@, index), final(st)@, old(out)@, final(out)@, r),
{
    let ghost out0 = out@;
    if index == 0 {
        if st.depth < 1 {
            return Err(underflow(name));
        }
        let _ = pop_value(st, out, "x9", name);
        push_str(out, "    adrp x0, L_lsharp_fmt_i64@PAGE\n");
        push_str(out, "    add x0, x0, L_lsharp_fmt_i64@PAGEOFF\n");
        push_str(out, "    sub sp, sp, #16\n");
        push_str(out, "    str x9, [sp]\n");
        push_str(out, "    bl _printf\n");
        push_str(out, "    add sp, sp, #16\n");
        assert(out@ =~= out0 + (pop_text("x9"@) + "    adrp x0, L_lsharp_fmt_i64@PAGE\n"@
            + "    add x0, x0, L_lsharp_fmt_i64@PAGEOFF\n"@ + "    sub sp, sp, #16\n"@
            + "    str x9, [sp]\n"@ + "    bl _printf\n"@ + "    add sp, sp, #16\n"@));
        return Ok(());
    }
    if index == 1 {
        if st.depth < 1 {
            return Err(underflow(name));
        }
        let _ = pop_value(st, out, "x9", name);
        native_emit_heap_alloc(out);
        push_value(st, out, "x9");
        assert(out@ =~= out0 + (pop_text("x9"@) + heap_alloc_text() + push_text("x9"@)));
        return Ok(());
    }
    if index == 5 {
        if st.depth < 1 {
            return Err(underflow(name));
        }
        let _ = pop_value(st, out, "x0", name);
        push_str(out, "    bl _exit\n");
        assert(out@ =~= out0 + (pop_text("x0"@) + "    bl _exit\n"@));
        return Ok(());
    }
    if index == 14 {
        if st.depth < 1 {
            return Err(underflow(name));
        }
        let _ = pop_value(st, out, "x9", name);
        native_emit_i64_const(out, "x9", 0);
        push_value(st, out, "x9");
        assert(out@ =~= out0 + (pop_text("x9"@) + const_text("x9"@, 0) + push_text("x9"@)));
        return Ok(());
    }
    if index == 15 {
        native_emit_i64_const(out, "x9", 0);
        push_value(st, out, "x9");
        assert(out@ =~= out0 + (const_text("x9"@, 0) + push_text("x9"@)));
        return Ok(());
    }
    if index == 16 {
        if st.depth < 2 {
            return Err(underflow(name));
        }
        let _ = pop_value(st, out, "x10", name);
        let _ = pop_value(st, out, "x9", name);
        push_value(st, out, "x9");
        assert(out@ =~= out0 + (pop_text("x10"@) + pop_text("x9"@) + push_text("x9"@)));
        return Ok(());
    }
    if index < 17 {
        let mut e = owned("native backend の Apple Silicon 実装は import/runtime call をまだ生成できません: call ");
        push_u64(&mut e, index as u64);
        return Err(e);
    }
    let callee_index = (index - 17) as usize;
    if callee_index >= m.functions.len() {
        let mut e = owned("native backend の Apple Silicon 実装で call index が関数範囲外です: call ");
        push_u64(&mut e, index as u64);
        return Err(e);
    }
    let callee = &m.functions[callee_index];
    if callee.param_count > 8 {
        let mut e = owned("native backend の Apple Silicon 実装は 8 引数までの呼び出しのみ対応しています: ");
        push_str(&mut e, callee.name.as_str());
        return Err(e);
    }
    if st.depth < callee.param_count {
        return Err(underflow(name));
    }
    push_argument_pops(st, out, callee.param_count, name);
    let ghost after_pops = out@;
    let label = native_function_label(m, callee_index);
    push_str(out, "    bl ");
    push_str(out, label.as_str());
    push_str(out, "\n");
    push_value(st, out, "x0");
    assert(out@ =~= out0 + (argument_pops(callee.param_count as nat) + "    bl "@ + function_label_spec(
        callee.name@,
        callee.is_export,
        callee_index as int,
    ) + "\n"@ + push_text("x0"@)));
    Ok(())
}

fn field_count(m: &NativeModule, type_index: u32) -> (r: Result<usize, String>)
    requires
        within_limits(*m),
    ensures
        match field_count_spec(*m, type_index as int) {
            Ok(n) => r == Ok::<usize, String>(n as usize) && n <= size_limit(),
            Err(e) => r matches Err(x) && x@ == e,
        },
{
    let t = type_index as usize;
    if t >= m.gc_types.len() {
        let mut e = owned("native backend の Apple Silicon 実装で struct type index が範囲外です: type=");
        push_u64(&mut e, type_index as u64);
        return Err(e);
    }
    let gc = &m.gc_types[t];
    match gc.kind {
        GcTypeKind::Struct(n) => Ok(n),
        _ => {
            let mut e = owned("native backend の Apple Silicon 実装は array GC type をまだ生成できません: ");
            push_str(&mut e, gc.name.as_str());
            Err(e)
        },
    }
}

fn field_range(type_index: u32, field_index: u32) -> (r: String)
    ensures
        r@ == field_range_message(type_index as int, field_index as int),
{
    let mut e = owned("native backend の Apple Silicon 実装で struct field index が範囲外です: type=");
    push_u64(&mut e, type_index as u64);
    push_str(&mut e, " field=");
    push_u64(&mut e, field_index as u64);
    e
}

#[verifier::spinoff_prover]
#[verifier::rlimit(40)]
fn emit_struct_new(
    st: &mut EmitterState,
    out: &mut String,
    m: &NativeModule,
    fi: usize,
    name: &str,
    type_index: u32,
) -> (r: Result<(), String>)
    requires
        emit_context(*m, fi as int),
        name@ == name_of(*m, fi as int),
        bounded(old(st)@, size_limit()),
    ensures
        outcome_matches(
            struct_step(*m, fi as int, old(st)@, type_index, 0, 0),
            final(st)@,
            old(out)@,
            final(out)@,
            r,
        ),
{
    let ghost out0 = out@;
    let n = match field_count(m, type_index) {
        Ok(n) => n,
        Err(e) => {
            return Err(e);
        },
    };
    if st.depth < n {
        return Err(underflow(name));
    }
    native_emit_i64_const(out, "x9", (n * 8) as i64);
    native_emit_heap_alloc(out);
    push_str(out, "    mov x13, x9\n");
    native_emit_heap_base_plus_offset(out, "x13", "x11");
    let ghost before_stores = out@;
    let ghost st_before = st@;
    let mut k = n;
    assert(before_stores + field_stores(n as nat) =~= out@ + field_stores(k as nat));
    while k > 0
        invariant
            k <= n,
            n <= size_limit(),
            st@ == popped(st_before, (n - k) as nat),
            st_before.depth >= n,
            before_stores + field_stores(n as nat) == out@ + field_stores(k as nat),
        decreases k,
    {
        let _ = pop_value(st, out, "x10", name);
        push_str(out, "    str x10, [x11, #");
        push_u64(out, ((k - 1) * 8) as u64);
        push_str(out, "]\n");
        proof {
            assert(field_stores(k as nat) == pop_text("x10"@) + "    str x10, [x11, #"@ + nat_digits(
                ((k - 1) * 8) as nat,
            ) + "]\n"@ + field_stores((k - 1) as nat));
            assert(before_stores + field_stores(n as nat) =~= out@ + field_stores((k - 1) as nat));
        }
        k = k - 1;
    }
    assert(out@ + field_stores(0) =~= out@);
    push_value(st, out, "x13");
    assert(out@ =~= out0 + (const_text("x9"@, (n * 8) as i64) + heap_alloc_text()
        + "    mov x13, x9\n"@ + heap_address_text("x13"@, "x11"@) + field_stores(n as nat)
        + push_text("x13"@)));
    Ok(())
}

fn emit_struct_field(
    st: &mut EmitterState,
    out: &mut String,
    m: &NativeModule,
    fi: usize,
    name: &str,
    type_index: u32,
    field_index: u32,
    write: bool,
) -> (r: Result<(), String>)
    requires
        emit_context(*m, fi as int),
        name@ == name_of(*m, fi as int),
        bounded(old(st)@, size_limit()),
    ensures
        outcome_matches(
            struct_step(*m, fi as int, old(st)@, type_index, field_index, if write { 2 } else { 1 }),
            final(st)@,
            old(out)@,
            final(out)@,
            r,
        ),
{
    let ghost out0 = out@;
    let n = match field_count(m, type_index) {
        Ok(n) => n,
        Err(e) => {
            return Err(e);
        },
    };
    if field_index as usize >= n {
        return Err(field_range(type_index, field_index));
    }
    if !write {
        if st.depth < 1 {
            return Err(underflow(name));
        }
        let _ = pop_value(st, out, "x9", name);
        native_emit_heap_base_plus_offset(out, "x9", "x11");
        push_str(out, "    ldr x9, [x11, #");
        push_u64(out, (field_index as u64) * 8);
        push_str(out, "]\n");
        push_value(st, out, "x9");
        assert(out@ =~= out0 + (pop_text("x9"@) + heap_address_text("x9"@, "x11"@)
            + "    ldr x9, [x11, #"@ + nat_digits((field_index * 8) as nat) + "]\n"@ + push_text(
            "x9"@,
        )));
        return Ok(());
    }
    if st.depth < 2 {
        return Err(underflow(name));
    }
    let _ = pop_value(st, out, "x10", name);
    let _ = pop_value(st, out, "x9", name);
    native_emit_heap_base_plus_offset(out, "x9", "x11");
    push_str(out, "    str x10, [x11, #");
    push_u64(out, (field_index as u64) * 8);
    push_str(out, "]\n");
    assert(out@ =~= out0 + (pop_text("x10"@) + pop_text("x9"@) + heap_address_text("x9"@, "x11"@)
        + "    str x10, [x11, #"@ + nat_digits((field_index * 8) as nat) + "]\n"@));
    Ok(())
}

fn emit_load(
    st: &mut EmitterState,
    out: &mut String,
    m: &NativeModule,
    fi: usize,
    name: &str,
    offset: u32,
    lines: &str,
) -> (r: Result<(), String>)
    requires
        emit_context(*m, fi as int),
        name@ == name_of(*m, fi as int),
        bounded(old(st)@, size_limit()),
    ensures
        outcome_matches(load_step(*m, fi as int, old(st)@, offset, lines@), final(st)@, old(out)@, final(out)@, r),
{
    let ghost out0 = out@;
    if st.depth < 1 {
        return Err(underflow(name));
    }
    let _ = pop_value(st, out, "x9", name);
    native_emit_heap_base_plus_offset_and_memarg(out, "x9", "x11", offset);
    push_str(out, lines);
    push_value(st, out, "x9");
    assert(out@ =~= out0 + (pop_text("x9"@) + heap_address_memarg_text("x9"@, "x11"@, offset)
        + lines@ + push_text("x9"@)));
    Ok(())
}

fn emit_store(
    st: &mut EmitterState,
    out: &mut String,
    m: &NativeModule,
    fi: usize,
    name: &str,
    offset: u32,
    line: &str,
) -> (r: Result<(), String>)
    requires
        emit_context(*m, fi as int),
        name@ == name_of(*m, fi as int),
        bounded(old(st)@, size_limit()),
    ensures
        outcome_matches(store_step(*m, fi as int, old(st)@, offset, line@), final(st)@, old(out)@, final(out)@, r),
{
    let ghost out0 = out@;
    if st.depth < 2 {
        return Err(underflow(name));
    }
    let _ = pop_value(st, out, "x10", name);
    let _ = pop_value(st, out, "x9", name);
    native_emit_heap_base_plus_offset_and_memarg(out, "x9", "x11", offset);
    push_str(out, line);
    assert(out@ =~= out0 + (pop_text("x10"@) + pop_text("x9"@) + heap_address_memarg_text(
        "x9"@,
        "x11"@,
        offset,
    ) + line@));
    Ok(())
}


fn make_label(fi: usize, name: &str, counter: usize, kind: &str) -> (r: String)
    ensures
        r@ == "L_lsharp_"@ + nat_digits(fi as nat) + "_"@ + sanitize_spec(name@) + "_"@ + nat_digits(
            counter as nat,
        ) + "_"@ + kind@,
{
    let mut s = owned("L_lsharp_");
    push_u64(&mut s, fi as u64);
    push_str(&mut s, "_");
    let sanitized = native_sanitize_symbol(name);
    push_str(&mut s, sanitized.as_str());
    push_str(&mut s, "_");
    push_u64(&mut s, counter as u64);
    push_str(&mut s, "_");
    push_str(&mut s, kind);
    s
}

fn emit_if(
    st: &mut EmitterState,
    out: &mut String,
    m: &NativeModule,
    fi: usize,
    name: &str,
) -> (r: Result<(), String>)
    requires
        emit_context(*m, fi as int),
        name@ == name_of(*m, fi as int),
        bounded(old(st)@, size_limit()),
    ensures
        outcome_matches(if_step(*m, fi as int, old(st)@), final(st)@, old(out)@, final(out)@, r),
{
    let ghost out0 = out@;
    let ghost st0 = st@;
    let else_label = make_label(fi, name, st.counter, "else");
    let end_label = make_label(fi, name, st.counter + 1, "endif");
    if st.depth < 1 {
        return Err(underflow(name));
    }
    let _ = pop_value(st, out, "x9", name);
    push_str(out, "    cmp x9, #0\n");
    push_str(out, "    b.eq ");
    push_str(out, else_label.as_str());
    push_str(out, "\n");
    let frame = IfFrame { else_label, end_label, entry_depth: st.depth, then_depth: None };
    let ghost fv = frame@;
    let ghost frames0 = st.frames@;
    st.frames.push(frame);
    st.counter = st.counter + 2;
    assert(st@.frames =~= st0.frames.push(fv));
    assert(out@ =~= out0 + (pop_text("x9"@) + "    cmp x9, #0\n"@ + "    b.eq "@ + fv.else_label
        + "\n"@));
    Ok(())
}

fn emit_else(st: &mut EmitterState, out: &mut String) -> (r: Result<(), String>)
    requires
        bounded(old(st)@, size_limit()),
    ensures
        outcome_matches(else_step(old(st)@), final(st)@, old(out)@, final(out)@, r),
{
    let ghost out0 = out@;
    let ghost st0 = st@;
    let frame = match st.frames.pop() {
        Some(f) => f,
        None => {
            return Err(owned("native backend の Apple Silicon 実装で else に対応する if がありません"));
        },
    };
    proof {
        assert(st0.frames.last() == frame@);
        assert(st.frames@.map_values(|f: IfFrame| f@) =~= st0.frames.drop_last());
    }
    push_str(out, "    b ");
    push_str(out, frame.end_label.as_str());
    push_str(out, "\n");
    push_str(out, frame.else_label.as_str());
    push_str(out, ":\n");
    let entry = frame.entry_depth;
    let updated = IfFrame {
        else_label: frame.else_label,
        end_label: frame.end_label,
        entry_depth: frame.entry_depth,
        then_depth: Some(st.depth),
    };
    let ghost uv = updated@;
    st.frames.push(updated);
    st.depth = entry;
    assert(st@.frames =~= st0.frames.drop_last().push(uv));
    assert(out@ =~= out0 + ("    b "@ + uv.end_label + "\n"@ + uv.else_label + ":\n"@));
    Ok(())
}

fn branch_depth(then_depth: usize, else_depth: usize) -> (r: String)
    ensures
        r@ == branch_depth_message(then_depth as nat, else_depth as nat),
{
    let mut e = owned("native backend の Apple Silicon 実装で if 分岐の stack depth が一致しません: then=");
    push_u64(&mut e, then_depth as u64);
    push_str(&mut e, " else=");
    push_u64(&mut e, else_depth as u64);
    e
}

fn emit_end(st: &mut EmitterState, out: &mut String) -> (r: Result<(), String>)
    requires
        bounded(old(st)@, size_limit()),
    ensures
        outcome_matches(end_step(old(st)@), final(st)@, old(out)@, final(out)@, r),
{
    let ghost out0 = out@;
    let ghost st0 = st@;
    let frame = match st.frames.pop() {
        Some(f) => f,
        None => {
            return Err(owned("native backend の Apple Silicon 実装で end に対応する block がありません"));
        },
    };
    proof {
        assert(st0.frames.last() == frame@);
        assert(st@.frames =~= st0.frames.drop_last());
    }
    match frame.then_depth {
        Some(t) => {
            if st.depth != t {
                return Err(branch_depth(t, st.depth));
            }
            push_str(out, frame.end_label.as_str());
            push_str(out, ":\n");
            assert(out@ =~= out0 + (frame@.end_label + ":\n"@));
        },
        None => {
            push_str(out, frame.else_label.as_str());
            push_str(out, ":\n");
            push_str(out, frame.end_label.as_str());
            push_str(out, ":\n");
            st.depth = frame.entry_depth;
            assert(out@ =~= out0 + (frame@.else_label + ":\n"@ + frame@.end_label + ":\n"@));
        },
    }
    Ok(())
}

fn unsupported(name: &str, rendering: &str) -> (r: String)
    ensures
        r@ == unsupported_message(name@, rendering@),
{
    let mut e = owned("native backend の Apple Silicon 実装は未対応 IR を含む関数をまだ生成できません: ");
    push_str(&mut e, name);
    push_str(&mut e, " ");
    push_str(&mut e, rendering);
    e
}

/// Constants, locals, arithmetic and comparisons.
pub open spec fn is_arith(ins: Instruction) -> bool {
    !is_control(ins) && !is_memory(ins)
}

/// Calls, branches, drops, returns and traps.
pub open spec fn is_control(ins: Instruction) -> bool {
    ins is Call || ins is CallImport || ins is If || ins is IfEmpty || ins is Else || ins is End
        || ins is Drop || ins is Return || ins is Unreachable || ins is Unsupported
}

/// Struct and linear-memory accesses.
pub open spec fn is_memory(ins: Instruction) -> bool {
    ins is StructNew || ins is StructGet || ins is StructSet || ins is I32Load || ins is I32Load8U
        || ins is I64Load || ins is I32Store || ins is I32Store8 || ins is I64Store
}

#[verifier::spinoff_prover]
#[verifier::rlimit(40)]
fn emit_arith(
    st: &mut EmitterState,
    out: &mut String,
    m: &NativeModule,
    fi: usize,
    name: &str,
    return_label: &str,
    ins: &Instruction,
) -> (r: Result<(), String>)
    requires
        emit_context(*m, fi as int),
        name@ == name_of(*m, fi as int),
        return_label@ == return_label_spec(*m, fi as int),
        bounded(old(st)@, size_limit()),
        is_arith(*ins),
    ensures
        outcome_matches(step_spec(*m, fi as int, old(st)@, *ins), final(st)@, old(out)@, final(out)@, r),
{
    proof {
        reveal(step_spec);
    }
    let ghost out0 = out@;
    match ins {
        Instruction::I64Const(v) => emit_const(st, out, *v),
        Instruction::I32Const(v) => emit_const(st, out, *v as i64),
        Instruction::LocalGet(i) => emit_local(st, out, m, fi, name, *i, 0),
        Instruction::LocalSet(i) => emit_local(st, out, m, fi, name, *i, 1),
        Instruction::LocalTee(i) => emit_local(st, out, m, fi, name, *i, 2),
        Instruction::I64Add | Instruction::I32Add => emit_binop(st, out, m, fi, name, "add x9, x9, x10"),
        Instruction::I64Sub | Instruction::I32Sub => emit_binop(st, out, m, fi, name, "sub x9, x9, x10"),
        Instruction::I64Mul | Instruction::I32Mul => emit_binop(st, out, m, fi, name, "mul x9, x9, x10"),
        Instruction::I64Div => emit_binop(st, out, m, fi, name, "sdiv x9, x9, x10"),
        Instruction::I64Rem => emit_binop(
            st,
            out,
            m,
            fi,
            name,
            "sdiv x11, x9, x10\n    msub x9, x11, x10, x9",
        ),
        Instruction::I64Eq => emit_compare(st, out, m, fi, name, "eq"),
        Instruction::I64Ne => emit_compare(st, out, m, fi, name, "ne"),
        Instruction::I64LtS => emit_compare(st, out, m, fi, name, "lt"),
        Instruction::I64GtS => emit_compare(st, out, m, fi, name, "gt"),
        Instruction::I64LeS => emit_compare(st, out, m, fi, name, "le"),
        Instruction::I64GeS => emit_compare(st, out, m, fi, name, "ge"),
        Instruction::I32GtU => emit_compare(st, out, m, fi, name, "hi"),
        Instruction::I32GeU => emit_compare(st, out, m, fi, name, "hs"),
        Instruction::I32Eqz => {
            if st.depth < 1 {
                return Err(underflow(name));
            }
            let _ = pop_value(st, out, "x9", name);
            push_str(out, "    cmp x9, #0\n");
            push_str(out, "    cset x9, eq\n");
            push_value(st, out, "x9");
            assert(out@ =~= out0 + (pop_text("x9"@) + "    cmp x9, #0\n"@ + "    cset x9, eq\n"@
                + push_text("x9"@)));
            Ok(())
        },
        Instruction::I32And | Instruction::I64And => emit_binop(st, out, m, fi, name, "and x9, x9, x10"),
        Instruction::I32Or | Instruction::I64Or => emit_binop(st, out, m, fi, name, "orr x9, x9, x10"),
        Instruction::I64Xor => emit_binop(st, out, m, fi, name, "eor x9, x9, x10"),
        Instruction::I64Shl | Instruction::I32Shl => emit_binop(st, out, m, fi, name, "lsl x9, x9, x10"),
        Instruction::I64ShrU | Instruction::I32ShrU => emit_binop(
            st,
            out,
            m,
            fi,
            name,
            "lsr x9, x9, x10",
        ),
        Instruction::I64ExtendI32S | Instruction::I64ExtendI32U | Instruction::I32WrapI64 => {
            assert(out@ =~= out0 + Seq::<char>::empty());
            Ok(())
        },
        _ => {
            assert(false);
            Err(unsupported(name, ""))
        },
    }
}

#[verifier::spinoff_prover]
fn emit_branching(
    st: &mut EmitterState,
    out: &mut String,
    m: &NativeModule,
    fi: usize,
    name: &str,
    return_label: &str,
    ins: &Instruction,
) -> (r: Result<(), String>)
    requires
        emit_context(*m, fi as int),
        name@ == name_of(*m, fi as int),
        return_label@ == return_label_spec(*m, fi as int),
        bounded(old(st)@, size_limit()),
        ins is If || ins is IfEmpty || ins is Else || ins is End,
    ensures
        outcome_matches(step_spec(*m, fi as int, old(st)@, *ins), final(st)@, old(out)@, final(out)@, r),
{
    proof {
        reveal(step_spec);
    }
    let ghost out0 = out@;
    match ins {
        Instruction::If | Instruction::IfEmpty => emit_if(st, out, m, fi, name),
        Instruction::Else => emit_else(st, out),
        Instruction::End => emit_end(st, out),
        _ => {
            assert(false);
            Err(unsupported(name, ""))
        },
    }
}

#[verifier::spinoff_prover]
fn emit_control(
    st: &mut EmitterState,
    out: &mut String,
    m: &NativeModule,
    fi: usize,
    name: &str,
    return_label: &str,
    ins: &Instruction,
) -> (r: Result<(), String>)
    requires
        emit_context(*m, fi as int),
        name@ == name_of(*m, fi as int),
        return_label@ == return_label_spec(*m, fi as int),
        bounded(old(st)@, size_limit()),
        is_control(*ins) && !(ins is If || ins is IfEmpty || ins is Else || ins is End),
    ensures
        outcome_matches(step_spec(*m, fi as int, old(st)@, *ins), final(st)@, old(out)@, final(out)@, r),
{
    proof {
        reveal(step_spec);
    }
    let ghost out0 = out@;
    match ins {
        Instruction::Call(i) | Instruction::CallImport(i) => emit_call(st, out, m, fi, name, *i),
        Instruction::Drop => {
            if st.depth < 1 {
                return Err(underflow(name));
            }
            pop_value(st, out, "x9", name)
        },
        Instruction::Return => {
            if st.depth < 1 {
                return Err(underflow(name));
            }
            let _ = pop_value(st, out, "x0", name);
            push_str(out, "    b ");
            push_str(out, return_label);
            push_str(out, "\n");
            assert(out@ =~= out0 + (pop_text("x0"@) + "    b "@ + return_label@ + "\n"@));
            Ok(())
        },
        Instruction::Unreachable => {
            push_str(out, "    brk #1\n");
            native_emit_i64_const(out, "x9", 0);
            push_value(st, out, "x9");
            assert(out@ =~= out0 + ("    brk #1\n"@ + const_text("x9"@, 0) + push_text("x9"@)));
            Ok(())
        },
        Instruction::Unsupported(rendering) => Err(unsupported(name, rendering.as_str())),


        _ => {
            assert(false);
            Err(unsupported(name, ""))
        },
    }
}

#[verifier::spinoff_prover]
fn emit_memory(
    st: &mut EmitterState,
    out: &mut String,
    m: &NativeModule,
    fi: usize,
    name: &str,
    return_label: &str,
    ins: &Instruction,
) -> (r: Result<(), String>)
    requires
        emit_context(*m, fi as int),
        name@ == name_of(*m, fi as int),
        return_label@ == return_label_spec(*m, fi as int),
        bounded(old(st)@, size_limit()),
        is_memory(*ins),
    ensures
        outcome_matches(step_spec(*m, fi as int, old(st)@, *ins), final(st)@, old(out)@, final(out)@, r),
{
    proof {
        reveal(step_spec);
    }
    let ghost out0 = out@;
    match ins {
        Instruction::StructNew(t) => emit_struct_new(st, out, m, fi, name, *t),
        Instruction::StructGet(t, f) => emit_struct_field(st, out, m, fi, name, *t, *f, false),
        Instruction::StructSet(t, f) => emit_struct_field(st, out, m, fi, name, *t, *f, true),
        Instruction::I32Load { offset } => {
            let mut lines = owned("    ldr w9, [x11]\n");
            push_str(&mut lines, "    uxtw x9, w9\n");
            emit_load(st, out, m, fi, name, *offset, lines.as_str())
        },
        Instruction::I32Load8U { offset } => {
            let mut lines = owned("    ldrb w9, [x11]\n");
            push_str(&mut lines, "    uxtw x9, w9\n");
            emit_load(st, out, m, fi, name, *offset, lines.as_str())
        },
        Instruction::I64Load { offset } => emit_load(st, out, m, fi, name, *offset, "    ldr x9, [x11]\n"),
        Instruction::I32Store { offset } => emit_store(st, out, m, fi, name, *offset, "    str w10, [x11]\n"),
        Instruction::I32Store8 { offset } => emit_store(
            st,
            out,
            m,
            fi,
            name,
            *offset,
            "    strb w10, [x11]\n",
        ),
        Instruction::I64Store { offset } => emit_store(st, out, m, fi, name, *offset, "    str x10, [x11]\n"),
        _ => {
            assert(false);
            Err(unsupported(name, ""))
        },
    }
}

/// Emits one instruction.
fn emit_instruction(
    st: &mut EmitterState,
    out: &mut String,
    m: &NativeModule,
    fi: usize,
    name: &str,
    return_label: &str,
    ins: &Instruction,
) -> (r: Result<(), String>)
    requires
        emit_context(*m, fi as int),
        name@ == name_of(*m, fi as int),
        return_label@ == return_label_spec(*m, fi as int),
        bounded(old(st)@, size_limit()),
    ensures
        outcome_matches(step_spec(*m, fi as int, old(st)@, *ins), final(st)@, old(out)@, final(out)@, r),
{
    if is_memory_exec(ins) {
        emit_memory(st, out, m, fi, name, return_label, ins)
    } else if is_branching_exec(ins) {
        emit_branching(st, out, m, fi, name, return_label, ins)
    } else if is_control_exec(ins) {
        emit_control(st, out, m, fi, name, return_label, ins)
    } else {
        emit_arith(st, out, m, fi, name, return_label, ins)
    }
}

fn is_control_exec(ins: &Instruction) -> (r: bool)
    ensures
        r == is_control(*ins),
{
    match ins {
        Instruction::Call(_) | Instruction::CallImport(_) | Instruction::If | Instruction::IfEmpty
        | Instruction::Else | Instruction::End | Instruction::Drop | Instruction::Return
        | Instruction::Unreachable | Instruction::Unsupported(_) => true,
        _ => false,
    }
}

fn is_branching_exec(ins: &Instruction) -> (r: bool)
    ensures
        r == (ins is If || ins is IfEmpty || ins is Else || ins is End),
{
    match ins {
        Instruction::If | Instruction::IfEmpty | Instruction::Else | Instruction::End => true,
        _ => false,
    }
}

fn is_memory_exec(ins: &Instruction) -> (r: bool)
    ensures
        r == is_memory(*ins),
{
    match ins {
        Instruction::StructNew(_) | Instruction::StructGet(_, _) | Instruction::StructSet(_, _)
        | Instruction::I32Load { .. } | Instruction::I32Load8U { .. } | Instruction::I64Load { .. }
        | Instruction::I32Store { .. } | Instruction::I32Store8 { .. } | Instruction::I64Store {
            ..
        } => true,
        _ => false,
    }
}


// ---------------------------------------------------------------------------
// Whole functions.

/// The state before the first instruction.
pub open spec fn initial_state() -> EmitView {
    EmitView { depth: 0, counter: 0, frames: Seq::empty() }
}

/// The outcome of a sequence of instructions: the first error, or the final
/// state and the concatenated text.
pub open spec fn run_spec(m: NativeModule, fi: int, st: EmitView, instrs: Seq<Instruction>) -> StepResult
    decreases instrs.len(),
{
    if instrs.len() == 0 {
        Ok((st, Seq::empty()))
    } else {
        match run_spec(m, fi, st, instrs.drop_last()) {
            Err(e) => Err(e),
            Ok((s, t)) => match step_spec(m, fi, s, instrs.last()) {
                Err(e) => Err(e),
                Ok((s2, t2)) => Ok((s2, t + t2)),
            },
        }
    }
}

pub open spec fn too_many_params_message(name: Seq<char>) -> Seq<char> {
    "native backend の Apple Silicon 実装は 8 引数までの関数のみ対応しています: "@ + name
}

pub open spec fn non_integer_result_message(name: Seq<char>) -> Seq<char> {
    "native backend の Apple Silicon 実装は整数を返す関数のみ対応しています: "@ + name
}

pub open spec fn unclosed_if_message(name: Seq<char>) -> Seq<char> {
    "native backend の Apple Silicon 実装で if/end の対応が閉じていません: "@ + name
}

pub open spec fn final_depth_message(name: Seq<char>, depth: nat) -> Seq<char> {
    "native backend の Apple Silicon 実装は関数終了時に戻り値が1つ必要です: "@ + name
        + " stack_depth="@ + nat_digits(depth)
}

/// Saving the first `n` parameter registers in their frame slots.
pub open spec fn param_stores(n: nat) -> Seq<char>
    decreases n,
{
    if n == 0 {
        Seq::empty()
    } else {
        param_stores((n - 1) as nat) + "    str x"@ + nat_digits((n - 1) as nat) + ", "@ + local_slot(
            n - 1,
        )
    }
}

/// The function's label, frame setup and saved parameters.
pub open spec fn prologue_text(m: NativeModule, fi: int) -> Seq<char> {
    let f = fun_of(m, fi);
    let label = function_label_spec(f.name@, f.is_export, fi);
    let frame = frame_size_spec(slot_count(m, fi));
    ".globl "@ + label + "\n"@ + ".p2align 2\n"@ + label + ":\n"@ + "    stp x29, x30, [sp, #-16]!\n"@
        + "    mov x29, sp\n"@ + (if frame > 0 {
        "    sub sp, sp, #"@ + nat_digits(frame as nat) + "\n"@
    } else {
        Seq::empty()
    }) + param_stores(f.param_count as nat)
}

/// Returning the one value left on the stack.
pub open spec fn epilogue_text(m: NativeModule, fi: int) -> Seq<char> {
    pop_text("x0"@) + return_label_spec(m, fi) + ":\n"@ + "    mov sp, x29\n"@
        + "    ldp x29, x30, [sp], #16\n"@ + "    ret\n"@
}

/// The text of function `fi`, or why it cannot be generated: more than eight
/// parameters, a result that is not an integer, an instruction that fails,
/// an `if` left open, or not exactly one value left at the end.
#[verifier::opaque]
pub open spec fn function_text_spec(m: NativeModule, fi: int) -> Result<Seq<char>, Seq<char>> {
    let f = fun_of(m, fi);
    let name = f.name@;
    if f.param_count > 8 {
        Err(too_many_params_message(name))
    } else if !(f.result == IrType::I64 || f.result == IrType::I32) {
        Err(non_integer_result_message(name))
    } else {
        match run_spec(m, fi, initial_state(), f.body@) {
            Err(e) => Err(e),
            Ok((s, t)) => if s.frames.len() > 0 {
                Err(unclosed_if_message(name))
            } else if s.depth != 1 {
                Err(final_depth_message(name, s.depth))
            } else {
                Ok(prologue_text(m, fi) + t + epilogue_text(m, fi))
            },
        }
    }
}

/// An instruction that opens or closes no `if` leaves the open `if`s and the
/// label counter as they were and raises the depth by at most one.
#[verifier::spinoff_prover]
proof fn lemma_plain_step(m: NativeModule, fi: int, st: EmitView, ins: Instruction)
    requires
        step_spec(m, fi, st, ins) is Ok,
        !(ins is If || ins is IfEmpty || ins is Else || ins is End),
    ensures
        step_spec(m, fi, st, ins)->Ok_0.0.frames == st.frames,
        step_spec(m, fi, st, ins)->Ok_0.0.counter == st.counter,
        step_spec(m, fi, st, ins)->Ok_0.0.depth <= st.depth + 1,
{
    reveal(step_spec);
}

/// A successful instruction raises the bounds by at most one step.
#[verifier::spinoff_prover]
proof fn lemma_step_bounded(m: NativeModule, fi: int, st: EmitView, ins: Instruction, b: int)
    requires
        bounded(st, b),
        b >= 0,
        step_spec(m, fi, st, ins) is Ok,
    ensures
        bounded(step_spec(m, fi, st, ins)->Ok_0.0, b + 1),
{
    let s = step_spec(m, fi, st, ins)->Ok_0.0;
    if ins is If || ins is IfEmpty {
        assert(step_spec(m, fi, st, ins) == if_step(m, fi, st)) by {
            reveal(step_spec);
        }
        assert forall|i: int| 0 <= i < s.frames.len() implies (#[trigger] s.frames[i]).entry_depth
            <= b + 1 && (s.frames[i].then_depth matches Some(t) ==> t <= b + 1) by {
            if i < st.frames.len() {
                assert(s.frames[i] == st.frames[i]);
            }
        }
    } else if ins is Else {
        assert(step_spec(m, fi, st, ins) == else_step(st)) by {
            reveal(step_spec);
        }
        assert forall|i: int| 0 <= i < s.frames.len() implies (#[trigger] s.frames[i]).entry_depth
            <= b + 1 && (s.frames[i].then_depth matches Some(t) ==> t <= b + 1) by {
            if i < st.frames.len() - 1 {
                assert(s.frames[i] == st.frames[i]);
            } else {
                assert(st.frames.last() == st.frames[st.frames.len() - 1]);
            }
        }
    } else if ins is End {
        assert(step_spec(m, fi, st, ins) == end_step(st)) by {
            reveal(step_spec);
        }
        assert forall|i: int| 0 <= i < s.frames.len() implies (#[trigger] s.frames[i]).entry_depth
            <= b + 1 && (s.frames[i].then_depth matches Some(t) ==> t <= b + 1) by {
            assert(s.frames[i] == st.frames[i]);
        }
        assert(st.frames.last() == st.frames[st.frames.len() - 1]);
    } else {
        lemma_plain_step(m, fi, st, ins);
    }
}

/// Once a prefix of the instructions fails, the whole sequence fails with
/// the same error.
proof fn lemma_run_error(m: NativeModule, fi: int, st: EmitView, instrs: Seq<Instruction>, k: int)
    requires
        0 <= k <= instrs.len(),
        run_spec(m, fi, st, instrs.take(k)) is Err,
    ensures
        run_spec(m, fi, st, instrs) == run_spec(m, fi, st, instrs.take(k)),
    decreases instrs.len() - k,
{
    if k < instrs.len() {
        assert(instrs.take(k + 1).drop_last() =~= instrs.take(k));
        lemma_run_error(m, fi, st, instrs, k + 1);
    } else {
        assert(instrs.take(k) =~= instrs);
    }
}

#[verifier::spinoff_prover]
#[verifier::rlimit(40)]
fn emit_prologue(out: &mut String, m: &NativeModule, fi: usize)
    requires
        emit_context(*m, fi as int),
        m.functions@[fi as int].param_count <= 8,
    ensures
        final(out)@ == old(out)@ + prologue_text(*m, fi as int),
{
    let ghost out0 = out@;
    let f = &m.functions[fi];
    let label = native_function_label(m, fi);
    push_str(out, ".globl ");
    push_str(out, label.as_str());
    push_str(out, "\n");
    push_str(out, ".p2align 2\n");
    push_str(out, label.as_str());
    push_str(out, ":\n");
    push_str(out, "    stp x29, x30, [sp, #-16]!\n");
    push_str(out, "    mov x29, sp\n");
    let frame = native_frame_size(f.param_count + f.local_count);
    if frame > 0 {
        push_str(out, "    sub sp, sp, #");
        push_u64(out, frame as u64);
        push_str(out, "\n");
    }
    let ghost before_params = out@;
    let mut p: usize = 0;
    assert(out@ =~= before_params + param_stores(0));
    while p < f.param_count
        invariant
            p <= f.param_count,
            f.param_count <= 8,
            out@ == before_params + param_stores(p as nat),
        decreases f.param_count - p,
    {
        push_str(out, "    str x");
        push_u64(out, p as u64);
        push_str(out, ", ");
        push_local_slot(out, p as u32);
        assert(out@ =~= before_params + param_stores((p + 1) as nat));
        p = p + 1;
    }
    assert(out@ =~= out0 + prologue_text(*m, fi as int));
}

/// The assembly text of function `function_index` of the module.
pub fn emit_function(m: &NativeModule, function_index: usize) -> (r: Result<String, String>)
    requires
        emit_context(*m, function_index as int),
    ensures
        match function_text_spec(*m, function_index as int) {
            Ok(t) => r matches Ok(s) && s@ == t,
            Err(e) => r matches Err(x) && x@ == e,
        },
{
    proof {
        reveal(function_text_spec);
    }
    let fi = function_index;
    let f = &m.functions[fi];
    let name = f.name.as_str();
    if f.param_count > 8 {
        let mut e = owned("native backend の Apple Silicon 実装は 8 引数までの関数のみ対応しています: ");
        push_str(&mut e, name);
        return Err(e);
    }
    if !(f.result == IrType::I64 || f.result == IrType::I32) {
        let mut e = owned("native backend の Apple Silicon 実装は整数を返す関数のみ対応しています: ");
        push_str(&mut e, name);
        return Err(e);
    }
    let mut return_label = owned("L_lsharp_return_");
    push_u64(&mut return_label, fi as u64);
    push_str(&mut return_label, "_");
    let sanitized = native_sanitize_symbol(name);
    push_str(&mut return_label, sanitized.as_str());
    let mut st = EmitterState::new();
    let mut body_text = String::new();
    let body = &f.body;
    let ghost init = st@;
    assert(body@.take(0) =~= Seq::<Instruction>::empty());
    assert(body_text@ =~= Seq::<char>::empty());
    let mut i: usize = 0;
    while i < body.len()
        invariant
            emit_context(*m, fi as int),
            f == m.functions@[fi as int],
            *body == f.body,
            fi == function_index,
            f.param_count <= 8,
            f.result == IrType::I64 || f.result == IrType::I32,
            name@ == name_of(*m, fi as int),
            return_label@ == return_label_spec(*m, fi as int),
            i <= body@.len(),
            body@.len() <= size_limit(),
            init == initial_state(),
            bounded(st@, i as int),
            run_spec(*m, fi as int, init, body@.take(i as int)) == Ok::<
                (EmitView, Seq<char>),
                Seq<char>,
            >((st@, body_text@)),
        decreases body.len() - i,
    {
        let ghost st0 = st@;
        let ghost text0 = body_text@;
        proof {
            assert(body@.take(i + 1).drop_last() =~= body@.take(i as int));
            assert(body@.take(i + 1).last() == body@[i as int]);
            assert(bounded(st@, size_limit())) by {
                assert forall|k: int| 0 <= k < st@.frames.len() implies (#[trigger] st@.frames[k]).entry_depth
                    <= size_limit() && (st@.frames[k].then_depth matches Some(t) ==> t
                    <= size_limit()) by {
                    assert(st@.frames[k].entry_depth <= i);
                }
            }
        }
        let step = emit_instruction(&mut st, &mut body_text, m, fi, name, return_label.as_str(), &body[i]);
        match step {
            Ok(()) => {
                proof {
                    lemma_step_bounded(*m, fi as int, st0, body@[i as int], i as int);
                }
            },
            Err(e) => {
                proof {
                    let ghost expected = step_spec(*m, fi as int, st0, body@[i as int]);
                    assert(expected is Err && expected->Err_0 == e@);
                    assert(run_spec(*m, fi as int, init, body@.take(i + 1)) == expected);
                    lemma_run_error(*m, fi as int, init, body@, i + 1);
                    reveal(function_text_spec);
                }
                return Err(e);
            },
        }
        i = i + 1;
    }
    assert(body@.take(body.len() as int) =~= body@);
    if st.frames.len() > 0 {
        let mut e = owned("native backend の Apple Silicon 実装で if/end の対応が閉じていません: ");
        push_str(&mut e, name);
        return Err(e);
    }
    if st.depth != 1 {
        let mut e = owned("native backend の Apple Silicon 実装は関数終了時に戻り値が1つ必要です: ");
        push_str(&mut e, name);
        push_str(&mut e, " stack_depth=");
        push_u64(&mut e, st.depth as u64);
        return Err(e);
    }
    let mut out = String::new();
    assert(out@ =~= Seq::<char>::empty());
    emit_prologue(&mut out, m, fi);
    push_str(&mut out, body_text.as_str());
    native_emit_pop(&mut out, "x0");
    push_str(&mut out, return_label.as_str());
    push_str(&mut out, ":\n");
    push_str(&mut out, "    mov sp, x29\n");
    push_str(&mut out, "    ldp x29, x30, [sp], #16\n");
    push_str(&mut out, "    ret\n");
    assert(out@ =~= prologue_text(*m, fi as int) + body_text@ + epilogue_text(*m, fi as int));
    Ok(out)
}

/// Whether the AArch64 condition `cond` holds after `cmp a, b` on the
/// signed 64-bit values `a` and `b`.
pub open spec fn condition_holds(cond: Seq<char>, a: i64, b: i64) -> bool {
    if cond == "eq"@ {
        a == b
    } else if cond == "ne"@ {
        a != b
    } else if cond == "lt"@ {
        a < b
    } else if cond == "gt"@ {
        a > b
    } else if cond == "le"@ {
        a <= b
    } else if cond == "ge"@ {
        a >= b
    } else {
        false
    }
}

/// The relation a 64-bit IR comparison computes between its first operand
/// `a` and its second operand `b`; `None` for other instructions.
pub open spec fn i64_relation(ins: Instruction, a: i64, b: i64) -> Option<bool> {
    match ins {
        Instruction::I64Eq => Some(a == b),
        Instruction::I64Ne => Some(a != b),
        Instruction::I64LtS => Some(a < b),
        Instruction::I64GtS => Some(a > b),
        Instruction::I64LeS => Some(a <= b),
        Instruction::I64GeS => Some(a >= b),
        _ => None,
    }
}

/// The condition code a comparison is emitted with.
spec fn emitted_condition(ins: Instruction) -> Seq<char> {
    match ins {
        Instruction::I64Eq => "eq"@,
        Instruction::I64Ne => "ne"@,
        Instruction::I64LtS => "lt"@,
        Instruction::I64GtS => "gt"@,
        Instruction::I64LeS => "le"@,
        Instruction::I64GeS => "ge"@,
        _ => Seq::empty(),
    }
}

#[verifier::spinoff_prover]
proof fn lemma_comparison_step(m: NativeModule, fi: int, st: EmitView, ins: Instruction)
    requires
        i64_relation(ins, 0, 0) is Some,
    ensures
        step_spec(m, fi, st, ins) == compare_step(m, fi, st, emitted_condition(ins)),
{
    reveal(step_spec);
}

#[verifier::spinoff_prover]
proof fn lemma_condition_semantics(ins: Instruction, a: i64, b: i64)
    requires
        i64_relation(ins, 0, 0) is Some,
    ensures
        condition_holds(emitted_condition(ins), a, b) <==> i64_relation(ins, a, b) == Some(true),
{
    reveal_strlit("eq");
    reveal_strlit("ne");
    reveal_strlit("lt");
    reveal_strlit("gt");
    reveal_strlit("le");
    reveal_strlit("ge");
    match ins {
        Instruction::I64Eq => {
            assert(emitted_condition(ins) == "eq"@);
            assert(condition_holds("eq"@, a, b) == (a == b));
            assert(i64_relation(ins, a, b) == Some(a == b));
        },
        Instruction::I64Ne => {
            assert(emitted_condition(ins) == "ne"@);
            assert("eq"@[0] != "ne"@[0]);
            assert(condition_holds("ne"@, a, b) == (a != b));
            assert(i64_relation(ins, a, b) == Some(a != b));
        },
        Instruction::I64LtS => {
            assert(emitted_condition(ins) == "lt"@);
            assert("eq"@[0] != "lt"@[0]);
            assert("ne"@[0] != "lt"@[0]);
            assert(condition_holds("lt"@, a, b) == (a < b));
            assert(i64_relation(ins, a, b) == Some(a < b));
        },
        Instruction::I64GtS => {
            assert(emitted_condition(ins) == "gt"@);
            assert("eq"@[0] != "gt"@[0]);
            assert("ne"@[0] != "gt"@[0]);
            assert("lt"@[0] != "gt"@[0]);
            assert(condition_holds("gt"@, a, b) == (a > b));
            assert(i64_relation(ins, a, b) == Some(a > b));
        },
        Instruction::I64LeS => {
            assert(emitted_condition(ins) == "le"@);
            assert("eq"@[0] != "le"@[0]);
            assert("ne"@[0] != "le"@[0]);
            assert("lt"@[1] != "le"@[1]);
            assert("gt"@[0] != "le"@[0]);
            assert(condition_holds("le"@, a, b) == (a <= b));
            assert(i64_relation(ins, a, b) == Some(a <= b));
        },
        Instruction::I64GeS => {
            assert(emitted_condition(ins) == "ge"@);
            assert("eq"@[0] != "ge"@[0]);
            assert("ne"@[0] != "ge"@[0]);
            assert("lt"@[0] != "ge"@[0]);
            assert("gt"@[1] != "ge"@[1]);
            assert("le"@[0] != "ge"@[0]);
            assert(condition_holds("ge"@, a, b) == (a >= b));
            assert(i64_relation(ins, a, b) == Some(a >= b));
        },
        _ => {},
    }
}

/// A 64-bit comparison pops its operands, compares the first with the
/// second, and sets the result from a condition code that holds exactly
/// when the instruction's relation holds: `le` for `i64.le_s`, `lt` for
/// `i64.lt_s`, and so on; so distinct comparisons get distinct conditions.
pub proof fn law_comparisons_compute_their_relation(m: NativeModule, fi: int, st: EmitView, ins: Instruction)
    requires
        i64_relation(ins, 0, 0) is Some,
        st.depth >= 2,
    ensures
        exists|cond: Seq<char>|
            step_spec(m, fi, st, ins) == Ok::<(EmitView, Seq<char>), Seq<char>>(
                (
                    pushed(popped(st, 2)),
                    pop_text("x10"@) + pop_text("x9"@) + "    cmp x9, x10\n"@ + "    cset x9, "@ + cond
                        + "\n"@ + push_text("x9"@),
                ),
            ) && forall|a: i64, b: i64|
                #![trigger condition_holds(cond, a, b)]
                condition_holds(cond, a, b) == (i64_relation(ins, a, b) == Some(true)),
{
    let cond = emitted_condition(ins);
    lemma_comparison_step(m, fi, st, ins);
    assert forall|a: i64, b: i64| #![trigger condition_holds(cond, a, b)]
        condition_holds(cond, a, b) == (i64_relation(ins, a, b) == Some(true)) by {
        lemma_condition_semantics(ins, a, b);
        assert(condition_holds(cond, a, b) <==> i64_relation(ins, a, b) == Some(true));
    }
}

} // verus!
