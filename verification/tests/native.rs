use lsharp::native::emitter::emit_function;
use lsharp::native::{
    fits_native_limits, native_emit_heap_base_plus_offset_and_memarg, native_emit_i64_const,
    native_backend_error, native_frame_size, native_function_label, native_local_offset, native_main_index,
    native_module_assembly, native_reachable_function_indexes, native_sanitize_symbol, GcType,
    GcTypeKind, Instruction, IrType, NativeFunction, NativeModule,
};

fn function(name: &str, params: usize, locals: usize, export: bool, body: Vec<Instruction>) -> NativeFunction {
    NativeFunction {
        name: name.to_string(),
        param_count: params,
        local_count: locals,
        result: IrType::I64,
        body,
        is_export: export,
    }
}

fn module(functions: Vec<NativeFunction>) -> NativeModule {
    NativeModule { functions, gc_types: Vec::new() }
}

const PUSH_X9: &str = "    sub sp, sp, #16\n    str x9, [sp]\n";

fn pop(register: &str) -> String {
    format!("    ldr {register}, [sp]\n    add sp, sp, #16\n")
}

fn epilogue(return_label: &str) -> String {
    format!("{}{return_label}:\n    mov sp, x29\n    ldp x29, x30, [sp], #16\n    ret\n", pop("x0"))
}

const HEADER: &str = ".section __TEXT,__cstring\nL_lsharp_fmt_i64:\n.asciz \"%lld\\n\"\n.data\n.p2align 3\n_lsharp_heap_next:\n.quad 0\n.zerofill __DATA,__bss,_lsharp_heap,1048576,4\n.text\n";

#[test]
fn sanitize_replaces_non_symbol_characters() {
    assert_eq!(native_sanitize_symbol("list-map?"), "list_map_");
    assert_eq!(native_sanitize_symbol("a_b9Z"), "a_b9Z");
    assert_eq!(native_sanitize_symbol("λx"), "_x");
}

#[test]
fn frame_layout_rounds_to_sixteen_bytes() {
    assert_eq!(native_frame_size(0), 0);
    assert_eq!(native_frame_size(1), 16);
    assert_eq!(native_frame_size(2), 16);
    assert_eq!(native_frame_size(3), 32);
    assert_eq!(native_local_offset(0), -8);
    assert_eq!(native_local_offset(2), -24);
}

#[test]
fn labels_name_exported_main_directly() {
    let m = module(vec![
        function("helper-fn", 0, 0, false, vec![]),
        function("main", 0, 0, true, vec![]),
        function("main", 0, 0, false, vec![]),
    ]);
    assert_eq!(native_function_label(&m, 0), "_lsharp_fn_0_helper_fn");
    assert_eq!(native_function_label(&m, 1), "_main");
    assert_eq!(native_function_label(&m, 2), "_lsharp_fn_2_main");
}

#[test]
fn constants_use_movz_and_nonzero_movk_chunks() {
    let mut out = String::new();
    native_emit_i64_const(&mut out, "x9", 42);
    assert_eq!(out, "    movz x9, #42\n");
    let mut out = String::new();
    native_emit_i64_const(&mut out, "x9", 0x0001_0000_0002_0003);
    assert_eq!(out, "    movz x9, #3\n    movk x9, #2, lsl #16\n    movk x9, #1, lsl #48\n");
    let mut out = String::new();
    native_emit_i64_const(&mut out, "x9", -1);
    assert_eq!(
        out,
        "    movz x9, #65535\n    movk x9, #65535, lsl #16\n    movk x9, #65535, lsl #32\n    movk x9, #65535, lsl #48\n"
    );
}

#[test]
fn memory_addresses_add_the_memarg_offset_only_when_nonzero() {
    let mut out = String::new();
    native_emit_heap_base_plus_offset_and_memarg(&mut out, "x9", "x11", 0);
    assert_eq!(
        out,
        "    uxtw x9, w9\n    adrp x11, _lsharp_heap@PAGE\n    add x11, x11, _lsharp_heap@PAGEOFF\n    add x11, x11, x9\n"
    );
    let mut out = String::new();
    native_emit_heap_base_plus_offset_and_memarg(&mut out, "x9", "x11", 8);
    assert!(out.ends_with("    movz x12, #8\n    add x11, x11, x12\n"));
}

#[test]
fn main_prefers_the_exported_function() {
    let m = module(vec![
        function("main", 0, 0, false, vec![]),
        function("main", 0, 0, true, vec![]),
    ]);
    assert_eq!(native_main_index(&m), Ok(1));
    let m = module(vec![function("other", 0, 0, true, vec![]), function("main", 0, 0, false, vec![])]);
    assert_eq!(native_main_index(&m), Ok(1));
}

#[test]
fn missing_main_is_a_codegen_error() {
    let m = module(vec![function("other", 0, 0, true, vec![Instruction::I64Const(1)])]);
    assert_eq!(native_main_index(&m), Err("native backend には main 関数が必要です".to_string()));
    assert_eq!(native_module_assembly(&m), Err("native backend には main 関数が必要です".to_string()));
}

#[test]
fn reachability_follows_module_calls_only() {
    let m = module(vec![
        function("unused", 0, 0, false, vec![Instruction::I64Const(0)]),
        function("main", 0, 0, true, vec![Instruction::Call(19), Instruction::Call(0), Instruction::Call(99)]),
        function("helper", 0, 0, false, vec![Instruction::Call(18), Instruction::CallImport(17)]),
        function("cyclic", 0, 0, false, vec![Instruction::Call(18)]),
    ]);
    assert_eq!(native_reachable_function_indexes(&m), Ok(vec![1, 2]));
}

#[test]
fn simple_arithmetic_main_function_text() {
    let m = module(vec![function(
        "main",
        0,
        0,
        true,
        vec![Instruction::I64Const(40), Instruction::I64Const(2), Instruction::I64Add],
    )]);
    assert!(fits_native_limits(&m));
    let expected = format!(
        ".globl _main\n.p2align 2\n_main:\n    stp x29, x30, [sp, #-16]!\n    mov x29, sp\n\
         {c40}{PUSH_X9}{c2}{PUSH_X9}{p10}{p9}    add x9, x9, x10\n{PUSH_X9}{epi}",
        c40 = "    movz x9, #40\n",
        c2 = "    movz x9, #2\n",
        p10 = pop("x10"),
        p9 = pop("x9"),
        epi = epilogue("L_lsharp_return_0_main"),
    );
    assert_eq!(emit_function(&m, 0), Ok(expected.clone()));
    assert_eq!(native_module_assembly(&m), Ok(format!("{HEADER}{expected}")));
}

#[test]
fn parameters_are_saved_in_their_frame_slots() {
    let m = module(vec![
        function("double", 1, 0, false, vec![
            Instruction::LocalGet(0),
            Instruction::LocalGet(0),
            Instruction::I64Add,
        ]),
        function("main", 0, 0, true, vec![Instruction::I64Const(21), Instruction::Call(17)]),
    ]);
    let double = emit_function(&m, 0).unwrap();
    assert!(double.starts_with(
        ".globl _lsharp_fn_0_double\n.p2align 2\n_lsharp_fn_0_double:\n    stp x29, x30, [sp, #-16]!\n    mov x29, sp\n    sub sp, sp, #16\n    str x0, [x29, #-8]\n    ldr x9, [x29, #-8]\n"
    ));
    let main = emit_function(&m, 1).unwrap();
    assert!(main.contains(&format!("{}    bl _lsharp_fn_0_double\n    sub sp, sp, #16\n    str x0, [sp]\n", pop("x0"))));
    let assembly = native_module_assembly(&m).unwrap();
    assert_eq!(assembly, format!("{HEADER}{double}{main}"));
}

#[test]
fn if_else_uses_numbered_labels() {
    let m = module(vec![function(
        "main",
        0,
        0,
        true,
        vec![
            Instruction::I64Const(1),
            Instruction::If,
            Instruction::I64Const(42),
            Instruction::Else,
            Instruction::I64Const(0),
            Instruction::End,
        ],
    )]);
    let text = emit_function(&m, 0).unwrap();
    assert!(text.contains("    cmp x9, #0\n    b.eq L_lsharp_0_main_0_else\n"));
    assert!(text.contains("    b L_lsharp_0_main_1_endif\nL_lsharp_0_main_0_else:\n"));
    assert!(text.contains("L_lsharp_0_main_1_endif:\n"));
}

#[test]
fn underflow_is_reported_with_the_function_name() {
    let m = module(vec![function("main", 0, 0, true, vec![Instruction::I64Add])]);
    assert_eq!(
        emit_function(&m, 0),
        Err("native backend の Apple Silicon 実装でスタック値が不足しています: main".to_string())
    );
}

#[test]
fn unsupported_instruction_is_reported_with_its_rendering() {
    let m = module(vec![function("main", 0, 0, true, vec![Instruction::Unsupported("F64Add".to_string())])]);
    assert_eq!(
        native_module_assembly(&m),
        Err("native backend の Apple Silicon 実装は未対応 IR を含む関数をまだ生成できません: main F64Add".to_string())
    );
}

#[test]
fn structural_errors_of_a_function() {
    let m = module(vec![function("main", 0, 0, true, vec![Instruction::Else])]);
    assert_eq!(
        emit_function(&m, 0),
        Err("native backend の Apple Silicon 実装で else に対応する if がありません".to_string())
    );
    let m = module(vec![function("main", 0, 0, true, vec![Instruction::End])]);
    assert_eq!(
        emit_function(&m, 0),
        Err("native backend の Apple Silicon 実装で end に対応する block がありません".to_string())
    );
    let m = module(vec![function("main", 0, 0, true, vec![Instruction::I64Const(1), Instruction::IfEmpty])]);
    assert_eq!(
        emit_function(&m, 0),
        Err("native backend の Apple Silicon 実装で if/end の対応が閉じていません: main".to_string())
    );
    let m = module(vec![function("main", 0, 0, true, vec![Instruction::I64Const(1), Instruction::I64Const(2)])]);
    assert_eq!(
        emit_function(&m, 0),
        Err("native backend の Apple Silicon 実装は関数終了時に戻り値が1つ必要です: main stack_depth=2".to_string())
    );
    let m = module(vec![function("main", 0, 1, true, vec![Instruction::LocalGet(3)])]);
    assert_eq!(
        emit_function(&m, 0),
        Err("native backend の Apple Silicon 実装で local index が範囲外です: main local=3 local_count=1".to_string())
    );
}

#[test]
fn signature_limits_of_a_function() {
    let mut f = function("main", 9, 0, true, vec![]);
    let m = module(vec![f]);
    assert_eq!(
        emit_function(&m, 0),
        Err("native backend の Apple Silicon 実装は 8 引数までの関数のみ対応しています: main".to_string())
    );
    f = function("main", 0, 0, true, vec![Instruction::I64Const(1)]);
    f.result = IrType::Other;
    let m = module(vec![f]);
    assert_eq!(
        emit_function(&m, 0),
        Err("native backend の Apple Silicon 実装は整数を返す関数のみ対応しています: main".to_string())
    );
}

#[test]
fn calls_outside_the_module_are_errors() {
    let m = module(vec![function("main", 0, 0, true, vec![Instruction::Call(3)])]);
    assert_eq!(
        emit_function(&m, 0),
        Err("native backend の Apple Silicon 実装は import/runtime call をまだ生成できません: call 3".to_string())
    );
    let m = module(vec![function("main", 0, 0, true, vec![Instruction::Call(18)])]);
    assert_eq!(
        emit_function(&m, 0),
        Err("native backend の Apple Silicon 実装で call index が関数範囲外です: call 18".to_string())
    );
}

#[test]
fn struct_new_allocates_and_stores_fields() {
    let m = NativeModule {
        functions: vec![function(
            "main",
            0,
            0,
            true,
            vec![Instruction::I64Const(7), Instruction::I64Const(9), Instruction::StructNew(0)],
        )],
        gc_types: vec![
            GcType { name: "Pair".to_string(), kind: GcTypeKind::Struct(2) },
            GcType { name: "Bytes".to_string(), kind: GcTypeKind::Array },
        ],
    };
    let text = emit_function(&m, 0).unwrap();
    assert!(text.contains("    movz x9, #16\n    add x9, x9, #7\n"));
    assert!(text.contains(&format!("{}    str x10, [x11, #8]\n{}    str x10, [x11, #0]\n", pop("x10"), pop("x10"))));
    let bad = NativeModule {
        functions: vec![function("main", 0, 0, true, vec![Instruction::StructNew(1)])],
        gc_types: vec![
            GcType { name: "Pair".to_string(), kind: GcTypeKind::Struct(2) },
            GcType { name: "Bytes".to_string(), kind: GcTypeKind::Array },
        ],
    };
    assert_eq!(
        emit_function(&bad, 0),
        Err("native backend の Apple Silicon 実装は array GC type をまだ生成できません: Bytes".to_string())
    );
}

#[test]
fn unreachable_functions_are_not_emitted() {
    let m = module(vec![
        function("broken", 0, 0, false, vec![Instruction::Unsupported("F64Add".to_string())]),
        function("main", 0, 0, true, vec![Instruction::I64Const(42)]),
    ]);
    let assembly = native_module_assembly(&m).unwrap();
    assert!(!assembly.contains("broken"));
    assert!(assembly.contains("_main:\n"));
}

#[test]
fn backend_errors_carry_the_diagnostic_code() {
    let m = module(vec![function("other", 0, 0, true, vec![])]);
    let message = native_module_assembly(&m).unwrap_err();
    assert_eq!(native_backend_error(&message), "[LS4001] native backend には main 関数が必要です");
}
