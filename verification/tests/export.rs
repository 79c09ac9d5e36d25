//! The exporter.

use oxide_lower::export::config::{ExportBackendConfig, NvvmExportConfig, PtxExportConfig};
use oxide_lower::export::state::ModuleExportState;
use oxide_lower::export::typed_ptr::{GepIndexAttr, Rendered};
use oxide_lower::types::{TypeId, TypeObj, TypeRecord, TypeTable};

#[test]
fn config_typed_pointers_flag_round_trips() {
    assert!(!PtxExportConfig.typed_pointers());
    assert!(!NvvmExportConfig::default().typed_pointers());
    assert!(NvvmExportConfig { typed_pointers: true }.typed_pointers());
}

fn types() -> TypeTable {
    let record = |obj: TypeObj| TypeRecord {
        obj,
        lowered: Err("LLVM types are not converted".to_string()),
    };
    TypeTable {
        types: vec![
            record(TypeObj::Integer { width: 32 }),
            record(TypeObj::Array {
                elem: TypeId(0),
                len: 256,
            }),
            record(TypeObj::Vector {
                elem: TypeId(0),
                len: 4,
            }),
            record(TypeObj::Struct {
                fields: vec![TypeId(0), TypeId(1), TypeId(2)],
            }),
            record(TypeObj::Array {
                elem: TypeId(3),
                len: 2,
            }),
        ],
    }
}

fn rendered(text: &str) -> Rendered {
    Rendered {
        text: text.to_string(),
        outcome: Ok(()),
    }
}

fn broken(text: &str, error: &str) -> Rendered {
    Rendered {
        text: text.to_string(),
        outcome: Err(error.to_string()),
    }
}

#[test]
fn a_new_state_is_empty() {
    let types = types();
    let state = ModuleExportState::new(&types, true, false, true);
    assert!(!state.convergent_used);
    assert!(state.cluster_kernels.is_empty());
    assert!(state.launch_bounds_kernels.is_empty());
    assert!(state.all_kernels.is_empty());
    assert!(state.device_functions.is_empty());
    assert!(state.track_all_kernels);
    assert!(!state.emit_ptx_kernel_keyword);
    assert!(state.typed_pointers);
    assert_eq!(state.ptr_cast_counter, 0);
    assert!(state.fn_ptr_types.get("f").is_none());
    assert!(state.global_value_types.get("g").is_none());
}

#[test]
fn cast_names_are_numbered_in_order() {
    let types = types();
    let mut state = ModuleExportState::new(&types, false, false, true);
    let mut names: Vec<String> = vec![];
    for n in 0..12 {
        let name = state.fresh_ptr_cast_name();
        assert_eq!(name, format!("%__ptrcast.{}", n));
        assert!(!name.starts_with("%v"));
        assert!(!names.contains(&name));
        names.push(name);
    }
    assert_eq!(state.ptr_cast_counter, 12);
}

#[test]
fn convergent_intrinsics_are_told_by_prefix() {
    for name in [
        "llvm.nvvm.barrier0",
        "llvm.nvvm.barrier",
        "llvm.nvvm.barrier.cluster.arrive",
        "llvm.nvvm.mbarrier.init.shared",
        "llvm.nvvm.shfl.sync.idx.i32",
        "llvm.nvvm.vote.ballot.sync",
        "llvm.nvvm.cp.async.bulk.tensor.g2s.tile.2d",
    ] {
        assert!(ModuleExportState::is_convergent_intrinsic(name), "{}", name);
    }
    for name in [
        "",
        "llvm.nvvm.barrie",
        "xllvm.nvvm.barrier0",
        "llvm.nvvm.cp.async.commit.group",
        "llvm.nvvm.read.ptx.sreg.tid.x",
        "llvm.sqrt.f32",
        "LLVM.NVVM.BARRIER0",
    ] {
        assert!(!ModuleExportState::is_convergent_intrinsic(name), "{}", name);
    }
}

#[test]
fn cast_to_a_pointee() {
    let types = types();
    let mut state = ModuleExportState::new(&types, false, false, true);
    let mut output = "before\n".to_string();
    let name = state
        .emit_ptr_cast_to(&rendered("%v1"), &rendered("float"), 3, &mut output)
        .unwrap();
    assert_eq!(name, "%__ptrcast.0");
    assert_eq!(
        output,
        "before\n  %__ptrcast.0 = bitcast i8 addrspace(3)* %v1 to float addrspace(3)*\n"
    );
    let mut output = String::new();
    let name = state
        .emit_ptr_cast_to(&rendered("%v2"), &rendered("[4 x i32]"), 0, &mut output)
        .unwrap();
    assert_eq!(name, "%__ptrcast.1");
    assert_eq!(
        output,
        "  %__ptrcast.1 = bitcast i8* %v2 to [4 x i32]*\n"
    );
}

#[test]
fn cast_back_to_i8() {
    let types = types();
    let mut state = ModuleExportState::new(&types, false, false, true);
    let mut output = String::new();
    assert_eq!(
        state.emit_ptr_cast_to_i8("%raw", &rendered("float"), 1, "%v3", &mut output),
        Ok(())
    );
    assert_eq!(
        output,
        "  %v3 = bitcast float addrspace(1)* %raw to i8 addrspace(1)*\n"
    );
    let mut output = String::new();
    assert_eq!(
        state.emit_ptr_cast_to_i8("%raw", &rendered("i64"), 0, "%v4", &mut output),
        Ok(())
    );
    assert_eq!(output, "  %v4 = bitcast i64* %raw to i8*\n");
    assert_eq!(state.ptr_cast_counter, 0);
}

#[test]
fn a_cast_and_the_cast_back_swap_types() {
    let types = types();
    let mut state = ModuleExportState::new(&types, false, false, true);
    let mut output = String::new();
    let name = state
        .emit_ptr_cast_to(&rendered("%v1"), &rendered("i16"), 4, &mut output)
        .unwrap();
    state
        .emit_ptr_cast_to_i8(&name, &rendered("i16"), 4, "%v2", &mut output)
        .unwrap();
    assert_eq!(
        output,
        "  %__ptrcast.0 = bitcast i8 addrspace(4)* %v1 to i16 addrspace(4)*\n  \
         %v2 = bitcast i16 addrspace(4)* %__ptrcast.0 to i8 addrspace(4)*\n"
    );
}

#[test]
fn failed_renderers_end_the_line_early() {
    let types = types();
    let mut state = ModuleExportState::new(&types, false, false, true);
    let mut output = String::new();
    assert_eq!(
        state.emit_ptr_cast_to(
            &broken("%v", "unnamed value"),
            &broken("x", "unused"),
            0,
            &mut output
        ),
        Err("unnamed value".to_string())
    );
    assert_eq!(output, "  %__ptrcast.0 = bitcast i8* %v");
    let mut output = String::new();
    assert_eq!(
        state.emit_ptr_cast_to(
            &rendered("%v1"),
            &broken("[2 x", "bad type"),
            3,
            &mut output
        ),
        Err("bad type".to_string())
    );
    assert_eq!(
        output,
        "  %__ptrcast.1 = bitcast i8 addrspace(3)* %v1 to [2 x"
    );
    let mut output = String::new();
    assert_eq!(
        state.emit_ptr_cast_to_i8("%raw", &broken("{", "bad type"), 0, "%v5", &mut output),
        Err("bad type".to_string())
    );
    assert_eq!(output, "  %v5 = bitcast {");
    // The names are spent all the same.
    assert_eq!(state.ptr_cast_counter, 2);
}

#[test]
fn gep_element_types() {
    let types = types();
    let state = ModuleExportState::new(&types, false, false, true);
    let field = |n: u32| GepIndexAttr::Constant(n);
    let run_time = GepIndexAttr::OperandIdx(1);
    // No index, and one index, change nothing.
    assert_eq!(state.gep_result_elem_type(TypeId(3), &[]), Ok(TypeId(3)));
    assert_eq!(
        state.gep_result_elem_type(TypeId(0), &[run_time]),
        Ok(TypeId(0))
    );
    assert_eq!(
        state.gep_result_elem_type(TypeId(1), &[field(9), run_time]),
        Ok(TypeId(0))
    );
    assert_eq!(
        state.gep_result_elem_type(TypeId(2), &[field(0), field(7)]),
        Ok(TypeId(0))
    );
    assert_eq!(
        state.gep_result_elem_type(TypeId(3), &[run_time, field(2)]),
        Ok(TypeId(2))
    );
    // An array of structs, down to an element of the array in the second field.
    assert_eq!(
        state.gep_result_elem_type(TypeId(4), &[field(0), run_time, field(1), run_time]),
        Ok(TypeId(0))
    );
}

#[test]
fn gep_element_type_errors() {
    let types = types();
    let state = ModuleExportState::new(&types, false, false, true);
    let field = |n: u32| GepIndexAttr::Constant(n);
    let run_time = GepIndexAttr::OperandIdx(1);
    assert_eq!(
        state.gep_result_elem_type(TypeId(3), &[field(0), run_time]),
        Err("typed-pointer GEP into a struct needs a constant index".to_string())
    );
    assert_eq!(
        state.gep_result_elem_type(TypeId(3), &[field(0), field(3)]),
        Err("typed-pointer GEP struct index out of range".to_string())
    );
    assert_eq!(
        state.gep_result_elem_type(TypeId(0), &[field(0), field(0)]),
        Err("typed-pointer GEP descends into a non-aggregate type".to_string())
    );
    // The first failure counts.
    assert_eq!(
        state.gep_result_elem_type(TypeId(3), &[field(0), field(3), field(0)]),
        Err("typed-pointer GEP struct index out of range".to_string())
    );
}

#[test]
fn gep_goes_on_from_where_a_shorter_one_ends() {
    let types = types();
    let state = ModuleExportState::new(&types, false, false, true);
    let zero = GepIndexAttr::Constant(0);
    let one = GepIndexAttr::Constant(1);
    let middle = state
        .gep_result_elem_type(TypeId(4), &[zero, zero, one])
        .unwrap();
    assert_eq!(middle, TypeId(1));
    assert_eq!(
        state.gep_result_elem_type(middle, &[one, zero]),
        state.gep_result_elem_type(TypeId(4), &[zero, zero, one, zero])
    );
}
