//! Allocations with a symbol.

use oxide_lower::address_space;
use oxide_lower::error::{ErrorKind, LowerError};
use oxide_lower::globals::{
    convert_extern_shared_dc, convert_global_alloc_dc, convert_shared_alloc_dc,
    create_device_global, create_shared_global, get_or_create_extern_shared_global,
};
use oxide_lower::ir::{
    Attribute, BlockSite, GlobalVar, Inst, LlvmType, MirExternSharedOp, MirGlobalAllocOp,
    MirSharedAllocOp, OpSite, Replacement, Rewrite, Value,
};
use oxide_lower::symbols::{
    DeviceGlobalsMap, DynamicSmemAlignmentMap, SharedGlobalsMap, SymbolCounters,
};
use oxide_lower::types::{MirPtrType, TypeId, TypeObj, TypeRecord, TypeTable};

const I32: TypeId = TypeId(0);
const GLOBAL_PTR: TypeId = TypeId(1);
const CONSTANT_PTR: TypeId = TypeId(2);
const STRANGE: TypeId = TypeId(3);
const GENERIC_PTR: TypeId = TypeId(4);

const MODULE_BLOCK: usize = 7;

fn types() -> TypeTable {
    let pointer = |address_space: u32| TypeRecord {
        obj: TypeObj::MirPtr(MirPtrType {
            pointee: I32,
            address_space,
        }),
        lowered: Ok(TypeId(5)),
    };
    TypeTable {
        types: vec![
            TypeRecord {
                obj: TypeObj::Integer { width: 32 },
                lowered: Ok(I32),
            },
            pointer(address_space::GLOBAL),
            pointer(address_space::CONSTANT),
            TypeRecord {
                obj: TypeObj::Other,
                lowered: Err("unsupported type".to_string()),
            },
            pointer(address_space::GENERIC),
            TypeRecord {
                obj: TypeObj::Other,
                lowered: Ok(TypeId(5)),
            },
        ],
    }
}

fn counters() -> SymbolCounters {
    SymbolCounters {
        shared: 0,
        device: 0,
    }
}

fn site_in(kernel: &str) -> OpSite {
    OpSite {
        parent_block: Some(BlockSite {
            module_block: Ok(Some(MODULE_BLOCK)),
            function: Ok(Some(kernel.to_string())),
        }),
    }
}

fn shared_alloc(alloc_key: &str, size: u64) -> MirSharedAllocOp {
    MirSharedAllocOp {
        alloc_key: Some(alloc_key.to_string()),
        elem_type: Some(Attribute::Type(I32)),
        size: Some(Attribute::Integer(size)),
        alignment: None,
        site: site_in("kernel_func"),
    }
}

fn global_alloc(global_key: &str, constant: bool) -> MirGlobalAllocOp {
    MirGlobalAllocOp {
        global_key: Some(Attribute::Str(global_key.to_string())),
        global_type: Some(Attribute::Type(I32)),
        alignment: None,
        result_type: Some(if constant { CONSTANT_PTR } else { GLOBAL_PTR }),
        site: site_in("kernel_func"),
    }
}

fn extern_shared(kernel: &str, byte_offset: u64) -> MirExternSharedOp {
    MirExternSharedOp {
        byte_offset,
        alignment: 16,
        site: site_in(kernel),
    }
}

fn pools() -> DynamicSmemAlignmentMap {
    let mut pools = DynamicSmemAlignmentMap::new();
    pools.insert(
        "my_kernel".to_string(),
        "__dynamic_smem_my_kernel".to_string(),
        128,
    );
    pools.insert(
        "other_kernel".to_string(),
        "__dynamic_smem_other_kernel".to_string(),
        16,
    );
    pools
}

fn address(r: &Rewrite) -> (String, u32) {
    match &r.ops[0] {
        Inst::AddressOf {
            symbol,
            address_space,
        } => (symbol.clone(), *address_space),
        other => panic!("expected an llvm.addressof, got {:?}", other),
    }
}

fn failure(r: Result<Rewrite, LowerError>) -> String {
    let e = r.expect_err("lowering should fail");
    assert_eq!(e.kind(), ErrorKind::VerificationFailed);
    e.message()
}

#[test]
fn convert_shared_alloc_creates_global_in_addrspace_3() {
    let r = convert_shared_alloc_dc(
        &types(),
        &shared_alloc("k1", 64),
        &mut SharedGlobalsMap::new(),
        &mut counters(),
    )
    .expect("lowering failed");
    let global = r
        .global
        .as_ref()
        .expect("expected an llvm.global for the shared allocation");
    assert_eq!(
        global.address_space,
        address_space::SHARED,
        "shared_alloc global must live in addrspace 3"
    );
    assert_eq!(address_space::SHARED, 3);
    assert!(
        global.symbol.starts_with("__shared_mem_"),
        "shared global should have __shared_mem_ prefix"
    );
    assert_eq!(address(&r).1, address_space::SHARED);
}

#[test]
fn convert_shared_alloc_deduplicates_by_alloc_key() {
    let mut shared_globals = SharedGlobalsMap::new();
    let mut counters = counters();
    let mut rewrites: Vec<Rewrite> = vec![];
    // Two allocations with the same key collapse to one global; a third with another key
    // does not.
    for (key, size) in [("same-key", 64), ("same-key", 64), ("other-key", 32)] {
        let op = shared_alloc(key, size);
        rewrites.push(
            convert_shared_alloc_dc(&types(), &op, &mut shared_globals, &mut counters)
                .expect("lowering failed"),
        );
    }
    let globals = rewrites
        .iter()
        .filter_map(|r| r.global.as_ref())
        .filter(|g| g.address_space == address_space::SHARED)
        .count();
    assert_eq!(
        globals, 2,
        "two distinct alloc_keys must produce two globals"
    );
    // Each of the three allocations becomes one addressof.
    let addresses = rewrites
        .iter()
        .flat_map(|r| r.ops.iter())
        .filter(|op| matches!(op, Inst::AddressOf { .. }))
        .count();
    assert_eq!(addresses, 3);
    assert_eq!(address(&rewrites[0]), address(&rewrites[1]));
    assert_ne!(address(&rewrites[0]), address(&rewrites[2]));
}

#[test]
fn convert_global_alloc_places_in_global_or_constant_addrspace() {
    let mut device_globals = DeviceGlobalsMap::new();
    let mut counters = counters();
    let mut globals: Vec<GlobalVar<String>> = vec![];
    for (key, constant) in [("ordinary_static", false), ("_ZN7my_mod3KEYE", true)] {
        let op = global_alloc(key, constant);
        let r = convert_global_alloc_dc(&types(), &op, &mut device_globals, &mut counters)
            .expect("lowering failed");
        globals.push(r.global.expect("each static has a global"));
    }
    let in_global = globals
        .iter()
        .find(|g| g.address_space == address_space::GLOBAL)
        .expect("expected one global in addrspace(1)");
    let in_constant = globals
        .iter()
        .find(|g| g.address_space == address_space::CONSTANT)
        .expect("expected one global in addrspace(4)");
    assert_eq!((address_space::GLOBAL, address_space::CONSTANT), (1, 4));
    assert_eq!(
        in_constant.symbol, "_ZN7my_mod3KEYE",
        "constant globals must keep the mangled global_key as symbol name"
    );
    assert!(
        in_global.symbol.starts_with("__device_global_"),
        "ordinary device globals get the __device_global_ prefix"
    );
}

#[test]
fn shared_alloc_rewrite_is_exact() {
    let mut shared_globals = SharedGlobalsMap::new();
    let mut counters = SymbolCounters {
        shared: 41,
        device: 5,
    };
    let mut op = shared_alloc("k1", 64);
    op.alignment = Some(128);
    let r = convert_shared_alloc_dc(&types(), &op, &mut shared_globals, &mut counters).unwrap();
    assert_eq!(
        r,
        Rewrite {
            global: Some(GlobalVar {
                symbol: "__shared_mem_41".to_string(),
                ty: LlvmType::Array {
                    elem: Box::new(LlvmType::Handle(I32)),
                    len: 64,
                },
                alignment: Some(128),
                address_space: 3,
                external: false,
                block: MODULE_BLOCK,
            }),
            ops: vec![Inst::AddressOf {
                symbol: "__shared_mem_41".to_string(),
                address_space: 3,
            }],
            replacement: Replacement::Op(0),
        }
    );
    assert_eq!(
        counters,
        SymbolCounters {
            shared: 42,
            device: 5,
        }
    );
    assert_eq!(
        shared_globals.get("k1"),
        Some("__shared_mem_41".to_string())
    );
}

#[test]
fn shared_allocs_without_a_key_share_nothing() {
    let mut shared_globals = SharedGlobalsMap::new();
    let mut counters = counters();
    let mut op = shared_alloc("", 8);
    op.alloc_key = None;
    let first =
        convert_shared_alloc_dc(&types(), &op, &mut shared_globals, &mut counters).unwrap();
    let second =
        convert_shared_alloc_dc(&types(), &op, &mut shared_globals, &mut counters).unwrap();
    assert_eq!(address(&first).0, "__shared_mem_0");
    assert_eq!(address(&second).0, "__shared_mem_1");
    assert!(first.global.is_some() && second.global.is_some());
    assert_eq!(shared_globals.get(""), None);
}

#[test]
fn a_known_key_needs_neither_a_type_nor_a_place() {
    let mut shared_globals = SharedGlobalsMap::new();
    shared_globals.insert("k".to_string(), "elsewhere".to_string());
    let mut op = shared_alloc("k", 8);
    op.elem_type = Some(Attribute::Type(STRANGE));
    op.site = OpSite { parent_block: None };
    let mut counters = counters();
    let r = convert_shared_alloc_dc(&types(), &op, &mut shared_globals, &mut counters).unwrap();
    assert_eq!(r.global, None);
    assert_eq!(address(&r), ("elsewhere".to_string(), 3));
    assert_eq!(counters.shared, 0);
}

#[test]
fn an_alignment_of_zero_is_none() {
    let mut shared = shared_alloc("k", 8);
    shared.alignment = Some(0);
    let r = convert_shared_alloc_dc(
        &types(),
        &shared,
        &mut SharedGlobalsMap::new(),
        &mut counters(),
    )
    .unwrap();
    assert_eq!(r.global.unwrap().alignment, None);
    let mut device = global_alloc("k", false);
    device.alignment = Some(0);
    let r = convert_global_alloc_dc(
        &types(),
        &device,
        &mut DeviceGlobalsMap::new(),
        &mut counters(),
    )
    .unwrap();
    assert_eq!(r.global.unwrap().alignment, None);
}

#[test]
fn shared_alloc_attributes_are_checked() {
    let lower = |op: MirSharedAllocOp| {
        let mut shared_globals = SharedGlobalsMap::new();
        let mut counters = counters();
        let message = failure(convert_shared_alloc_dc(
            &types(),
            &op,
            &mut shared_globals,
            &mut counters,
        ));
        assert_eq!(counters.shared, 0);
        assert_eq!(shared_globals.get("k"), None);
        message
    };
    let mut op = shared_alloc("k", 8);
    op.elem_type = None;
    op.size = None;
    assert_eq!(lower(op), "MirSharedAllocOp missing elem_type attribute");
    let mut op = shared_alloc("k", 8);
    op.elem_type = Some(Attribute::Integer(3));
    assert_eq!(lower(op), "elem_type is not a TypeAttr");
    let mut op = shared_alloc("k", 8);
    op.size = None;
    assert_eq!(lower(op), "MirSharedAllocOp missing size attribute");
    let mut op = shared_alloc("k", 8);
    op.size = Some(Attribute::Str("8".to_string()));
    assert_eq!(lower(op), "size is not an IntegerAttr");
    let mut op = shared_alloc("k", 8);
    op.elem_type = Some(Attribute::Type(STRANGE));
    assert_eq!(lower(op), "unsupported type");
}

#[test]
fn a_global_needs_a_place_and_its_number_is_spent_anyway() {
    let nowhere = || OpSite { parent_block: None };
    let lost = || OpSite {
        parent_block: Some(BlockSite {
            module_block: Err("no module around the block".to_string()),
            function: Ok(None),
        }),
    };
    let empty = || OpSite {
        parent_block: Some(BlockSite {
            module_block: Ok(None),
            function: Ok(None),
        }),
    };
    let cases = [
        (nowhere(), nowhere(), "Op has no parent block"),
        (lost(), lost(), "no module around the block"),
        (empty(), empty(), "Module is empty"),
    ];
    for (shared_site, device_site, expected) in cases {
        let mut shared_globals = SharedGlobalsMap::new();
        let mut device_globals = DeviceGlobalsMap::new();
        let mut counters = counters();
        let mut shared = shared_alloc("k", 8);
        shared.site = shared_site;
        assert_eq!(
            failure(convert_shared_alloc_dc(
                &types(),
                &shared,
                &mut shared_globals,
                &mut counters
            )),
            expected
        );
        let mut device = global_alloc("k", false);
        device.site = device_site;
        assert_eq!(
            failure(convert_global_alloc_dc(
                &types(),
                &device,
                &mut device_globals,
                &mut counters
            )),
            expected
        );
        assert_eq!(shared_globals.get("k"), None);
        assert!(!device_globals.contains_key("k"));
        assert_eq!(
            counters,
            SymbolCounters {
                shared: 1,
                device: 1,
            }
        );
    }
}

#[test]
fn numbers_start_again_when_they_run_out() {
    let mut counters = SymbolCounters {
        shared: usize::MAX,
        device: usize::MAX,
    };
    let mut map = SharedGlobalsMap::new();
    let r =
        convert_shared_alloc_dc(&types(), &shared_alloc("k", 8), &mut map, &mut counters).unwrap();
    assert_eq!(address(&r).0, format!("__shared_mem_{}", usize::MAX));
    let mut map = DeviceGlobalsMap::new();
    let r = convert_global_alloc_dc(
        &types(),
        &global_alloc("k", false),
        &mut map,
        &mut counters,
    )
    .unwrap();
    assert_eq!(address(&r).0, format!("__device_global_{}", usize::MAX));
    assert_eq!((counters.shared, counters.device), (0, 0));
}

#[test]
fn device_globals_are_shared_by_key() {
    let mut device_globals = DeviceGlobalsMap::new();
    let mut counters = counters();
    let mut lower = |op: MirGlobalAllocOp| {
        convert_global_alloc_dc(&types(), &op, &mut device_globals, &mut counters).unwrap()
    };
    let first = lower(global_alloc("a", false));
    let again = lower(global_alloc("a", false));
    let other = lower(global_alloc("b", false));
    assert_eq!(
        first,
        Rewrite {
            global: Some(GlobalVar {
                symbol: "__device_global_0".to_string(),
                ty: LlvmType::Handle(I32),
                alignment: None,
                address_space: 1,
                external: false,
                block: MODULE_BLOCK,
            }),
            ops: vec![Inst::AddressOf {
                symbol: "__device_global_0".to_string(),
                address_space: 1,
            }],
            replacement: Replacement::Op(0),
        }
    );
    assert_eq!(again.global, None);
    assert_eq!(again.ops, first.ops);
    assert_eq!(address(&other).0, "__device_global_1");
}

#[test]
fn constants_take_no_number() {
    let mut device_globals = DeviceGlobalsMap::new();
    let mut counters = counters();
    let mut op = global_alloc("LUT", true);
    op.alignment = Some(256);
    let r = convert_global_alloc_dc(&types(), &op, &mut device_globals, &mut counters).unwrap();
    let global = r.global.unwrap();
    assert_eq!(global.symbol, "LUT");
    assert_eq!(global.alignment, Some(256));
    assert_eq!(counters.device, 0);
    assert_eq!(device_globals.get("LUT"), Some("LUT".to_string()));
}

#[test]
fn a_generic_pointer_means_global_memory() {
    let mut op = global_alloc("a", false);
    op.result_type = Some(GENERIC_PTR);
    let r = convert_global_alloc_dc(&types(), &op, &mut DeviceGlobalsMap::new(), &mut counters()).unwrap();
    assert_eq!(address(&r).1, 1);
    assert_eq!(r.global.unwrap().address_space, 1);
}

#[test]
fn constant_keys_must_be_identifiers() {
    for key in ["", "1abc", "a.b", "a b", "caf\u{e9}", "a\n"] {
        let mut device_globals = DeviceGlobalsMap::new();
        let message = failure(convert_global_alloc_dc(
            &types(),
            &global_alloc(key, true),
            &mut device_globals,
            &mut counters(),
        ));
        let start = format!("constant global_key {:?} is not a valid identifier: ", key);
        assert!(message.starts_with(&start), "got: {}", message);
        let account = &message[start.len()..];
        assert!(account.starts_with("Error"), "got: {}", account);
        let kind = account.find("InvalidArgument").expect("the kind is given");
        let quoted = format!("{:?}", key);
        assert!(account[kind..].contains(&quoted), "got: {}", account);
        assert!(!device_globals.contains_key(key));
    }
    for key in ["_", "a", "Z9_", "__device"] {
        let r = convert_global_alloc_dc(
            &types(),
            &global_alloc(key, true),
            &mut DeviceGlobalsMap::new(),
            &mut counters(),
        )
        .unwrap();
        assert_eq!(address(&r), (key.to_string(), 4));
    }
}

#[test]
fn ordinary_keys_need_not_be_identifiers() {
    let r = convert_global_alloc_dc(
        &types(),
        &global_alloc("my crate::STATE", false),
        &mut DeviceGlobalsMap::new(),
        &mut counters(),
    )
    .unwrap();
    assert_eq!(address(&r).0, "__device_global_0");
}

#[test]
fn global_alloc_attributes_are_checked() {
    let lower = |op: MirGlobalAllocOp| {
        let mut counters = counters();
        let message = failure(convert_global_alloc_dc(
            &types(),
            &op,
            &mut DeviceGlobalsMap::new(),
            &mut counters,
        ));
        assert_eq!(counters.device, 0);
        message
    };
    let mut op = global_alloc("k", false);
    op.global_key = None;
    assert_eq!(lower(op), "MirGlobalAllocOp missing global_key attribute");
    let mut op = global_alloc("k", false);
    op.global_key = Some(Attribute::Other);
    assert_eq!(lower(op), "global_key is not a StringAttr");
    let mut op = global_alloc("k", false);
    op.global_type = None;
    assert_eq!(lower(op), "MirGlobalAllocOp missing global_type attribute");
    let mut op = global_alloc("k", false);
    op.global_type = Some(Attribute::Str("i32".to_string()));
    assert_eq!(lower(op), "global_type is not a TypeAttr");
    let mut op = global_alloc("k", false);
    op.result_type = Some(I32);
    assert_eq!(lower(op), "MirGlobalAllocOp result is not a MirPtrType");
    let mut op = global_alloc("k", false);
    op.global_type = Some(Attribute::Type(STRANGE));
    assert_eq!(lower(op), "unsupported type");
}

#[test]
fn dynamic_shared_memory_is_one_pool_for_each_kernel() {
    let pools = pools();
    let mut shared_globals = SharedGlobalsMap::new();
    let mut lower = |op: MirExternSharedOp| {
        convert_extern_shared_dc(&op, &mut shared_globals, &pools).unwrap()
    };
    let base = lower(extern_shared("my_kernel", 0));
    assert_eq!(
        base,
        Rewrite {
            global: Some(GlobalVar {
                symbol: "__dynamic_smem_my_kernel".to_string(),
                ty: LlvmType::Array {
                    elem: Box::new(LlvmType::Integer(8)),
                    len: 0,
                },
                alignment: Some(128),
                address_space: 3,
                external: true,
                block: MODULE_BLOCK,
            }),
            ops: vec![Inst::AddressOf {
                symbol: "__dynamic_smem_my_kernel".to_string(),
                address_space: 3,
            }],
            replacement: Replacement::Op(0),
        }
    );
    let inside = lower(extern_shared("my_kernel", 1024));
    assert_eq!(
        inside,
        Rewrite {
            global: None,
            ops: vec![
                Inst::AddressOf {
                    symbol: "__dynamic_smem_my_kernel".to_string(),
                    address_space: 3,
                },
                Inst::Constant {
                    width: 64,
                    number: 1024,
                },
                Inst::GetElementPtr {
                    base: Value::ResultOf(0),
                    index: Value::ResultOf(1),
                    elem_type: LlvmType::Integer(8),
                },
            ],
            replacement: Replacement::Op(2),
        }
    );
    let other = lower(extern_shared("other_kernel", 0));
    let global = other.global.expect("another kernel has a pool of its own");
    assert_eq!(global.symbol, "__dynamic_smem_other_kernel");
    assert_eq!(global.alignment, Some(16));
}

#[test]
fn the_alignment_of_a_pool_is_that_of_its_kernel() {
    for alignment in [1, 16, 4096] {
        let mut op = extern_shared("my_kernel", 0);
        op.alignment = alignment;
        let r = convert_extern_shared_dc(&op, &mut SharedGlobalsMap::new(), &pools()).unwrap();
        assert_eq!(r.global.unwrap().alignment, Some(128));
    }
}

#[test]
fn a_pool_is_marked_when_it_is_declared() {
    let mut shared_globals = SharedGlobalsMap::new();
    convert_extern_shared_dc(
        &extern_shared("my_kernel", 0),
        &mut shared_globals,
        &pools(),
    )
    .unwrap();
    assert!(shared_globals.is_declared("my_kernel"));
    assert!(!shared_globals.is_declared("other_kernel"));
    assert_eq!(shared_globals.get("my_kernel"), None);
}

#[test]
fn dynamic_shared_memory_failures() {
    let lower = |site: OpSite| {
        let op = MirExternSharedOp {
            byte_offset: 0,
            alignment: 16,
            site,
        };
        let mut shared_globals = SharedGlobalsMap::new();
        let message = failure(convert_extern_shared_dc(
            &op,
            &mut shared_globals,
            &pools(),
        ));
        assert!(!shared_globals.is_declared("my_kernel"));
        message
    };
    assert_eq!(
        lower(OpSite { parent_block: None }),
        "Op has no parent block"
    );
    let site = |module_block, function| OpSite {
        parent_block: Some(BlockSite {
            module_block,
            function,
        }),
    };
    assert_eq!(
        lower(site(Ok(Some(1)), Err("no function around".to_string()))),
        "no function around"
    );
    assert_eq!(
        lower(site(Ok(Some(1)), Ok(None))),
        "Parent op is not an llvm.func"
    );
    assert_eq!(
        lower(site(Ok(Some(1)), Ok(Some("unscanned".to_string())))),
        "Internal error: dynamic shared memory alignment not pre-computed for kernel \
         'unscanned'. This should have been done in compute_max_dynamic_smem_alignment."
    );
    assert_eq!(
        lower(site(Ok(None), Ok(Some("my_kernel".to_string())))),
        "Module is empty"
    );
    assert_eq!(
        lower(site(
            Err("no module around".to_string()),
            Ok(Some("my_kernel".to_string()))
        )),
        "no module around"
    );
}

#[test]
fn static_and_dynamic_shared_memory_keep_apart() {
    let mut shared_globals = SharedGlobalsMap::new();
    let mut counters = counters();
    let fixed = convert_shared_alloc_dc(
        &types(),
        &shared_alloc("my_kernel", 8),
        &mut shared_globals,
        &mut counters,
    )
    .unwrap();
    let pool = convert_extern_shared_dc(
        &extern_shared("my_kernel", 0),
        &mut shared_globals,
        &pools(),
    )
    .unwrap();
    assert!(pool.global.is_some());
    assert_ne!(address(&fixed).0, address(&pool).0);
}

#[test]
fn no_key_is_taken_for_a_kernel() {
    for key in ["__dynamic_smem_global_created_my_kernel", "my_kernel"] {
        let mut shared_globals = SharedGlobalsMap::new();
        let mut counters = counters();
        let op = shared_alloc(key, 8);
        convert_shared_alloc_dc(&types(), &op, &mut shared_globals, &mut counters).unwrap();
        let pool = extern_shared("my_kernel", 0);
        let r = convert_extern_shared_dc(&pool, &mut shared_globals, &pools()).unwrap();
        assert_eq!(
            r.global.expect("the pool is declared all the same").symbol,
            "__dynamic_smem_my_kernel"
        );
        // The other way round, the allocation has a symbol of its own.
        let mut shared_globals = SharedGlobalsMap::new();
        convert_extern_shared_dc(&pool, &mut shared_globals, &pools()).unwrap();
        let r =
            convert_shared_alloc_dc(&types(), &op, &mut shared_globals, &mut counters).unwrap();
        assert_eq!(address(&r).0, "__shared_mem_1");
        assert!(r.global.is_some());
    }
}

#[test]
fn shared_and_device_symbols_do_not_meet() {
    let mut counters = counters();
    let shared = convert_shared_alloc_dc(
        &types(),
        &shared_alloc("k", 8),
        &mut SharedGlobalsMap::new(),
        &mut counters,
    )
    .unwrap();
    let device = convert_global_alloc_dc(
        &types(),
        &global_alloc("k", false),
        &mut DeviceGlobalsMap::new(),
        &mut counters,
    )
    .unwrap();
    assert_eq!(address(&shared).0, "__shared_mem_0");
    assert_eq!(address(&device).0, "__device_global_0");
}

#[test]
fn a_failed_allocation_is_made_good_by_the_next() {
    let mut shared_globals = SharedGlobalsMap::new();
    let mut counters = counters();
    let mut op = shared_alloc("k", 8);
    op.site = OpSite { parent_block: None };
    assert!(
        convert_shared_alloc_dc(&types(), &op, &mut shared_globals, &mut counters).is_err()
    );
    let r = convert_shared_alloc_dc(
        &types(),
        &shared_alloc("k", 8),
        &mut shared_globals,
        &mut counters,
    )
    .unwrap();
    assert!(r.global.is_some());
    assert_eq!(address(&r).0, "__shared_mem_1");
}

#[test]
fn created_shared_symbols_differ_across_maps() {
    let types = types();
    let site = site_in("kernel_func");
    let mut counters = counters();
    let mut first_map = SharedGlobalsMap::new();
    let mut second_map = SharedGlobalsMap::new();
    let key = || Some("k".to_string());
    let a = create_shared_global(&types, &site, &mut first_map, &mut counters, I32, 8, 0, key())
        .unwrap();
    let b = create_shared_global(&types, &site, &mut second_map, &mut counters, I32, 8, 4, key())
        .unwrap();
    // The key is known now, but this function does not look.
    let c = create_shared_global(&types, &site, &mut first_map, &mut counters, I32, 9, 0, key())
        .unwrap();
    let d = create_shared_global(&types, &site, &mut first_map, &mut counters, I32, 9, 0, None)
        .unwrap();
    assert_eq!(a.symbol, "__shared_mem_0");
    assert_eq!(b.symbol, "__shared_mem_1");
    assert_eq!(c.symbol, "__shared_mem_2");
    assert_eq!(d.symbol, "__shared_mem_3");
    assert_eq!((a.alignment, b.alignment), (None, Some(4)));
    assert_eq!(first_map.get("k"), Some("__shared_mem_2".to_string()));
    assert_eq!(second_map.get("k"), Some("__shared_mem_1".to_string()));
}

#[test]
fn created_device_symbols_differ_across_maps() {
    let types = types();
    let site = site_in("kernel_func");
    let mut counters = counters();
    let mut first_map = DeviceGlobalsMap::new();
    let mut second_map = DeviceGlobalsMap::new();
    let global = address_space::GLOBAL;
    let a = create_device_global(&types, &site, &mut first_map, &mut counters, "k", I32, 0, global)
        .unwrap();
    let b =
        create_device_global(&types, &site, &mut second_map, &mut counters, "k", I32, 8, global)
            .unwrap();
    let c = create_device_global(&types, &site, &mut first_map, &mut counters, "k", I32, 0, global)
        .unwrap();
    assert_eq!(a.symbol, "__device_global_0");
    assert_eq!(b.symbol, "__device_global_1");
    assert_eq!(c.symbol, "__device_global_2");
    assert_eq!((a.alignment, b.alignment), (None, Some(8)));
    assert_eq!(first_map.get("k"), Some("__device_global_2".to_string()));
    assert_eq!(second_map.get("k"), Some("__device_global_1".to_string()));
}

#[test]
fn a_pool_is_found_again_from_anywhere() {
    let pools = pools();
    let mut shared_globals = SharedGlobalsMap::new();
    let (symbol, global) = get_or_create_extern_shared_global(
        &site_in("my_kernel"),
        "my_kernel",
        &mut shared_globals,
        &pools,
        1,
    )
    .unwrap();
    assert_eq!(symbol, "__dynamic_smem_my_kernel");
    assert_eq!(global.unwrap().alignment, Some(128));
    // Not even a place is needed now.
    let (again, none) = get_or_create_extern_shared_global(
        &OpSite { parent_block: None },
        "my_kernel",
        &mut shared_globals,
        &pools,
        4096,
    )
    .unwrap();
    assert_eq!(again, symbol);
    assert_eq!(none, None);
}

#[test]
fn a_keyless_allocation_is_new_after_others() {
    let mut shared_globals = SharedGlobalsMap::new();
    let mut counters = counters();
    let mut symbols: Vec<String> = vec![];
    for key in [Some("a"), None, Some("a"), Some("b"), None] {
        let mut op = shared_alloc("", 8);
        op.alloc_key = key.map(|k| k.to_string());
        let r = convert_shared_alloc_dc(&types(), &op, &mut shared_globals, &mut counters).unwrap();
        if key.is_none() {
            assert!(r.global.is_some());
            assert!(!symbols.contains(&address(&r).0));
        }
        symbols.push(address(&r).0);
    }
    assert_eq!(symbols[0], symbols[2]);
}

#[test]
fn a_constant_may_have_the_name_of_a_number_not_handed_out() {
    let mut device_globals = DeviceGlobalsMap::new();
    let mut counters = counters();
    let mut lower = |key: &str, constant: bool| {
        let op = global_alloc(key, constant);
        let r = convert_global_alloc_dc(&types(), &op, &mut device_globals, &mut counters);
        address(&r.unwrap()).0
    };
    assert_eq!(lower("a", false), "__device_global_0");
    assert_eq!(lower("__device_global_7", true), "__device_global_7");
    assert_eq!(lower("b", false), "__device_global_1");
}

#[test]
fn attributes_are_read_before_the_result() {
    let mut op = global_alloc("k", false);
    op.global_key = None;
    op.result_type = None;
    assert_eq!(
        failure(convert_global_alloc_dc(
            &types(),
            &op,
            &mut DeviceGlobalsMap::new(),
            &mut counters()
        )),
        "MirGlobalAllocOp missing global_key attribute"
    );
}
