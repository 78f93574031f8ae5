use wasm_link::abi::AbiEntry;
use wasm_link::compilation::FunctionType;
use wasm_link::compiler::{CompiledUnit, Compiler};
use wasm_link::error::Error;
use wasm_link::module::{Module, Signature, WasmType};
use wasm_link::region::Region;
use wasm_link::reloc::Relocation;

fn sig(params: Vec<WasmType>, returns: Vec<WasmType>) -> Signature {
    Signature { params, returns }
}

fn empty_sig() -> Signature {
    sig(vec![], vec![])
}

fn module_no_imports(n_locals: usize, start_func: Option<usize>) -> Module {
    Module {
        imported_funcs: vec![],
        signatures: (0..n_locals).map(|_| empty_sig()).collect(),
        start_func,
    }
}

fn unit(code: Vec<u8>, relocs: Vec<Relocation>) -> CompiledUnit {
    CompiledUnit { code, relocs }
}

#[test]
fn offsets_are_prefix_sums() {
    let mut compiler = Compiler::new();
    compiler.define_function(Ok(unit(vec![0x90; 5], vec![]))).unwrap();
    compiler.define_function(Ok(unit(vec![0xcc; 7], vec![]))).unwrap();
    compiler.define_function(Ok(unit(vec![0xc3; 3], vec![]))).unwrap();
    assert_eq!(compiler.total_size, 15);
    let region = Region::new(0x10_0000, compiler.total_size);
    let c = compiler
        .compile(module_no_imports(3, Some(0)), vec![], Some(region))
        .unwrap();
    assert_eq!(c.first_local_function, 0);
    assert_eq!(c.functions.len(), 3);
    assert_eq!(c.functions[0], FunctionType::Local { offset: 0, size: 5 });
    assert_eq!(c.functions[1], FunctionType::Local { offset: 5, size: 7 });
    assert_eq!(c.functions[2], FunctionType::Local { offset: 12, size: 3 });
    // emission wrote each body at its offset, with no gap and no overlap
    let mut expected = vec![0x90u8; 5];
    expected.extend(vec![0xcc; 7]);
    expected.extend(vec![0xc3; 3]);
    assert_eq!(c.region.bytes, expected);
}

#[test]
fn self_call_displacement() {
    // one function of 16 bytes calling itself: the patched displacement
    // must point back to its own start, for the backend's addend
    let mut compiler = Compiler::new();
    compiler
        .define_function(Ok(unit(
            vec![0xAA; 16],
            vec![Relocation { offset: 4, func_index: 0, addend: 0 }],
        )))
        .unwrap();
    let base: u64 = 0x40_0000;
    let region = Region::new(base, compiler.total_size);
    let mut c = compiler
        .compile(module_no_imports(1, Some(0)), vec![], Some(region))
        .unwrap();
    c.relocate(&vec![]).unwrap();
    // value = target - site + addend - 4 = base - (base + 4) + 0 - 4 = -8
    assert_eq!(&c.region.bytes[4..8], &[0xf8, 0xff, 0xff, 0xff]);
    // the displacement resolves back to the function's own start:
    // value + site + 4 - addend == target (mod 2^32)
    let value = u32::from_le_bytes([0xf8, 0xff, 0xff, 0xff]) as u64;
    let site = base + 4;
    assert_eq!((value + site + 4 - 0) & 0xffff_ffff, base & 0xffff_ffff);
    // bytes outside the patched operand keep the emitted code
    assert_eq!(&c.region.bytes[0..4], &[0xAA; 4]);
    assert_eq!(&c.region.bytes[8..16], &[0xAA; 8]);
}

#[test]
fn self_call_displacement_nonzero_addend() {
    let mut compiler = Compiler::new();
    compiler
        .define_function(Ok(unit(
            vec![0x00; 12],
            vec![Relocation { offset: 6, func_index: 0, addend: 2 }],
        )))
        .unwrap();
    let base: u64 = 0x9000;
    let mut c = compiler
        .compile(module_no_imports(1, None), vec![], Some(Region::new(base, 12)))
        .unwrap();
    c.relocate(&vec![]).unwrap();
    // value = base - (base + 6) + 2 - 4 = -8
    assert_eq!(&c.region.bytes[6..10], &[0xf8, 0xff, 0xff, 0xff]);
}

fn host_log_entry(addr: u64, params: Vec<WasmType>) -> AbiEntry {
    AbiEntry { name: "log".to_owned(), addr, sig: sig(params, vec![]) }
}

#[test]
fn signature_mismatch_is_terminal_and_writes_nothing() {
    // declared (i32) -> (), host provides (i64) -> (): element-wise unequal
    let module = Module {
        imported_funcs: vec![("abi".to_owned(), "log".to_owned())],
        signatures: vec![sig(vec![WasmType::I32], vec![]), empty_sig()],
        start_func: Some(1),
    };
    let mut compiler = Compiler::new();
    let code = vec![0x11u8; 16];
    compiler
        .define_function(Ok(unit(
            code.clone(),
            vec![Relocation { offset: 4, func_index: 0, addend: 0 }],
        )))
        .unwrap();
    let mut c = compiler
        .compile(module, vec![], Some(Region::new(0x8000, 16)))
        .unwrap();
    let abi = vec![host_log_entry(0x5555_0000, vec![WasmType::I64])];
    assert_eq!(c.relocate(&abi), Err(Error::SignatureMismatch(0)));
    // nothing was written for the failing relocation
    assert_eq!(c.region.bytes, code);
}

#[test]
fn missing_entry_point_after_full_relocation() {
    // no start function: linking fails with MissingEntryPoint, and only
    // after the region is fully relocated
    let mut compiler = Compiler::new();
    compiler
        .define_function(Ok(unit(
            vec![0x00; 8],
            vec![Relocation { offset: 0, func_index: 0, addend: 0 }],
        )))
        .unwrap();
    let base: u64 = 0x2000;
    let mut c = compiler
        .compile(module_no_imports(1, None), vec![], Some(Region::new(base, 8)))
        .unwrap();
    // relocation itself succeeds: the region is fully patched
    assert_eq!(c.relocate(&vec![]), Ok(()));
    assert_ne!(&c.region.bytes[0..4], &[0x00; 4]);
    assert!(matches!(c.emit(&vec![]), Err(Error::MissingEntryPoint)));
}

#[test]
fn relocation_is_idempotent() {
    let mut compiler = Compiler::new();
    compiler
        .define_function(Ok(unit(
            vec![0x77; 24],
            vec![
                Relocation { offset: 2, func_index: 1, addend: 0 },
                Relocation { offset: 12, func_index: 0, addend: 1 },
            ],
        )))
        .unwrap();
    compiler.define_function(Ok(unit(vec![0x66; 8], vec![]))).unwrap();
    let mut c = compiler
        .compile(module_no_imports(2, Some(0)), vec![], Some(Region::new(0x7000, 32)))
        .unwrap();
    assert_eq!(c.relocate(&vec![]), Ok(()));
    let once = c.region.bytes.clone();
    assert_eq!(c.relocate(&vec![]), Ok(()));
    assert_eq!(c.region.bytes, once);
}

#[test]
fn end_to_end_import_and_start() {
    // module with 1 import ("abi", "log") of signature (u64) -> (), one
    // local function F of 16 bytes with a call to the import at body
    // offset 4, addend 0, and start index = F's flat index
    let module = Module {
        imported_funcs: vec![("abi".to_owned(), "log".to_owned())],
        signatures: vec![sig(vec![WasmType::I64], vec![]), empty_sig()],
        start_func: Some(1),
    };
    let mut compiler = Compiler::new();
    compiler
        .define_function(Ok(unit(
            vec![0xAB; 16],
            vec![Relocation { offset: 4, func_index: 0, addend: 0 }],
        )))
        .unwrap();
    let base: u64 = 0x77_0000;
    let c = compiler
        .compile(module, vec![], Some(Region::new(base, 16)))
        .unwrap();
    // the import occupies flat index 0, so F's flat index is 1
    assert_eq!(c.first_local_function, 1);
    assert_eq!(
        c.functions[0],
        FunctionType::External { module: "abi".to_owned(), name: "log".to_owned() }
    );
    assert_eq!(c.functions[1], FunctionType::Local { offset: 0, size: 16 });
    let host_addr: u64 = 0x1234_5678_9abc_def0;
    let abi = vec![host_log_entry(host_addr, vec![WasmType::I64])];
    let code = c.emit(&abi).unwrap();
    // the patched field carries the host address truncated to 32 bits
    assert_eq!(&code.region.bytes[4..8], &[0xf0, 0xde, 0xbc, 0x9a]);
    // the entry point is F's emitted start
    assert_eq!(code.start_addr, base);
}

#[test]
fn zero_size_build_yields_valid_empty_artifact() {
    // chosen policy: a zero-byte total with a zero-length region is
    // accepted, and the artifact construction succeeds with nothing to
    // emit or patch
    let compiler = Compiler::new();
    assert_eq!(compiler.total_size, 0);
    let region = Region::new(0x3000, 0);
    let mut c = compiler
        .compile(module_no_imports(0, None), vec![], Some(region))
        .unwrap();
    assert_eq!(c.functions.len(), 0);
    assert_eq!(c.first_local_function, 0);
    assert_eq!(c.region.bytes.len(), 0);
    assert_eq!(c.relocate(&vec![]), Ok(()));
    // with no function there is no entry point to resolve
    assert!(matches!(c.emit(&vec![]), Err(Error::MissingEntryPoint)));
}

#[test]
fn backend_failure_aborts_the_build() {
    let mut compiler = Compiler::new();
    compiler.define_function(Ok(unit(vec![0x01, 0x02], vec![]))).unwrap();
    let r = compiler.define_function(Err("register allocation failed".to_owned()));
    assert_eq!(r, Err(Error::BackendError(1)));
    // the failed unit was not retained
    assert_eq!(compiler.contexts.len(), 1);
    assert_eq!(compiler.total_size, 2);
}

#[test]
fn allocation_failure_is_out_of_memory() {
    let mut compiler = Compiler::new();
    compiler.define_function(Ok(unit(vec![0x00; 4], vec![]))).unwrap();
    let r = compiler.compile(module_no_imports(1, Some(0)), vec![], None);
    assert_eq!(r.unwrap_err(), Error::OutOfMemory);
}

#[test]
fn unknown_host_module_is_unresolved() {
    let module = Module {
        imported_funcs: vec![("env".to_owned(), "log".to_owned())],
        signatures: vec![empty_sig(), empty_sig()],
        start_func: Some(1),
    };
    let mut compiler = Compiler::new();
    compiler
        .define_function(Ok(unit(
            vec![0x00; 8],
            vec![Relocation { offset: 0, func_index: 0, addend: 0 }],
        )))
        .unwrap();
    let mut c = compiler
        .compile(module, vec![], Some(Region::new(0x4000, 8)))
        .unwrap();
    let abi = vec![host_log_entry(0x9999, vec![])];
    assert_eq!(c.relocate(&abi), Err(Error::UnresolvedImport(0)));
}

#[test]
fn absent_host_name_is_unresolved() {
    let module = Module {
        imported_funcs: vec![("abi".to_owned(), "write".to_owned())],
        signatures: vec![empty_sig(), empty_sig()],
        start_func: Some(1),
    };
    let mut compiler = Compiler::new();
    compiler
        .define_function(Ok(unit(
            vec![0x00; 8],
            vec![Relocation { offset: 0, func_index: 0, addend: 0 }],
        )))
        .unwrap();
    let mut c = compiler
        .compile(module, vec![], Some(Region::new(0x4000, 8)))
        .unwrap();
    let abi = vec![host_log_entry(0x9999, vec![])];
    assert_eq!(c.relocate(&abi), Err(Error::UnresolvedImport(0)));
}

#[test]
fn call_between_siblings_is_relative() {
    // two functions: the first (8 bytes) calls the second (at offset 8)
    let mut compiler = Compiler::new();
    compiler
        .define_function(Ok(unit(
            vec![0x00; 8],
            vec![Relocation { offset: 2, func_index: 1, addend: 0 }],
        )))
        .unwrap();
    compiler.define_function(Ok(unit(vec![0x00; 4], vec![]))).unwrap();
    let base: u64 = 0x5000;
    let mut c = compiler
        .compile(module_no_imports(2, Some(0)), vec![], Some(Region::new(base, 12)))
        .unwrap();
    c.relocate(&vec![]).unwrap();
    // value = (base + 8) - (base + 2) + 0 - 4 = 2
    assert_eq!(&c.region.bytes[2..6], &[0x02, 0x00, 0x00, 0x00]);
}
