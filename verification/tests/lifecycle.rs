use vm_boundary::error::ErrorSlot;
use vm_boundary::imports::{Binding, ExternKind, ImportEntry};
use vm_boundary::instance::{
    wasmer_instance_call, wasmer_instance_context_data_get, wasmer_instance_context_data_set,
    wasmer_instance_context_get, wasmer_instance_context_memory, wasmer_instance_destroy,
    wasmer_instance_exports, wasmer_instance_gas_budget, wasmer_instance_is_live,
    wasmer_instance_t, wasmer_instantiate, wasmer_instantiate_with_options, wasmer_result_t,
    ExportEntry, InstanceSeed, InstanceStore, InvokeOutcome,
};
use vm_boundary::middleware::CompilationOptions;
use vm_boundary::value::{NativeValue, Value};

fn minimal_seed() -> InstanceSeed {
    InstanceSeed {
        exports: vec![ExportEntry { name: b"run".to_vec(), binding: Binding::Function(1) }],
        memories: vec![40],
    }
}

fn instantiate_minimal(
    store: &mut InstanceStore,
    err: &mut ErrorSlot,
) -> wasmer_instance_t {
    let mut out = None;
    let status = wasmer_instantiate(
        store,
        err,
        &mut out,
        &vec![0x00, 0x61, 0x73, 0x6d],
        &Vec::<ImportEntry>::new(),
        Ok(minimal_seed()),
    );
    assert_eq!(status, wasmer_result_t::WASMER_OK);
    out.expect("a successful instantiation hands back a handle")
}

#[test]
fn minimal_module_instantiates() {
    let mut store = InstanceStore::new();
    let mut err = ErrorSlot::new();
    let handle = instantiate_minimal(&mut store, &mut err);
    assert!(wasmer_instance_is_live(&store, &handle));
    assert!(!err.has_message());
}

#[test]
fn empty_bytes_are_rejected() {
    let mut store = InstanceStore::new();
    let mut err = ErrorSlot::new();
    let mut out = None;
    let status = wasmer_instantiate(
        &mut store,
        &mut err,
        &mut out,
        &Vec::new(),
        &Vec::<ImportEntry>::new(),
        Ok(minimal_seed()),
    );
    assert_eq!(status, wasmer_result_t::WASMER_ERROR);
    assert!(out.is_none());
    let mut buf = Vec::new();
    let n = err.last_error_message(&mut buf, 128);
    assert_eq!(&buf[..n], b"wasm bytes ptr is null");
}

#[test]
fn engine_failure_is_surfaced_verbatim() {
    let mut store = InstanceStore::new();
    let mut err = ErrorSlot::new();
    let mut out = None;
    let status = wasmer_instantiate(
        &mut store,
        &mut err,
        &mut out,
        &vec![1, 2, 3],
        &Vec::<ImportEntry>::new(),
        Err(b"link error: unresolved import env.log".to_vec()),
    );
    assert_eq!(status, wasmer_result_t::WASMER_ERROR);
    assert!(out.is_none());
    let mut buf = Vec::new();
    let n = err.last_error_message(&mut buf, 256);
    assert_eq!(&buf[..n], b"link error: unresolved import env.log".as_slice());
}

#[test]
fn missing_export_is_reported_and_results_untouched() {
    let mut store = InstanceStore::new();
    let mut err = ErrorSlot::new();
    let handle = instantiate_minimal(&mut store, &mut err);
    let sentinel = Value::I32(77);
    let mut results = vec![sentinel];
    let status = wasmer_instance_call(
        &store,
        &mut err,
        &handle,
        &b"no_such_export".to_vec(),
        &Vec::new(),
        &mut results,
        InvokeOutcome::Returned(vec![NativeValue::I32(1)]),
    );
    assert_eq!(status, wasmer_result_t::WASMER_ERROR);
    assert_eq!(results[0], sentinel);
    let mut buf = Vec::new();
    let n = err.last_error_message(&mut buf, 256);
    assert!(n > 0);
    let text = String::from_utf8(buf[..n].to_vec()).unwrap();
    assert!(text.contains("no_such_export"), "diagnostic was {:?}", text);
}

#[test]
fn successful_call_marshals_first_result() {
    let mut store = InstanceStore::new();
    let mut err = ErrorSlot::new();
    let handle = instantiate_minimal(&mut store, &mut err);
    let mut results = vec![Value::I32(0)];
    let status = wasmer_instance_call(
        &store,
        &mut err,
        &handle,
        &b"run".to_vec(),
        &vec![Value::I32(3), Value::I32(4)],
        &mut results,
        InvokeOutcome::Returned(vec![NativeValue::I32(7)]),
    );
    assert_eq!(status, wasmer_result_t::WASMER_OK);
    assert_eq!(results[0], Value::I32(7));
    assert!(!err.has_message());
}

#[test]
fn zero_result_call_leaves_results_untouched() {
    let mut store = InstanceStore::new();
    let mut err = ErrorSlot::new();
    let handle = instantiate_minimal(&mut store, &mut err);
    let sentinel = Value::I64(-5);
    let mut results = vec![sentinel];
    let status = wasmer_instance_call(
        &store,
        &mut err,
        &handle,
        &b"run".to_vec(),
        &Vec::new(),
        &mut results,
        InvokeOutcome::Returned(Vec::new()),
    );
    assert_eq!(status, wasmer_result_t::WASMER_OK);
    assert_eq!(results[0], sentinel);
}

#[test]
fn vector_result_is_reported_not_fatal() {
    let mut store = InstanceStore::new();
    let mut err = ErrorSlot::new();
    let handle = instantiate_minimal(&mut store, &mut err);
    let sentinel = Value::I32(11);
    let mut results = vec![sentinel];
    let status = wasmer_instance_call(
        &store,
        &mut err,
        &handle,
        &b"run".to_vec(),
        &Vec::new(),
        &mut results,
        InvokeOutcome::Returned(vec![NativeValue::V128(5)]),
    );
    assert_eq!(status, wasmer_result_t::WASMER_ERROR);
    assert_eq!(results[0], sentinel);
    let mut buf = Vec::new();
    let n = err.last_error_message(&mut buf, 128);
    assert_eq!(&buf[..n], b"cannot marshal a 128-bit vector result");
}

#[test]
fn too_small_results_buffer_is_reported() {
    let mut store = InstanceStore::new();
    let mut err = ErrorSlot::new();
    let handle = instantiate_minimal(&mut store, &mut err);
    let mut results = Vec::new();
    let status = wasmer_instance_call(
        &store,
        &mut err,
        &handle,
        &b"run".to_vec(),
        &Vec::new(),
        &mut results,
        InvokeOutcome::Returned(vec![NativeValue::I32(1)]),
    );
    assert_eq!(status, wasmer_result_t::WASMER_ERROR);
    assert!(results.is_empty());
}

#[test]
fn dead_handle_cannot_call() {
    let mut store = InstanceStore::new();
    let mut err = ErrorSlot::new();
    let handle = instantiate_minimal(&mut store, &mut err);
    assert!(wasmer_instance_destroy(&mut store, &handle));
    let mut results = vec![Value::I32(0)];
    let status = wasmer_instance_call(
        &store,
        &mut err,
        &handle,
        &b"run".to_vec(),
        &Vec::new(),
        &mut results,
        InvokeOutcome::Returned(Vec::new()),
    );
    assert_eq!(status, wasmer_result_t::WASMER_ERROR);
    let mut buf = Vec::new();
    let n = err.last_error_message(&mut buf, 128);
    assert_eq!(&buf[..n], b"instance ptr is null");
}

#[test]
fn exports_enumerate_in_declaration_order() {
    let mut store = InstanceStore::new();
    let mut err = ErrorSlot::new();
    let mut out = None;
    let seed = InstanceSeed {
        exports: vec![
            ExportEntry { name: b"beta".to_vec(), binding: Binding::Function(1) },
            ExportEntry { name: b"alpha".to_vec(), binding: Binding::Memory(2) },
            ExportEntry { name: b"gamma".to_vec(), binding: Binding::Global(3) },
        ],
        memories: Vec::new(),
    };
    let status = wasmer_instantiate(
        &mut store,
        &mut err,
        &mut out,
        &vec![1],
        &Vec::<ImportEntry>::new(),
        Ok(seed),
    );
    assert_eq!(status, wasmer_result_t::WASMER_OK);
    let handle = out.unwrap();
    let snapshot = wasmer_instance_exports(&store, &handle).unwrap();
    assert_eq!(snapshot.len(), 3);
    assert_eq!(snapshot[0].name, b"beta".to_vec());
    assert_eq!(snapshot[1].name, b"alpha".to_vec());
    assert_eq!(snapshot[2].name, b"gamma".to_vec());
    assert_eq!(snapshot[0].kind(), ExternKind::Function);
    assert_eq!(snapshot[1].kind(), ExternKind::Memory);
    assert_eq!(snapshot[1].binding, Binding::Memory(2));
    assert_eq!(snapshot[2].kind(), ExternKind::Global);
    assert_eq!(snapshot[0].instance, handle.id());
}

#[test]
fn destroy_is_ignored_the_second_time() {
    let mut store = InstanceStore::new();
    let mut err = ErrorSlot::new();
    let handle = instantiate_minimal(&mut store, &mut err);
    assert!(wasmer_instance_is_live(&store, &handle));
    assert!(wasmer_instance_destroy(&mut store, &handle));
    assert!(!wasmer_instance_is_live(&store, &handle));
    assert!(!wasmer_instance_destroy(&mut store, &handle));
    assert!(!wasmer_instance_is_live(&store, &handle));
}

#[test]
fn context_carries_host_data_and_memory() {
    let mut store = InstanceStore::new();
    let mut err = ErrorSlot::new();
    let handle = instantiate_minimal(&mut store, &mut err);
    let ctx = wasmer_instance_context_get(&store, &handle).unwrap();
    assert_eq!(wasmer_instance_context_data_get(ctx), 0);
    wasmer_instance_context_data_set(&mut store, &handle, 0xdead_beef);
    let ctx = wasmer_instance_context_get(&store, &handle).unwrap();
    assert_eq!(wasmer_instance_context_data_get(ctx), 0xdead_beef);
    // only the first memory is supported, whatever the index
    assert_eq!(wasmer_instance_context_memory(ctx, 0), Some(40));
    assert_eq!(wasmer_instance_context_memory(ctx, 3), Some(40));
}

#[test]
fn dead_handle_has_no_context_and_no_exports() {
    let mut store = InstanceStore::new();
    let mut err = ErrorSlot::new();
    let handle = instantiate_minimal(&mut store, &mut err);
    assert!(wasmer_instance_destroy(&mut store, &handle));
    assert!(wasmer_instance_context_get(&store, &handle).is_none());
    assert!(wasmer_instance_exports(&store, &handle).is_none());
}

#[test]
fn options_apply_gas_limit_as_initial_budget() {
    let mut store = InstanceStore::new();
    let mut err = ErrorSlot::new();
    let mut out = None;
    let options = CompilationOptions {
        gas_limit: 5000,
        unmetered_locals: 4,
        opcode_trace: false,
        metering: true,
        runtime_breakpoints: false,
    };
    let status = wasmer_instantiate_with_options(
        &mut store,
        &mut err,
        &mut out,
        &vec![9, 9],
        &options,
        Ok(minimal_seed()),
    );
    assert_eq!(status, wasmer_result_t::WASMER_OK);
    let handle = out.unwrap();
    assert_eq!(wasmer_instance_gas_budget(&store, &handle), Some(5000));
}

#[test]
fn exhausted_budget_is_an_error_and_generous_budget_succeeds() {
    let mut store = InstanceStore::new();
    let mut err = ErrorSlot::new();
    let mut out = None;
    let tight = CompilationOptions {
        gas_limit: 3,
        unmetered_locals: 0,
        opcode_trace: false,
        metering: true,
        runtime_breakpoints: false,
    };
    let status = wasmer_instantiate_with_options(
        &mut store,
        &mut err,
        &mut out,
        &vec![7],
        &tight,
        Ok(minimal_seed()),
    );
    assert_eq!(status, wasmer_result_t::WASMER_OK);
    let starving = out.take().unwrap();
    // with the budget below the function's cost the metered engine traps
    let mut results = vec![Value::I32(0)];
    let status = wasmer_instance_call(
        &store,
        &mut err,
        &starving,
        &b"run".to_vec(),
        &Vec::new(),
        &mut results,
        InvokeOutcome::Trapped(b"execution ran out of points".to_vec()),
    );
    assert_eq!(status, wasmer_result_t::WASMER_ERROR);
    assert_eq!(results[0], Value::I32(0));
    let mut buf = Vec::new();
    let n = err.last_error_message(&mut buf, 128);
    assert_eq!(&buf[..n], b"execution ran out of points");

    // the same call under a generous budget completes with its result
    let generous = CompilationOptions { gas_limit: 1_000_000, ..tight };
    let status = wasmer_instantiate_with_options(
        &mut store,
        &mut err,
        &mut out,
        &vec![7],
        &generous,
        Ok(minimal_seed()),
    );
    assert_eq!(status, wasmer_result_t::WASMER_OK);
    let funded = out.unwrap();
    let status = wasmer_instance_call(
        &store,
        &mut err,
        &funded,
        &b"run".to_vec(),
        &Vec::new(),
        &mut results,
        InvokeOutcome::Returned(vec![NativeValue::I32(42)]),
    );
    assert_eq!(status, wasmer_result_t::WASMER_OK);
    assert_eq!(results[0], Value::I32(42));
}
