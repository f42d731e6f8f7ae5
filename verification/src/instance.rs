//! The instance lifecycle, the export catalog, and the invocation
//! dispatcher.
//!
//! An instance handle is an owned, non-copyable token opened by
//! instantiation and closed by an explicit destroy; a host-side store
//! tracks which handles are live. The engine — the external collaborator
//! that compiles bytes and runs bytecode — is consumed through narrow
//! interfaces: its verdict on an instantiation and the outcome of an
//! invocation enter as plain values, and every decision taken on them is
//! verified. A failing operation returns the error status, reports a
//! message through the error channel, and leaves every output parameter
//! untouched.
use crate::error::ErrorSlot;
use crate::error::spec_set;
use crate::imports::Binding;
use crate::imports::ExternKind;
use crate::imports::ImportEntry;
use crate::imports::binding_kind;
use crate::imports::build_import_object;
use crate::imports::imports_text_fault;
use crate::imports::spec_binding_kind;
use crate::imports::text_fault_message;
use crate::middleware::CompilationOptions;
use crate::text::append_bytes;
use crate::text::bytes_eq;
use crate::text::clone_bytes;
use crate::text::message_bytes;
use crate::value::NativeValue;
use crate::value::Value;
use crate::value::native_to_value;
use crate::value::spec_from_native;
use crate::value::spec_to_native;
use crate::value::value_to_native;
use vstd::prelude::*;
use vstd::string::StringSliceAdditionalSpecFns;
use vstd::utf8::valid_utf8;

verus! {

/// The two-valued result status crossing the boundary. The error status
/// always implies a fresh message in the error channel.
#[derive(Clone, Copy, PartialEq, Eq, Structural, Debug)]
pub enum wasmer_result_t {
    WASMER_OK,
    WASMER_ERROR,
}

/// One export as its source module declares it: a name and the binding
/// that shares the instance's live resource.
pub struct ExportEntry {
    pub name: Vec<u8>,
    pub binding: Binding,
}

/// What a successful compilation and instantiation by the engine hands
/// back: the declared exports, in declaration order, and the handles of
/// the instance's memories.
pub struct InstanceSeed {
    pub exports: Vec<ExportEntry>,
    pub memories: Vec<u64>,
}

/// The outcome of the engine running an exported function: the returned
/// values, or a trap (an invalid operation, or an exhausted cost budget)
/// with its message.
pub enum InvokeOutcome {
    Returned(Vec<NativeValue>),
    Trapped(Vec<u8>),
}

/// Per-instance context: an opaque host data word — the host alone is
/// responsible for what it designates — and the instance's memory
/// handles. Valid exactly as long as the owning instance is alive.
pub struct wasmer_instance_context_t {
    pub data: u64,
    pub memories: Vec<u64>,
}

/// The live state an instance handle designates.
pub struct InstanceState {
    pub exports: Vec<ExportEntry>,
    pub context: wasmer_instance_context_t,
    pub gas_budget: Option<u64>,
}

/// An owned instance handle. It is opened by instantiation, closed by
/// `wasmer_instance_destroy`, and deliberately neither copyable nor
/// cloneable: one handle, one instance.
pub struct wasmer_instance_t {
    id: usize,
}

impl wasmer_instance_t {
    /// The slot this handle designates in the host's instance store.
    pub closed spec fn spec_id(&self) -> int {
        self.id as int
    }

    /// Reads the slot number of this handle.
    pub fn id(&self) -> (r: usize)
        ensures
            r as int == self.spec_id(),
    {
        self.id
    }
}

/// The host-side store of instances: which handles are live, and the
/// state each live handle designates.
pub struct InstanceStore {
    slots: Vec<Option<InstanceState>>,
}

/// A store after destroying a handle: the designated slot is vacated;
/// a handle outside the store leaves it unchanged.
pub open spec fn spec_destroy(slots: Seq<Option<InstanceState>>, id: int) -> Seq<
    Option<InstanceState>,
> {
    if 0 <= id < slots.len() {
        slots.update(id, None)
    } else {
        slots
    }
}

/// An instance's source module exports `name`.
pub open spec fn has_export(exports: Seq<ExportEntry>, name: Seq<u8>) -> bool {
    exists|j: int| 0 <= j < exports.len() && exports[j].name@ == name
}

impl InstanceStore {
    /// The store's slots: one per handle ever opened, vacated on destroy.
    pub closed spec fn slots_view(&self) -> Seq<Option<InstanceState>> {
        self.slots@
    }

    /// The handle `id` designates a live instance.
    pub open spec fn live(&self, id: int) -> bool {
        0 <= id < self.slots_view().len() && self.slots_view()[id] is Some
    }

    /// The state of the live instance `id` designates.
    pub open spec fn state_of(&self, id: int) -> InstanceState
        recommends
            self.live(id),
    {
        self.slots_view()[id]->Some_0
    }

    /// An empty store: no handle was ever opened.
    pub fn new() -> (r: InstanceStore)
        ensures
            r.slots_view() == Seq::<Option<InstanceState>>::empty(),
    {
        let store = InstanceStore { slots: Vec::new() };
        proof {
            assert(store.slots_view() =~= Seq::<Option<InstanceState>>::empty());
        }
        store
    }

    /// The live state a handle designates, if any.
    fn state(&self, id: usize) -> (r: Option<&InstanceState>)
        ensures
            r is Some <==> self.live(id as int),
            r is Some ==> *r->Some_0 == self.state_of(id as int),
    {
        if id < self.slots.len() {
            self.slots[id].as_ref()
        } else {
            None
        }
    }
}

/// Whether a handle currently designates a live instance.
pub fn wasmer_instance_is_live(store: &InstanceStore, instance: &wasmer_instance_t) -> (r: bool)
    ensures
        r == store.live(instance.spec_id()),
{
    store.state(instance.id()).is_some()
}

/// The live instance's initial cost budget, if instantiation applied one.
pub fn wasmer_instance_gas_budget(store: &InstanceStore, instance: &wasmer_instance_t) -> (r:
    Option<u64>)
    requires
        store.live(instance.spec_id()),
    ensures
        r == store.state_of(instance.spec_id()).gas_budget,
{
    match store.state(instance.id()) {
        Some(state) => state.gas_budget,
        None => None,
    }
}

/// Opens a fresh handle over the state the engine handed back.
fn allocate(store: &mut InstanceStore, seed: InstanceSeed, gas_budget: Option<u64>) -> (h:
    wasmer_instance_t)
    ensures
        h.spec_id() == old(store).slots_view().len(),
        final(store).slots_view() == old(store).slots_view().push(
            Some(
                (InstanceState {
                    exports: seed.exports,
                    context: (wasmer_instance_context_t { data: 0, memories: seed.memories }),
                    gas_budget,
                }),
            ),
        ),
{
    let id = store.slots.len();
    store.slots.push(
        Some(
            InstanceState {
                exports: seed.exports,
                context: wasmer_instance_context_t { data: 0, memories: seed.memories },
                gas_budget,
            },
        ),
    );
    wasmer_instance_t { id }
}

/// Creates a new instance from the given bytes and host-supplied imports.
///
/// The boundary's own validation comes first: empty bytes, then the first
/// invalid import name, are caller errors reported through the error
/// channel with nothing else changed. Past validation, the imports are
/// grouped into the import object the engine resolves against, and the
/// engine's verdict — compiled and instantiated, or failed with a message
/// surfaced verbatim — decides the status. On success the new live handle
/// is stored into `out_instance`; on failure every output is left
/// untouched.
pub fn wasmer_instantiate(
    store: &mut InstanceStore,
    err: &mut ErrorSlot,
    out_instance: &mut Option<wasmer_instance_t>,
    wasm_bytes: &Vec<u8>,
    imports: &Vec<ImportEntry>,
    engine: Result<InstanceSeed, Vec<u8>>,
) -> (r: wasmer_result_t)
    ensures
        (r == wasmer_result_t::WASMER_OK) <==> (wasm_bytes@.len() > 0 && imports_text_fault(
            imports@,
        ) is None && engine is Ok),
        wasm_bytes@.len() == 0 ==> final(err)@ == spec_set(
            old(err)@,
            "wasm bytes ptr is null".spec_bytes(),
        ),
        wasm_bytes@.len() > 0 && imports_text_fault(imports@) is Some ==> final(err)@ == spec_set(
            old(err)@,
            text_fault_message(imports_text_fault(imports@)->Some_0),
        ),
        wasm_bytes@.len() > 0 && imports_text_fault(imports@) is None && engine is Err
            ==> final(err)@ == spec_set(old(err)@, engine->Err_0@),
        r == wasmer_result_t::WASMER_ERROR ==> final(store).slots_view() == old(
            store,
        ).slots_view() && *final(out_instance) == *old(out_instance),
        r == wasmer_result_t::WASMER_OK ==> final(err)@ == old(err)@ && final(store).slots_view()
            == old(store).slots_view().push(
            Some(
                (InstanceState {
                    exports: engine->Ok_0.exports,
                    context: (wasmer_instance_context_t {
                        data: 0,
                        memories: engine->Ok_0.memories,
                    }),
                    gas_budget: None,
                }),
            ),
        ) && *final(out_instance) is Some && final(out_instance)->Some_0.spec_id() == old(
            store,
        ).slots_view().len(),
{
    if wasm_bytes.len() == 0 {
        err.set(message_bytes("wasm bytes ptr is null"));
        return wasmer_result_t::WASMER_ERROR;
    }
    // Group the host's bindings by module name, validating each name once;
    // the engine resolves the module's declared imports against the same
    // registry, and its verdict arrives in `engine`.
    match build_import_object(imports, err) {
        Ok(_) => {},
        Err(()) => {
            return wasmer_result_t::WASMER_ERROR;
        },
    }
    match engine {
        Ok(seed) => {
            let handle = allocate(store, seed, None);
            *out_instance = Some(handle);
            wasmer_result_t::WASMER_OK
        },
        Err(message) => {
            err.set(message);
            wasmer_result_t::WASMER_ERROR
        },
    }
}

/// Creates a new instance from the given bytes and a compilation
/// configuration.
///
/// The compiler the engine runs is the statically selected backend,
/// re-instrumented through a fresh middleware chain built from `options`
/// (`prepare_middleware_chain_generator` and `get_compiler` say exactly
/// how); imports resolve against the host's standing registry. The
/// engine's verdict decides the status; its failure message is surfaced
/// verbatim. On success the configured `gas_limit` is applied as the new
/// instance's initial cost budget before the handle is handed back.
pub fn wasmer_instantiate_with_options(
    store: &mut InstanceStore,
    err: &mut ErrorSlot,
    out_instance: &mut Option<wasmer_instance_t>,
    wasm_bytes: &Vec<u8>,
    options: &CompilationOptions,
    engine: Result<InstanceSeed, Vec<u8>>,
) -> (r: wasmer_result_t)
    ensures
        (r == wasmer_result_t::WASMER_OK) <==> (wasm_bytes@.len() > 0 && engine is Ok),
        wasm_bytes@.len() == 0 ==> final(err)@ == spec_set(
            old(err)@,
            "wasm bytes ptr is null".spec_bytes(),
        ),
        wasm_bytes@.len() > 0 && engine is Err ==> final(err)@ == spec_set(
            old(err)@,
            engine->Err_0@,
        ),
        r == wasmer_result_t::WASMER_ERROR ==> final(store).slots_view() == old(
            store,
        ).slots_view() && *final(out_instance) == *old(out_instance),
        r == wasmer_result_t::WASMER_OK ==> final(err)@ == old(err)@ && final(store).slots_view()
            == old(store).slots_view().push(
            Some(
                (InstanceState {
                    exports: engine->Ok_0.exports,
                    context: (wasmer_instance_context_t {
                        data: 0,
                        memories: engine->Ok_0.memories,
                    }),
                    gas_budget: Some(options.gas_limit),
                }),
            ),
        ) && *final(out_instance) is Some && final(out_instance)->Some_0.spec_id() == old(
            store,
        ).slots_view().len(),
{
    if wasm_bytes.len() == 0 {
        err.set(message_bytes("wasm bytes ptr is null"));
        return wasmer_result_t::WASMER_ERROR;
    }
    match engine {
        Ok(seed) => {
            let handle = allocate(store, seed, Some(options.gas_limit));
            *out_instance = Some(handle);
            wasmer_result_t::WASMER_OK
        },
        Err(message) => {
            err.set(message);
            wasmer_result_t::WASMER_ERROR
        },
    }
}

/// Marshals the caller's argument values into the engine's native
/// representation, in order. This is the argument half of the dispatcher:
/// the host runs the engine on exactly these native values, and the
/// engine's outcome comes back to `wasmer_instance_call`.
pub fn marshal_params(params: &Vec<Value>) -> (r: Vec<NativeValue>)
    ensures
        r@.len() == params@.len(),
        forall|j: int| 0 <= j < r@.len() ==> r@[j] == spec_to_native(params@[j]),
{
    let count = params.len();
    let mut natives: Vec<NativeValue> = Vec::new();
    let mut j: usize = 0;
    while j < count
        invariant
            j <= count,
            count == params@.len(),
            natives@.len() == j,
            forall|l: int| 0 <= l < j ==> natives@[l] == spec_to_native(params@[l]),
        decreases count - j,
    {
        natives.push(value_to_native(&params[j]));
        j += 1;
    }
    natives
}

/// Looks an export up by name.
fn find_export(exports: &Vec<ExportEntry>, name: &Vec<u8>) -> (r: bool)
    ensures
        r == has_export(exports@, name@),
{
    let count = exports.len();
    let mut j: usize = 0;
    while j < count
        invariant
            j <= count,
            count == exports@.len(),
            forall|l: int| 0 <= l < j ==> exports@[l].name@ != name@,
        decreases count - j,
    {
        if bytes_eq(&exports[j].name, name) {
            proof {
                assert(exports@[j as int].name@ == name@);
            }
            return true;
        }
        j += 1;
    }
    false
}

/// Calls an exported function of an instance by name.
///
/// `params` are the call's argument values; the engine runs the export on
/// their native counterparts (`marshal_params` makes them), and `outcome`
/// is its verdict on exactly that run.
///
/// The handle must be live and the export present, else the call fails
/// with a reported message — a missing export names itself in the
/// diagnostic and never reaches the engine. On a found export the
/// engine's outcome decides: a trap (including an exhausted cost budget)
/// is reported with its message; returned values are marshalled back,
/// at most the first into `results[0]`; a zero-result call leaves
/// `results` untouched. A 128-bit vector result cannot be marshalled and
/// is a reported error, never an abort. On every failure `results` is
/// left untouched.
pub fn wasmer_instance_call(
    store: &InstanceStore,
    err: &mut ErrorSlot,
    instance: &wasmer_instance_t,
    name: &Vec<u8>,
    params: &Vec<Value>,
    results: &mut Vec<Value>,
    outcome: InvokeOutcome,
) -> (r: wasmer_result_t)
    requires
        valid_utf8(name@),
        name@.len() > 0,
    ensures
        (r == wasmer_result_t::WASMER_OK) <==> (store.live(instance.spec_id()) && has_export(
            store.state_of(instance.spec_id()).exports@,
            name@,
        ) && (match outcome {
            InvokeOutcome::Returned(vals) => vals@.len() == 0 || (spec_from_native(
                vals@[0],
            ) is Some && old(results)@.len() > 0),
            InvokeOutcome::Trapped(_) => false,
        })),
        !store.live(instance.spec_id()) ==> final(err)@ == spec_set(
            old(err)@,
            "instance ptr is null".spec_bytes(),
        ),
        store.live(instance.spec_id()) && !has_export(
            store.state_of(instance.spec_id()).exports@,
            name@,
        ) ==> final(err)@ == spec_set(old(err)@, "export not found: ".spec_bytes() + name@),
        store.live(instance.spec_id()) && has_export(
            store.state_of(instance.spec_id()).exports@,
            name@,
        ) ==> (match outcome {
            InvokeOutcome::Returned(vals) => {
                if vals@.len() == 0 {
                    final(err)@ == old(err)@
                } else if spec_from_native(vals@[0]) is None {
                    final(err)@ == spec_set(
                        old(err)@,
                        "cannot marshal a 128-bit vector result".spec_bytes(),
                    )
                } else if old(results)@.len() == 0 {
                    final(err)@ == spec_set(old(err)@, "results buffer is too small".spec_bytes())
                } else {
                    final(err)@ == old(err)@ && final(results)@ == old(results)@.update(
                        0,
                        spec_from_native(vals@[0])->Some_0,
                    )
                }
            },
            InvokeOutcome::Trapped(message) => final(err)@ == spec_set(old(err)@, message@),
        }),
        r == wasmer_result_t::WASMER_ERROR ==> final(results)@ == old(results)@,
        (match outcome {
            InvokeOutcome::Returned(vals) => vals@.len() == 0,
            InvokeOutcome::Trapped(_) => false,
        }) ==> final(results)@ == old(results)@,
{
    let state = match store.state(instance.id()) {
        Some(state) => state,
        None => {
            err.set(message_bytes("instance ptr is null"));
            return wasmer_result_t::WASMER_ERROR;
        },
    };
    if !find_export(&state.exports, name) {
        let mut message = message_bytes("export not found: ");
        append_bytes(&mut message, name);
        err.set(message);
        return wasmer_result_t::WASMER_ERROR;
    }
    match outcome {
        InvokeOutcome::Returned(vals) => {
            if vals.len() == 0 {
                return wasmer_result_t::WASMER_OK;
            }
            match native_to_value(&vals[0]) {
                Some(value) => {
                    if results.len() == 0 {
                        err.set(message_bytes("results buffer is too small"));
                        return wasmer_result_t::WASMER_ERROR;
                    }
                    let slot = &mut results[0];
                    *slot = value;
                    wasmer_result_t::WASMER_OK
                },
                None => {
                    err.set(message_bytes("cannot marshal a 128-bit vector result"));
                    wasmer_result_t::WASMER_ERROR
                },
            }
        },
        InvokeOutcome::Trapped(message) => {
            err.set(message);
            wasmer_result_t::WASMER_ERROR
        },
    }
}

/// One entry of an export snapshot: the export's name, its binding —
/// sharing the instance's live resource, never a copy of it — and the
/// non-owning handle number of the owning instance.
pub struct NamedExport {
    pub name: Vec<u8>,
    pub binding: Binding,
    pub instance: usize,
}

impl NamedExport {
    /// The kind of resource this export binds.
    pub fn kind(&self) -> (k: ExternKind)
        ensures
            k == spec_binding_kind(self.binding),
    {
        binding_kind(&self.binding)
    }
}

/// Snapshots the exports of a live instance, in the module's own export
/// declaration order. The snapshot is a separate owned collection; its
/// bindings keep sharing the instance's live resources, so the host must
/// not use it past destroying the instance. A dead handle yields nothing.
pub fn wasmer_instance_exports(store: &InstanceStore, instance: &wasmer_instance_t) -> (r: Option<
    Vec<NamedExport>,
>)
    ensures
        r is Some <==> store.live(instance.spec_id()),
        r is Some ==> {
            let snapshot = r->Some_0@;
            let declared = store.state_of(instance.spec_id()).exports@;
            &&& snapshot.len() == declared.len()
            &&& forall|j: int|
                0 <= j < snapshot.len() ==> (#[trigger] snapshot[j]).name@ == declared[j].name@
                    && snapshot[j].binding == declared[j].binding && snapshot[j].instance as int
                    == instance.spec_id()
        },
{
    let id = instance.id();
    let state = match store.state(id) {
        Some(state) => state,
        None => {
            return None;
        },
    };
    let count = state.exports.len();
    let mut snapshot: Vec<NamedExport> = Vec::new();
    let mut j: usize = 0;
    while j < count
        invariant
            j <= count,
            count == state.exports@.len(),
            id as int == instance.spec_id(),
            snapshot@.len() == j,
            forall|l: int|
                0 <= l < j ==> (#[trigger] snapshot@[l]).name@ == state.exports@[l].name@
                    && snapshot@[l].binding == state.exports@[l].binding && snapshot@[l].instance
                    as int == instance.spec_id(),
        decreases count - j,
    {
        let entry = &state.exports[j];
        snapshot.push(
            NamedExport {
                name: clone_bytes(&entry.name),
                binding: entry.binding,
                instance: id,
            },
        );
        j += 1;
    }
    Some(snapshot)
}

/// The instance context of a live instance: a read-only view, valid
/// strictly while the instance is alive. A dead handle yields nothing.
pub fn wasmer_instance_context_get<'a>(
    store: &'a InstanceStore,
    instance: &wasmer_instance_t,
) -> (r: Option<&'a wasmer_instance_context_t>)
    ensures
        r is Some <==> store.live(instance.spec_id()),
        r is Some ==> *r->Some_0 == store.state_of(instance.spec_id()).context,
{
    match store.state(instance.id()) {
        Some(state) => Some(&state.context),
        None => None,
    }
}

/// Stores the host's opaque data word into a live instance's context; a
/// dead handle changes nothing. No ownership of what the word designates
/// is taken: the host alone manages the pointee's lifetime.
pub fn wasmer_instance_context_data_set(
    store: &mut InstanceStore,
    instance: &wasmer_instance_t,
    data_ptr: u64,
)
    ensures
        !old(store).live(instance.spec_id()) ==> final(store).slots_view() == old(
            store,
        ).slots_view(),
        old(store).live(instance.spec_id()) ==> final(store).slots_view() == old(
            store,
        ).slots_view().update(
            instance.spec_id(),
            Some(
                (InstanceState {
                    exports: old(store).state_of(instance.spec_id()).exports,
                    context: (wasmer_instance_context_t {
                        data: data_ptr,
                        memories: old(store).state_of(instance.spec_id()).context.memories,
                    }),
                    gas_budget: old(store).state_of(instance.spec_id()).gas_budget,
                }),
            ),
        ),
{
    let id = instance.id();
    if id < store.slots.len() {
        let slot = &mut store.slots[id];
        match slot {
            Some(state) => {
                state.context.data = data_ptr;
            },
            None => {},
        }
        proof {
            if old(store).live(instance.spec_id()) {
                assert(store.slots@ =~= old(store).slots@.update(
                    instance.spec_id(),
                    store.slots@[id as int],
                ));
            } else {
                assert(store.slots@ =~= old(store).slots@);
            }
        }
    }
}

/// Reads the host's opaque data word back from an instance context.
pub fn wasmer_instance_context_data_get(ctx: &wasmer_instance_context_t) -> (r: u64)
    ensures
        r == ctx.data,
{
    ctx.data
}

/// The memory of the instance owning this context. The index is accepted
/// for interface stability, but only one memory is supported, so the
/// first memory is returned whatever the index — a documented limitation,
/// not a silent truncation. An instance without a memory yields nothing.
pub fn wasmer_instance_context_memory(ctx: &wasmer_instance_context_t, _memory_idx: u32) -> (r:
    Option<u64>)
    ensures
        r == (if ctx.memories@.len() > 0 {
            Some(ctx.memories@[0])
        } else {
            None::<u64>
        }),
{
    if ctx.memories.len() > 0 {
        Some(ctx.memories[0])
    } else {
        None
    }
}

/// Releases the instance a handle designates. Destroying a live handle
/// vacates its slot and reports success; a dead or never-opened handle is
/// ignored and the store is left unchanged.
pub fn wasmer_instance_destroy(store: &mut InstanceStore, instance: &wasmer_instance_t) -> (r:
    bool)
    ensures
        r == old(store).live(instance.spec_id()),
        final(store).slots_view() == spec_destroy(old(store).slots_view(), instance.spec_id()),
        !final(store).live(instance.spec_id()),
{
    let id = instance.id();
    if id < store.slots.len() {
        let live = store.slots[id].is_some();
        if live {
            let slot = &mut store.slots[id];
            *slot = None;
            proof {
                assert(store.slots@ =~= old(store).slots@.update(instance.spec_id(), None));
            }
            return true;
        }
        proof {
            assert(store.slots@ =~= old(store).slots@.update(
                instance.spec_id(),
                None::<InstanceState>,
            ));
        }
        return false;
    }
    false
}

/// Destroying is final and repetition-proof: a second destroy of the same
/// handle finds nothing to release and leaves the store exactly as the
/// first left it.
pub proof fn lemma_destroy_idempotent(slots: Seq<Option<InstanceState>>, id: int)
    ensures
        spec_destroy(spec_destroy(slots, id), id) == spec_destroy(slots, id),
{
    if 0 <= id < slots.len() {
        assert(spec_destroy(spec_destroy(slots, id), id) =~= spec_destroy(slots, id));
    }
}

} // verus!
