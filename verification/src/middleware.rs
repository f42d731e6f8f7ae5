//! The middleware chain builder and the compiler selector.
//!
//! From a flat configuration record the builder assembles the ordered list
//! of bytecode instrumentation passes. The order is fixed and significant:
//! the metering pass comes first, so cost accounting sees the unmodified
//! instruction stream; the breakpoint handler next; the opcode tracer
//! last, so it observes the effects of the prior passes. The generator is
//! a repeatable constructor, because the backend may need one fresh chain
//! per internal compilation unit.
use vstd::prelude::*;

verus! {

/// Flat, immutable-once-built compilation configuration. Field order and
/// widths are part of the boundary contract.
#[derive(Clone, Copy, PartialEq, Eq, Structural, Debug)]
pub struct CompilationOptions {
    /// initial execution-cost budget of an instance compiled with metering
    pub gas_limit: u64,
    /// number of local slots exempt from cost accounting
    pub unmetered_locals: usize,
    /// instrument every opcode with a trace record
    pub opcode_trace: bool,
    /// instrument the instruction stream with cost accounting
    pub metering: bool,
    /// instrument the instruction stream with breakpoint handling
    pub runtime_breakpoints: bool,
}

/// One bytecode instrumentation pass.
#[derive(Clone, Copy, PartialEq, Eq, Structural, Debug)]
pub enum MiddlewarePass {
    /// Execution-cost metering; local slots below the threshold are not
    /// charged.
    Metering { unmetered_locals: usize },
    /// Pausing and resuming the virtual machine at runtime breakpoints.
    RuntimeBreakpoints,
    /// Per-opcode instruction tracing.
    OpcodeTracing,
}

/// An ordered chain of instrumentation passes, applied to the bytecode
/// before compilation.
pub struct MiddlewareChain {
    pub passes: Vec<MiddlewarePass>,
}

/// The chain a configuration calls for: metering first, then breakpoint
/// handling, then tracing, each present exactly when its flag is set.
pub open spec fn spec_chain(options: CompilationOptions) -> Seq<MiddlewarePass> {
    (if options.metering {
        seq![MiddlewarePass::Metering { unmetered_locals: options.unmetered_locals }]
    } else {
        Seq::empty()
    }) + (if options.runtime_breakpoints {
        seq![MiddlewarePass::RuntimeBreakpoints]
    } else {
        Seq::empty()
    }) + (if options.opcode_trace {
        seq![MiddlewarePass::OpcodeTracing]
    } else {
        Seq::empty()
    })
}

/// A repeatable chain constructor. It captures the configuration once;
/// every call builds a fresh chain, so no chain state can leak from one
/// compilation run into another.
#[derive(Clone, Copy, PartialEq, Eq, Structural, Debug)]
pub struct MiddlewareChainGenerator {
    pub options: CompilationOptions,
}

impl MiddlewareChainGenerator {
    /// Builds a fresh chain for one compilation unit.
    pub fn generate(&self) -> (c: MiddlewareChain)
        ensures
            c.passes@ == spec_chain(self.options),
    {
        let mut passes: Vec<MiddlewarePass> = Vec::new();
        if self.options.metering {
            passes.push(
                MiddlewarePass::Metering { unmetered_locals: self.options.unmetered_locals },
            );
        }
        if self.options.runtime_breakpoints {
            passes.push(MiddlewarePass::RuntimeBreakpoints);
        }
        if self.options.opcode_trace {
            passes.push(MiddlewarePass::OpcodeTracing);
        }
        proof {
            assert(passes@ =~= spec_chain(self.options));
        }
        MiddlewareChain { passes }
    }
}

/// From a flat configuration, the repeatable chain constructor the
/// compiler re-instruments every compilation run with.
pub fn prepare_middleware_chain_generator(options: &CompilationOptions) -> (g:
    MiddlewareChainGenerator)
    ensures
        g.options == *options,
{
    MiddlewareChainGenerator { options: *options }
}

/// The backend implementations a build can compile in.
#[derive(Clone, Copy, PartialEq, Eq, Structural, Debug)]
pub enum Backend {
    Singlepass,
    Cranelift,
    Llvm,
}

/// A compiler: one statically chosen backend together with the chain
/// generator that instruments each of its compilation runs.
#[derive(Clone, Copy, PartialEq, Eq, Structural, Debug)]
pub struct Compiler {
    pub backend: Backend,
    pub chain_generator: MiddlewareChainGenerator,
}

/// Chooses the compiled-in backend — a static, build-time selection, the
/// single-pass code generator here — and parameterizes it with the given
/// chain generator.
pub fn get_compiler(chain_generator: MiddlewareChainGenerator) -> (c: Compiler)
    ensures
        c.backend == Backend::Singlepass,
        c.chain_generator == chain_generator,
{
    Compiler { backend: Backend::Singlepass, chain_generator }
}

/// The documented composition invariant of the chain: one pass per enabled
/// flag; metering, when enabled, stands first; tracing, when enabled,
/// stands last; with no flag enabled the chain is an empty pass-through.
pub proof fn lemma_chain_composition(options: CompilationOptions)
    ensures
        spec_chain(options).len() == (if options.metering {
            1int
        } else {
            0int
        }) + (if options.runtime_breakpoints {
            1int
        } else {
            0int
        }) + (if options.opcode_trace {
            1int
        } else {
            0int
        }),
        options.metering ==> spec_chain(options)[0] == (MiddlewarePass::Metering {
            unmetered_locals: options.unmetered_locals,
        }),
        options.opcode_trace ==> spec_chain(options).last() == MiddlewarePass::OpcodeTracing,
        options.runtime_breakpoints ==> spec_chain(options)[(if options.metering {
            1int
        } else {
            0int
        })] == MiddlewarePass::RuntimeBreakpoints,
        !options.metering && !options.runtime_breakpoints && !options.opcode_trace
            ==> spec_chain(options) =~= Seq::<MiddlewarePass>::empty(),
{
}

} // verus!
