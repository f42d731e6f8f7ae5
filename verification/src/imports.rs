//! The import namespace registry.
//!
//! Host-supplied bindings are grouped by declared module name into
//! namespaces; each namespace maps an import name to a binding, with later
//! registrations overwriting earlier ones. Names are byte arrays and must
//! be valid UTF-8; an invalid name is a caller error reported through the
//! error channel. The registry does not validate against what a module
//! actually declares — unresolved or extraneous imports surface later,
//! from the compilation and instantiation stage, verbatim.
use crate::error::ErrorSlot;
use crate::error::spec_set;
use crate::text::bytes_eq;
use crate::text::check_utf8;
use crate::text::clone_bytes;
use crate::text::message_bytes;
use vstd::prelude::*;
use vstd::string::StringSliceAdditionalSpecFns;
use vstd::utf8::valid_utf8;

verus! {

/// The kind of resource a binding stands for.
#[derive(Clone, Copy, PartialEq, Eq, Structural, Debug)]
pub enum ExternKind {
    Function,
    Memory,
    Global,
    Table,
}

/// A shared handle to a runtime resource, exchanged between host and
/// module. Copying a binding shares the resource; it never duplicates it.
#[derive(Clone, Copy, PartialEq, Eq, Structural, Debug)]
pub enum Binding {
    Function(u64),
    Memory(u64),
    Global(u64),
    Table(u64),
}

/// The kind of resource a binding is a handle to.
pub open spec fn spec_binding_kind(b: Binding) -> ExternKind {
    match b {
        Binding::Function(_) => ExternKind::Function,
        Binding::Memory(_) => ExternKind::Memory,
        Binding::Global(_) => ExternKind::Global,
        Binding::Table(_) => ExternKind::Table,
    }
}

/// Reads the kind tag of a binding.
pub fn binding_kind(b: &Binding) -> (k: ExternKind)
    ensures
        k == spec_binding_kind(*b),
{
    match *b {
        Binding::Function(_) => ExternKind::Function,
        Binding::Memory(_) => ExternKind::Memory,
        Binding::Global(_) => ExternKind::Global,
        Binding::Table(_) => ExternKind::Table,
    }
}

/// One host-supplied import: a declared module name, an import name, and
/// the binding to resolve them to.
pub struct ImportEntry {
    pub module_name: Vec<u8>,
    pub import_name: Vec<u8>,
    pub binding: Binding,
}

/// One import name → binding pair inside a namespace.
pub struct NamespaceEntry {
    pub name: Vec<u8>,
    pub binding: Binding,
}

/// All bindings registered under one declared module name.
pub struct Namespace {
    pub name: Vec<u8>,
    pub entries: Vec<NamespaceEntry>,
}

/// The finalized import object: the namespaces instantiation resolves a
/// module's declared imports against.
pub struct wasmer_import_object_t {
    pub namespaces: Vec<Namespace>,
}

/// The binding a namespace holds for `name`: that of the latest matching
/// entry.
pub open spec fn ns_get(entries: Seq<NamespaceEntry>, name: Seq<u8>) -> Option<Binding>
    decreases entries.len(),
{
    if entries.len() == 0 {
        None
    } else if entries.last().name@ == name {
        Some(entries.last().binding)
    } else {
        ns_get(entries.drop_last(), name)
    }
}

/// The binding an import object resolves `module`/`name` to.
pub open spec fn object_get(nss: Seq<Namespace>, module: Seq<u8>, name: Seq<u8>) -> Option<
    Binding,
>
    decreases nss.len(),
{
    if nss.len() == 0 {
        None
    } else if nss.last().name@ == module {
        ns_get(nss.last().entries@, name)
    } else {
        object_get(nss.drop_last(), module, name)
    }
}

/// No two entries of a namespace carry the same import name.
pub open spec fn unique_entry_names(entries: Seq<NamespaceEntry>) -> bool {
    forall|j: int, k: int|
        0 <= j < k < entries.len() ==> entries[j].name@ != entries[k].name@
}

/// Well-formedness of an import object: module names are distinct and
/// valid text, and each namespace maps each import name, itself valid
/// text, at most once.
pub open spec fn object_wf(nss: Seq<Namespace>) -> bool {
    &&& forall|j: int, k: int| 0 <= j < k < nss.len() ==> nss[j].name@ != nss[k].name@
    &&& forall|j: int| 0 <= j < nss.len() ==> valid_utf8(#[trigger] nss[j].name@)
    &&& forall|j: int| 0 <= j < nss.len() ==> unique_entry_names(#[trigger] nss[j].entries@)
    &&& forall|j: int, k: int|
        0 <= j < nss.len() && 0 <= k < nss[j].entries@.len() ==> valid_utf8(
            #[trigger] nss[j].entries@[k].name@,
        )
}

/// What the registry resolves `module`/`name` to after registering a flat
/// list of imports in order: the binding of the latest matching entry.
pub open spec fn spec_resolve(
    imports: Seq<ImportEntry>,
    module: Seq<u8>,
    name: Seq<u8>,
) -> Option<Binding>
    decreases imports.len(),
{
    if imports.len() == 0 {
        None
    } else if imports.last().module_name@ == module && imports.last().import_name@ == name {
        Some(imports.last().binding)
    } else {
        spec_resolve(imports.drop_last(), module, name)
    }
}

/// Which of an import's two names is rejected first, if either.
#[derive(Clone, Copy, PartialEq, Eq, Structural, Debug)]
pub enum TextFault {
    ModuleName,
    ImportName,
}

/// The first invalid name in a list of imports, scanned in registration
/// order, module name before import name.
pub open spec fn imports_text_fault(imports: Seq<ImportEntry>) -> Option<TextFault>
    decreases imports.len(),
{
    if imports.len() == 0 {
        None
    } else if !valid_utf8(imports[0].module_name@) {
        Some(TextFault::ModuleName)
    } else if !valid_utf8(imports[0].import_name@) {
        Some(TextFault::ImportName)
    } else {
        imports_text_fault(imports.drop_first())
    }
}

/// The error message a text fault is reported with.
pub open spec fn text_fault_message(fault: TextFault) -> Seq<u8> {
    match fault {
        TextFault::ModuleName => "error converting module name to string".spec_bytes(),
        TextFault::ImportName => "error converting import_name to string".spec_bytes(),
    }
}

proof fn lemma_ns_get_push(es: Seq<NamespaceEntry>, e: NamespaceEntry, n: Seq<u8>)
    ensures
        ns_get(es.push(e), n) == (if e.name@ == n {
            Some(e.binding)
        } else {
            ns_get(es, n)
        }),
{
    assert(es.push(e).last() == e);
    assert(es.push(e).drop_last() =~= es);
}

proof fn lemma_ns_get_update(es: Seq<NamespaceEntry>, j: int, e: NamespaceEntry, n: Seq<u8>)
    requires
        0 <= j < es.len(),
        unique_entry_names(es),
        es[j].name@ == e.name@,
    ensures
        ns_get(es.update(j, e), n) == (if e.name@ == n {
            Some(e.binding)
        } else {
            ns_get(es, n)
        }),
    decreases es.len(),
{
    let up = es.update(j, e);
    if j == es.len() - 1 {
        assert(up.last() == e);
        assert(up.drop_last() =~= es.drop_last());
        assert(es.last().name@ == e.name@);
    } else {
        assert(up.last() == es.last());
        assert(up.drop_last() =~= es.drop_last().update(j, e));
        assert(es.last().name@ != e.name@);
        assert(unique_entry_names(es.drop_last())) by {
            assert(forall|a: int, b: int|
                0 <= a < b < es.drop_last().len() ==> es.drop_last()[a].name@
                    != es.drop_last()[b].name@);
        }
        assert(es.drop_last()[j] == es[j]);
        lemma_ns_get_update(es.drop_last(), j, e, n);
    }
}

proof fn lemma_object_get_at(nss: Seq<Namespace>, j: int, n: Seq<u8>)
    requires
        0 <= j < nss.len(),
        forall|a: int, b: int| 0 <= a < b < nss.len() ==> nss[a].name@ != nss[b].name@,
    ensures
        object_get(nss, nss[j].name@, n) == ns_get(nss[j].entries@, n),
    decreases nss.len(),
{
    if j == nss.len() - 1 {
    } else {
        assert(nss.last().name@ != nss[j].name@);
        assert(nss.drop_last()[j] == nss[j]);
        assert(forall|a: int, b: int|
            0 <= a < b < nss.drop_last().len() ==> nss.drop_last()[a].name@
                != nss.drop_last()[b].name@);
        lemma_object_get_at(nss.drop_last(), j, n);
    }
}

proof fn lemma_object_get_absent(nss: Seq<Namespace>, m: Seq<u8>, n: Seq<u8>)
    requires
        forall|j: int| 0 <= j < nss.len() ==> nss[j].name@ != m,
    ensures
        object_get(nss, m, n) == None::<Binding>,
    decreases nss.len(),
{
    if nss.len() == 0 {
    } else {
        assert(nss.last().name@ != m);
        assert(forall|j: int| 0 <= j < nss.drop_last().len() ==> nss.drop_last()[j].name@ != m);
        lemma_object_get_absent(nss.drop_last(), m, n);
    }
}

proof fn lemma_object_get_push(nss: Seq<Namespace>, ns: Namespace, m: Seq<u8>, n: Seq<u8>)
    ensures
        object_get(nss.push(ns), m, n) == (if ns.name@ == m {
            ns_get(ns.entries@, n)
        } else {
            object_get(nss, m, n)
        }),
{
    assert(nss.push(ns).last() == ns);
    assert(nss.push(ns).drop_last() =~= nss);
}

proof fn lemma_object_get_update(nss: Seq<Namespace>, j: int, ns: Namespace, m: Seq<u8>, n: Seq<u8>)
    requires
        0 <= j < nss.len(),
        forall|a: int, b: int| 0 <= a < b < nss.len() ==> nss[a].name@ != nss[b].name@,
        nss[j].name@ == ns.name@,
    ensures
        object_get(nss.update(j, ns), m, n) == (if ns.name@ == m {
            ns_get(ns.entries@, n)
        } else {
            object_get(nss, m, n)
        }),
    decreases nss.len(),
{
    let up = nss.update(j, ns);
    if j == nss.len() - 1 {
        assert(up.last() == ns);
        assert(up.drop_last() =~= nss.drop_last());
        assert(nss.last().name@ == ns.name@);
    } else {
        assert(up.last() == nss.last());
        assert(up.drop_last() =~= nss.drop_last().update(j, ns));
        assert(nss.last().name@ != ns.name@);
        assert(forall|a: int, b: int|
            0 <= a < b < nss.drop_last().len() ==> nss.drop_last()[a].name@
                != nss.drop_last()[b].name@);
        assert(nss.drop_last()[j] == nss[j]);
        lemma_object_get_update(nss.drop_last(), j, ns, m, n);
    }
}

/// Registers one binding inside a namespace: the latest registration of a
/// name wins, and every other name keeps its binding.
fn namespace_insert(ns: &mut Namespace, name: Vec<u8>, binding: Binding)
    requires
        unique_entry_names(old(ns).entries@),
        valid_utf8(name@),
    ensures
        final(ns).name@ == old(ns).name@,
        unique_entry_names(final(ns).entries@),
        forall|n: Seq<u8>|
            #[trigger] ns_get(final(ns).entries@, n) == (if n == name@ {
                Some(binding)
            } else {
                ns_get(old(ns).entries@, n)
            }),
        (forall|k: int|
            0 <= k < old(ns).entries@.len() ==> valid_utf8(#[trigger] old(ns).entries@[k].name@))
            ==> (forall|k: int|
            0 <= k < final(ns).entries@.len() ==> valid_utf8(
                #[trigger] final(ns).entries@[k].name@,
            )),
{
    let count = ns.entries.len();
    let mut j: usize = 0;
    while j < count
        invariant
            j <= count,
            count == ns.entries@.len(),
            ns.name@ == old(ns).name@,
            ns.entries@ == old(ns).entries@,
            unique_entry_names(ns.entries@),
            valid_utf8(name@),
            forall|l: int| 0 <= l < j ==> ns.entries@[l].name@ != name@,
        decreases count - j,
    {
        if bytes_eq(&ns.entries[j].name, &name) {
            let entry = NamespaceEntry { name, binding };
            let ghost old_entries = ns.entries@;
            let slot = &mut ns.entries[j];
            *slot = entry;
            proof {
                assert(ns.entries@ =~= old_entries.update(j as int, entry));
                assert forall|n: Seq<u8>|
                    #[trigger] ns_get(ns.entries@, n) == (if n == name@ {
                        Some(binding)
                    } else {
                        ns_get(old_entries, n)
                    }) by {
                    lemma_ns_get_update(old_entries, j as int, entry, n);
                }
                assert(unique_entry_names(ns.entries@));
            }
            return ;
        }
        j += 1;
    }
    let entry = NamespaceEntry { name, binding };
    let ghost old_entries = ns.entries@;
    ns.entries.push(entry);
    proof {
        assert forall|n: Seq<u8>|
            #[trigger] ns_get(ns.entries@, n) == (if n == name@ {
                Some(binding)
            } else {
                ns_get(old_entries, n)
            }) by {
            lemma_ns_get_push(old_entries, entry, n);
        }
        assert(unique_entry_names(ns.entries@));
    }
}

/// Registers one binding in the import object, grouping it into the
/// namespace of its declared module name; the latest registration of a
/// module/name pair wins and every other pair keeps its binding.
fn object_insert(obj: &mut wasmer_import_object_t, module: Vec<u8>, name: Vec<u8>, binding: Binding)
    requires
        object_wf(old(obj).namespaces@),
        valid_utf8(module@),
        valid_utf8(name@),
    ensures
        object_wf(final(obj).namespaces@),
        forall|m: Seq<u8>, n: Seq<u8>|
            #[trigger] object_get(final(obj).namespaces@, m, n) == (if m == module@ && n == name@ {
                Some(binding)
            } else {
                object_get(old(obj).namespaces@, m, n)
            }),
{
    let count = obj.namespaces.len();
    let mut j: usize = 0;
    while j < count
        invariant
            j <= count,
            count == obj.namespaces@.len(),
            obj.namespaces@ == old(obj).namespaces@,
            object_wf(obj.namespaces@),
            valid_utf8(module@),
            valid_utf8(name@),
            forall|l: int| 0 <= l < j ==> obj.namespaces@[l].name@ != module@,
        decreases count - j,
    {
        if bytes_eq(&obj.namespaces[j].name, &module) {
            let ghost old_nss = obj.namespaces@;
            let slot = &mut obj.namespaces[j];
            namespace_insert(slot, name, binding);
            proof {
                assert(obj.namespaces@ =~= old_nss.update(j as int, obj.namespaces@[j as int]));
                let ns_new = obj.namespaces@[j as int];
                assert forall|m: Seq<u8>, n: Seq<u8>|
                    #[trigger] object_get(obj.namespaces@, m, n) == (if m == module@ && n == name@ {
                        Some(binding)
                    } else {
                        object_get(old_nss, m, n)
                    }) by {
                    lemma_object_get_update(old_nss, j as int, ns_new, m, n);
                    if m == module@ {
                        lemma_object_get_at(old_nss, j as int, n);
                    }
                }
                assert(object_wf(obj.namespaces@));
            }
            return ;
        }
        j += 1;
    }
    let mut entries: Vec<NamespaceEntry> = Vec::new();
    entries.push(NamespaceEntry { name, binding });
    let ns = Namespace { name: module, entries };
    let ghost old_nss = obj.namespaces@;
    obj.namespaces.push(ns);
    proof {
        let ns_g = obj.namespaces@.last();
        assert(obj.namespaces@ == old_nss.push(ns_g));
        assert(ns_g.name@ == module@);
        assert(ns_g.entries@.len() == 1);
        assert(ns_g.entries@.last().name@ == name@);
        assert(ns_g.entries@.last().binding == binding);
        assert forall|m: Seq<u8>, n: Seq<u8>|
            #[trigger] object_get(obj.namespaces@, m, n) == (if m == module@ && n == name@ {
                Some(binding)
            } else {
                object_get(old_nss, m, n)
            }) by {
            lemma_object_get_push(old_nss, ns_g, m, n);
            if m == module@ {
                lemma_object_get_absent(old_nss, m, n);
                if n == name@ {
                    assert(ns_get(ns_g.entries@, n) == Some(binding));
                } else {
                    assert(ns_g.entries@.drop_last().len() == 0);
                    assert(ns_get(ns_g.entries@.drop_last(), n) == None::<Binding>);
                    assert(ns_get(ns_g.entries@, n) == None::<Binding>);
                }
            }
        }
        assert(object_wf(obj.namespaces@));
    }
}

/// Builds the finalized import object from a flat list of host-supplied
/// imports, grouping bindings by module name with last-write-wins on
/// duplicate names. The first invalid (non-UTF-8) module or import name is
/// a caller error: it is reported through the error channel and nothing is
/// returned.
pub fn build_import_object(imports: &Vec<ImportEntry>, err: &mut ErrorSlot) -> (r: Result<
    wasmer_import_object_t,
    (),
>)
    ensures
        r is Ok <==> imports_text_fault(imports@) is None,
        r is Ok ==> final(err)@ == old(err)@,
        r is Ok ==> object_wf(r->Ok_0.namespaces@),
        r is Ok ==> forall|m: Seq<u8>, n: Seq<u8>|
            #[trigger] object_get(r->Ok_0.namespaces@, m, n) == spec_resolve(imports@, m, n),
        r is Err ==> final(err)@ == spec_set(
            old(err)@,
            text_fault_message(imports_text_fault(imports@)->Some_0),
        ),
{
    let mut obj = wasmer_import_object_t { namespaces: Vec::new() };
    let count = imports.len();
    let mut k: usize = 0;
    proof {
        assert(imports@.skip(0) =~= imports@);
        assert(imports@.take(0) =~= Seq::<ImportEntry>::empty());
    }
    while k < count
        invariant
            k <= count,
            count == imports@.len(),
            object_wf(obj.namespaces@),
            *err == *old(err),
            imports_text_fault(imports@) == imports_text_fault(imports@.skip(k as int)),
            forall|m: Seq<u8>, n: Seq<u8>|
                #[trigger] object_get(obj.namespaces@, m, n) == spec_resolve(
                    imports@.take(k as int),
                    m,
                    n,
                ),
        decreases count - k,
    {
        let ghost suffix = imports@.skip(k as int);
        proof {
            assert(suffix[0] == imports@[k as int]);
        }
        let entry = &imports[k];
        if !check_utf8(&entry.module_name) {
            err.set(message_bytes("error converting module name to string"));
            proof {
                assert(imports_text_fault(suffix) == Some(TextFault::ModuleName));
            }
            return Err(());
        }
        if !check_utf8(&entry.import_name) {
            err.set(message_bytes("error converting import_name to string"));
            proof {
                assert(imports_text_fault(suffix) == Some(TextFault::ImportName));
            }
            return Err(());
        }
        let module = clone_bytes(&entry.module_name);
        let name = clone_bytes(&entry.import_name);
        let ghost before = obj.namespaces@;
        object_insert(&mut obj, module, name, entry.binding);
        proof {
            assert(suffix.drop_first() =~= imports@.skip(k as int + 1));
            let taken = imports@.take(k as int + 1);
            assert(taken.last() == imports@[k as int]);
            assert(taken.drop_last() =~= imports@.take(k as int));
            assert forall|m: Seq<u8>, n: Seq<u8>|
                #[trigger] object_get(obj.namespaces@, m, n) == spec_resolve(taken, m, n) by {
                assert(object_get(obj.namespaces@, m, n) == (if m
                    == imports@[k as int].module_name@ && n == imports@[k as int].import_name@ {
                    Some(imports@[k as int].binding)
                } else {
                    object_get(before, m, n)
                }));
            }
        }
        k += 1;
    }
    proof {
        assert(imports@.skip(count as int).len() == 0);
        assert(imports@.take(count as int) =~= imports@);
    }
    Ok(obj)
}

} // verus!
