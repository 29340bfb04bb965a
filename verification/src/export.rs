//! The process-wide export registry.
//!
//! A registration entry pairs a name with a factory for the value to export
//! under that name. Entries are registered before the module's load pass
//! runs; the load pass then walks them once, in registration order, creating
//! each value under the module-load context and binding it in the module
//! namespace. Factories come from a closed set of value constructors, so a
//! registry is plain data and the whole pass is deterministic.

use vstd::prelude::*;

use crate::context::{
    ns_lookup, ns_names, ns_set, Context, NsModel, Throw,
};
use crate::value::Val;

verus! {

/// A factory for the value an entry exports: the closed set of host values
/// the registry can create under the module-load context.
#[derive(Debug)]
pub enum ValueCtor {
    /// Exports the global `undefined` value.
    Undefined,
    /// Exports the global `null` value.
    Null,
    /// Exports a boolean.
    Boolean(bool),
    /// Exports a number.
    Number(i64),
    /// Exports a text value with these contents.
    Text(String),
}

/// The host value a factory creates.
pub open spec fn ctor_value(c: ValueCtor) -> Val {
    match c {
        ValueCtor::Undefined => Val::Undefined,
        ValueCtor::Null => Val::Null,
        ValueCtor::Boolean(b) => Val::Boolean(b),
        ValueCtor::Number(n) => Val::Number(n),
        ValueCtor::Text(s) => Val::Text(s@),
    }
}

/// One registered export: a name and the factory for its value.
#[derive(Debug)]
pub struct ExportEntry {
    /// The name the value is exported under.
    pub name: String,
    /// The factory for the exported value.
    pub ctor: ValueCtor,
}

/// The registered exports, in registration order. Entries are added while
/// the module sets itself up and read exactly once, by the export pass of
/// the module's load-time context.
pub struct Exports {
    entries: Vec<ExportEntry>,
}

impl View for Exports {
    type V = Seq<(Seq<char>, Val)>;

    closed spec fn view(&self) -> Seq<(Seq<char>, Val)> {
        self.entries@.map_values(|e: ExportEntry| (e.name@, ctor_value(e.ctor)))
    }
}

/// Applies registered entries to a namespace in order: each entry binds its
/// name to its factory's value, replacing an earlier binding of that name.
pub open spec fn apply_entries(ns: NsModel, es: Seq<(Seq<char>, Val)>) -> NsModel
    decreases es.len(),
{
    if es.len() == 0 {
        ns
    } else {
        apply_entries(ns_set(ns, es[0].0, es[0].1), es.drop_first())
    }
}

impl Exports {
    /// Registers one more export at the end of the registry.
    pub fn register(&mut self, name: &str, ctor: ValueCtor)
        ensures
            final(self)@ == old(self)@.push((name@, ctor_value(ctor))),
    {
        let ghost c = ctor_value(ctor);
        self.entries.push(ExportEntry { name: name.to_owned(), ctor });
        proof {
            assert(self@ =~= old(self)@.push((name@, c)));
        }
    }

    /// Number of registered entries.
    pub fn len(&self) -> (n: usize)
        ensures
            n == self@.len(),
    {
        self.entries.len()
    }

    /// The name of the entry at a position, in registration order.
    pub fn name_at(&self, i: usize) -> (r: &String)
        requires
            i < self@.len(),
        ensures
            r@ == self@[i as int].0,
    {
        &self.entries[i].name
    }

    /// Exports every registered value under the module-load context, in
    /// registration order: each entry's factory runs once, and the resulting
    /// value is bound to the entry's name in the module namespace. Walks the
    /// registry exactly once and never fails.
    pub fn export(self, cx: &mut Context) -> (r: Result<(), Throw>)
        requires
            old(cx)@.variant is ModuleLoad,
            old(cx)@.scopes.wf(),
            old(cx)@.scopes.depth() > 0,
        ensures
            r is Ok,
            final(cx)@.namespace == apply_entries(old(cx)@.namespace, self@),
            final(cx)@.exported == old(cx)@.exported + ns_names(self@),
            final(cx)@.scopes == old(cx)@.scopes,
            final(cx)@.variant == old(cx)@.variant,
    {
        let ghost es = self@;
        let n = self.entries.len();
        proof {
            assert(es.take(0) =~= Seq::<(Seq<char>, Val)>::empty());
            assert(old(cx)@.exported + ns_names(es.take(0)) =~= old(cx)@.exported);
        }
        let mut i: usize = 0;
        while i < n
            invariant
                n == self.entries@.len(),
                es == self@,
                i <= n,
                cx@.variant is ModuleLoad,
                cx@.scopes.wf(),
                cx@.scopes == old(cx)@.scopes,
                old(cx)@.scopes.depth() > 0,
                cx@.namespace == apply_entries(old(cx)@.namespace, es.take(i as int)),
                cx@.exported == old(cx)@.exported + ns_names(es.take(i as int)),
            decreases n - i,
        {
            let entry = &self.entries[i];
            let h = match &entry.ctor {
                ValueCtor::Undefined => cx.undefined(),
                ValueCtor::Null => cx.null(),
                ValueCtor::Boolean(b) => cx.boolean(*b),
                ValueCtor::Number(v) => cx.number(*v),
                ValueCtor::Text(s) => cx.string(s.as_str()),
            };
            proof {
                assert(cx@.slot_of(h@) == es[i as int].1);
            }
            let r = cx.export_value(entry.name.as_str(), h);
            proof {
                let pre = apply_entries(old(cx)@.namespace, es.take(i as int));
                lemma_apply_snoc(old(cx)@.namespace, es.take(i as int), es[i as int]);
                assert(es.take(i as int).push(es[i as int]) =~= es.take(i as int + 1));
                assert(cx@.namespace == apply_entries(old(cx)@.namespace, es.take(i as int + 1)));
                assert(ns_names(es.take(i as int + 1)).len() == i + 1);
                assert(cx@.exported =~= old(cx)@.exported + ns_names(es.take(i as int + 1)));
            }
            i = i + 1;
        }
        proof {
            assert(es.take(n as int) =~= es);
        }
        Ok(())
    }
}

/// Creates the registry that module setup code fills with its exports
/// before the load pass reads them.
pub fn registered() -> (e: Exports)
    ensures
        e@.len() == 0,
{
    let e = Exports { entries: Vec::new() };
    proof {
        assert(e@ =~= Seq::<(Seq<char>, Val)>::empty());
    }
    e
}

/// Applying entries one after another is the same as applying the sequence
/// extended by one at its end.
pub proof fn lemma_apply_snoc(ns: NsModel, es: Seq<(Seq<char>, Val)>, e: (Seq<char>, Val))
    ensures
        apply_entries(ns, es.push(e)) == ns_set(apply_entries(ns, es), e.0, e.1),
    decreases es.len(),
{
    if es.len() == 0 {
        assert(es.push(e)[0] == e);
        assert(es.push(e).drop_first() =~= Seq::<(Seq<char>, Val)>::empty());
        assert(apply_entries(ns_set(ns, e.0, e.1), Seq::<(Seq<char>, Val)>::empty()) == ns_set(
            ns,
            e.0,
            e.1,
        ));
        assert(apply_entries(ns, es) == ns);
    } else {
        assert(es.push(e)[0] == es[0]);
        assert(es.push(e).drop_first() =~= es.drop_first().push(e));
        lemma_apply_snoc(ns_set(ns, es[0].0, es[0].1), es.drop_first(), e);
    }
}

/// Law: after the export pass, every registered name is bound in the
/// namespace.
pub proof fn lemma_apply_binds_all(ns: NsModel, es: Seq<(Seq<char>, Val)>)
    ensures
        forall|i: int| 0 <= i < es.len() ==> ns_lookup(apply_entries(ns, es), es[i].0) is Some,
    decreases es.len(),
{
    if es.len() > 0 {
        let ns1 = ns_set(ns, es[0].0, es[0].1);
        lemma_apply_binds_all(ns1, es.drop_first());
        assert forall|i: int| 0 <= i < es.len() implies ns_lookup(
            apply_entries(ns, es),
            es[i].0,
        ) is Some by {
            if i == 0 {
                crate::context::lemma_ns_set_lookup(ns, es[0].0, es[0].1, es[0].0);
                lemma_apply_keeps_bound(ns1, es.drop_first(), es[0].0);
            } else {
                assert(es.drop_first()[i - 1] == es[i]);
            }
        }
    }
}

/// A name bound before the export pass is still bound after it.
pub proof fn lemma_apply_keeps_bound(ns: NsModel, es: Seq<(Seq<char>, Val)>, name: Seq<char>)
    requires
        ns_lookup(ns, name) is Some,
    ensures
        ns_lookup(apply_entries(ns, es), name) is Some,
    decreases es.len(),
{
    if es.len() > 0 {
        crate::context::lemma_ns_set_lookup(ns, es[0].0, es[0].1, name);
        lemma_apply_keeps_bound(ns_set(ns, es[0].0, es[0].1), es.drop_first(), name);
    }
}

/// When every entry's name is already bound, the export pass only replaces
/// values in place: the sequence of bound names does not change.
pub proof fn lemma_apply_preserves_names(ns: NsModel, es: Seq<(Seq<char>, Val)>)
    requires
        forall|i: int| 0 <= i < es.len() ==> ns_lookup(ns, es[i].0) is Some,
    ensures
        ns_names(apply_entries(ns, es)) == ns_names(ns),
    decreases es.len(),
{
    if es.len() > 0 {
        let ns1 = ns_set(ns, es[0].0, es[0].1);
        crate::context::lemma_ns_set_preserves_names(ns, es[0].0, es[0].1);
        assert forall|i: int| 0 <= i < es.drop_first().len() implies ns_lookup(
            ns1,
            es.drop_first()[i].0,
        ) is Some by {
            assert(es.drop_first()[i] == es[i + 1]);
            crate::context::lemma_ns_set_lookup(ns, es[0].0, es[0].1, es[i + 1].0);
        }
        lemma_apply_preserves_names(ns1, es.drop_first());
    }
}

/// Law: exporting the same registry twice is idempotent in terms of which
/// names are bound. The second pass finds every registered name already
/// bound and only replaces values in place, so the namespace binds exactly
/// the names it bound after the first pass, in the same order, with no
/// duplicate entries.
pub proof fn lemma_export_twice_same_names(ns: NsModel, es: Seq<(Seq<char>, Val)>)
    ensures
        ns_names(apply_entries(apply_entries(ns, es), es)) == ns_names(apply_entries(ns, es)),
{
    lemma_apply_binds_all(ns, es);
    lemma_apply_preserves_names(apply_entries(ns, es), es);
}

} // verus!
