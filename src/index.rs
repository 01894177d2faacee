//! The aggregated module index: one declaration per module, then the
//! re-exports.
use vstd::prelude::*;
use crate::registry::BindingSpec;
use crate::text::push_str;

verus! {

/// The line that gates the next declaration behind `feature`, if any.
pub open spec fn gate(feature: Option<String>) -> Seq<char> {
    match feature {
        Some(f) => "#[cfg(feature = \""@ + f@ + "\")]\n"@,
        None => Seq::empty(),
    }
}

/// The declaration of `s`'s module, with its gate.
pub open spec fn module_decl(s: BindingSpec) -> Seq<char> {
    gate(s.feature) + "pub mod "@ + s.module@ + ";\n"@
}

/// The re-export of `s`'s module under its alias, with its gate; empty when
/// `s` has no alias.
pub open spec fn alias_decl(s: BindingSpec) -> Seq<char> {
    match s.alias {
        Some(a) => gate(s.feature) + "pub use self::"@ + s.module@ + " as "@ + a@ + ";\n"@,
        None => Seq::empty(),
    }
}

/// The module declarations, in registry order.
pub open spec fn module_decls(specs: Seq<BindingSpec>) -> Seq<char>
    decreases specs.len(),
{
    if specs.len() == 0 {
        Seq::empty()
    } else {
        module_decls(specs.drop_last()) + module_decl(specs.last())
    }
}

/// The re-exports, in registry order.
pub open spec fn alias_decls(specs: Seq<BindingSpec>) -> Seq<char>
    decreases specs.len(),
{
    if specs.len() == 0 {
        Seq::empty()
    } else {
        alias_decls(specs.drop_last()) + alias_decl(specs.last())
    }
}

pub open spec fn has_alias(specs: Seq<BindingSpec>) -> bool {
    exists|i: int| 0 <= i < specs.len() && (#[trigger] specs[i]).alias is Some
}

/// The index: the declarations, then, where any spec has an alias, one blank
/// line and the re-exports.
pub open spec fn index_text(specs: Seq<BindingSpec>) -> Seq<char> {
    module_decls(specs) + if has_alias(specs) {
        "\n"@ + alias_decls(specs)
    } else {
        Seq::empty()
    }
}

fn push_gate(out: &mut String, feature: &Option<String>)
    ensures
        final(out)@ == old(out)@ + gate(*feature),
{
    match feature {
        Some(f) => {
            push_str(out, "#[cfg(feature = \"");
            push_str(out, f.as_str());
            push_str(out, "\")]\n");
        },
        None => {
            assert(old(out)@ + Seq::<char>::empty() == old(out)@);
        },
    }
}

/// The text of the module index for `specs`.
pub fn index_source(specs: &Vec<BindingSpec>) -> (r: String)
    ensures
        r@ == index_text(specs@),
{
    let mut out = String::new();
    let mut any_alias = false;
    let mut i: usize = 0;
    while i < specs.len()
        invariant
            i <= specs@.len(),
            out@ == module_decls(specs@.take(i as int)),
            any_alias == has_alias(specs@.take(i as int)),
        decreases specs@.len() - i,
    {
        let s = &specs[i];
        assert(specs@.take(i + 1).drop_last() == specs@.take(i as int));
        push_gate(&mut out, &s.feature);
        push_str(&mut out, "pub mod ");
        push_str(&mut out, s.module.as_str());
        push_str(&mut out, ";\n");
        assert(forall|k: int| 0 <= k < i ==> specs@.take(i + 1)[k] == specs@.take(i as int)[k]);
        if s.alias.is_some() {
            any_alias = true;
            assert(specs@.take(i + 1)[i as int].alias is Some);
        } else {
            proof {
            if has_alias(specs@.take(i + 1)) {
                let k = choose|k: int| 0 <= k < i + 1 && (#[trigger] specs@.take(i + 1)[k]).alias is Some;
                assert(specs@.take(i as int)[k].alias is Some);
            }
            if has_alias(specs@.take(i as int)) {
                let k = choose|k: int| 0 <= k < i && (#[trigger] specs@.take(i as int)[k]).alias is Some;
                assert(specs@.take(i + 1)[k].alias is Some);
            }
            }
        }
        i = i + 1;
    }
    assert(specs@.take(specs@.len() as int) == specs@);
    if any_alias {
        push_str(&mut out, "\n");
        let ghost head = out@;
        let mut j: usize = 0;
        while j < specs.len()
            invariant
                j <= specs@.len(),
                out@ == head + alias_decls(specs@.take(j as int)),
            decreases specs@.len() - j,
        {
            let s = &specs[j];
            assert(specs@.take(j + 1).drop_last() == specs@.take(j as int));
            match &s.alias {
                Some(a) => {
                    push_gate(&mut out, &s.feature);
                    push_str(&mut out, "pub use self::");
                    push_str(&mut out, s.module.as_str());
                    push_str(&mut out, " as ");
                    push_str(&mut out, a.as_str());
                    push_str(&mut out, ";\n");
                },
                None => {},
            }
            j = j + 1;
        }
    }
    out
}

/// Declarations keep registry order, and a feature gate stands immediately
/// before the declaration of the one module it gates and nowhere else. Shown
/// for three modules where only the middle one is gated.
pub proof fn lemma_index_order(a: BindingSpec, b: BindingSpec, c: BindingSpec, f: String)
    requires
        a.feature is None,
        b.feature == Some(f),
        c.feature is None,
        a.alias is None,
        b.alias is None,
        c.alias is None,
    ensures
        index_text(seq![a, b, c]) == "pub mod "@ + a.module@ + ";\n"@ + "#[cfg(feature = \""@
            + f@ + "\")]\n"@ + "pub mod "@ + b.module@ + ";\n"@ + "pub mod "@ + c.module@
            + ";\n"@,
{
    let specs = seq![a, b, c];
    assert(specs.drop_last() == seq![a, b]);
    assert(seq![a, b].drop_last() == seq![a]);
    assert(seq![a].drop_last() == Seq::<BindingSpec>::empty());
    assert(!has_alias(specs)) by {
        assert forall|i: int| 0 <= i < specs.len() implies !((#[trigger] specs[i]).alias is Some) by {}
    }
    assert(module_decls(Seq::<BindingSpec>::empty()) == Seq::<char>::empty());
    assert(seq![a].last() == a);
    assert(seq![a, b].last() == b);
    assert(specs.last() == c);
    assert(module_decls(seq![a]) == Seq::<char>::empty() + module_decl(a));
    assert(Seq::<char>::empty() + module_decl(a) == module_decl(a));
    assert(module_decls(seq![a, b]) == module_decls(seq![a]) + module_decl(b));
    assert(module_decls(specs) == module_decls(seq![a, b]) + module_decl(c));
    assert(gate(a.feature) == Seq::<char>::empty());
    assert(gate(c.feature) == Seq::<char>::empty());
    assert(module_decl(a) == "pub mod "@ + a.module@ + ";\n"@);
    assert(module_decl(c) == "pub mod "@ + c.module@ + ";\n"@);
    assert(index_text(specs) == module_decls(specs) + Seq::<char>::empty());
}

/// Without any alias the index holds the declarations alone: no blank line
/// and no re-export.
pub proof fn lemma_no_alias_section(specs: Seq<BindingSpec>)
    requires
        forall|i: int| 0 <= i < specs.len() ==> (#[trigger] specs[i]).alias is None,
    ensures
        index_text(specs) == module_decls(specs),
{
    assert(index_text(specs) == module_decls(specs) + Seq::<char>::empty());
}

proof fn lemma_alias_decls_single(specs: Seq<BindingSpec>, k: int)
    requires
        0 <= k < specs.len(),
        forall|i: int| 0 <= i < specs.len() && i != k ==> (#[trigger] specs[i]).alias is None,
    ensures
        alias_decls(specs) == alias_decl(specs[k]),
    decreases specs.len(),
{
    if k == specs.len() - 1 {
        lemma_alias_decls_none(specs.drop_last());
        assert(Seq::<char>::empty() + alias_decl(specs[k]) == alias_decl(specs[k]));
    } else {
        lemma_alias_decls_single(specs.drop_last(), k);
        assert(alias_decls(specs) == alias_decl(specs[k]) + Seq::<char>::empty());
    }
}

proof fn lemma_alias_decls_none(specs: Seq<BindingSpec>)
    requires
        forall|i: int| 0 <= i < specs.len() ==> (#[trigger] specs[i]).alias is None,
    ensures
        alias_decls(specs) == Seq::<char>::empty(),
    decreases specs.len(),
{
    if specs.len() > 0 {
        lemma_alias_decls_none(specs.drop_last());
    }
}

/// With exactly one alias the index holds the declarations, one blank line,
/// and exactly one re-export line, for the module that has the alias.
pub proof fn lemma_single_alias_section(specs: Seq<BindingSpec>, k: int, a: String)
    requires
        0 <= k < specs.len(),
        specs[k].alias == Some(a),
        forall|i: int| 0 <= i < specs.len() && i != k ==> (#[trigger] specs[i]).alias is None,
    ensures
        index_text(specs) == module_decls(specs) + "\n"@ + gate(specs[k].feature) + "pub use self::"@
            + specs[k].module@ + " as "@ + a@ + ";\n"@,
{
    lemma_alias_decls_single(specs, k);
    assert(has_alias(specs));
    let t = gate(specs[k].feature) + "pub use self::"@ + specs[k].module@ + " as "@ + a@ + ";\n"@;
    assert(module_decls(specs) + ("\n"@ + t) == module_decls(specs) + "\n"@ + t);
}

proof fn lemma_module_decls_concat(a: Seq<BindingSpec>, b: Seq<BindingSpec>)
    ensures
        module_decls(a + b) == module_decls(a) + module_decls(b),
    decreases b.len(),
{
    if b.len() == 0 {
        assert(a + b == a);
        assert(module_decls(a) + Seq::<char>::empty() == module_decls(a));
    } else {
        assert((a + b).drop_last() == a + b.drop_last());
        assert((a + b).last() == b.last());
        lemma_module_decls_concat(a, b.drop_last());
        assert(module_decls(a) + module_decls(b.drop_last()) + module_decl(b.last()) == module_decls(a)
            + (module_decls(b.drop_last()) + module_decl(b.last())));
    }
}

/// The index begins with one declaration per module, in registry order: the
/// declarations of the modules before the `i`-th, then that module's gate
/// line if it has a feature, immediately followed by its `pub mod` line,
/// then the declarations of the modules after it.
pub proof fn lemma_declaration_order(specs: Seq<BindingSpec>, i: int)
    requires
        0 <= i < specs.len(),
    ensures
        index_text(specs).take(module_decls(specs).len() as int) == module_decls(specs),
        module_decls(specs) == module_decls(specs.take(i)) + gate(specs[i].feature) + "pub mod "@
            + specs[i].module@ + ";\n"@ + module_decls(specs.skip(i + 1)),
        specs[i].feature is None ==> gate(specs[i].feature) == Seq::<char>::empty(),
{
    let a = specs.take(i);
    let b = seq![specs[i]];
    let c = specs.skip(i + 1);
    assert(specs == a + b + c);
    lemma_module_decls_concat(a + b, c);
    lemma_module_decls_concat(a, b);
    assert(b.drop_last() == Seq::<BindingSpec>::empty());
    assert(b.last() == specs[i]);
    assert(module_decls(Seq::<BindingSpec>::empty()) == Seq::<char>::empty());
    assert(module_decls(b) == Seq::<char>::empty() + module_decl(specs[i]));
    assert(Seq::<char>::empty() + module_decl(specs[i]) == module_decl(specs[i]));
    assert(index_text(specs).take(module_decls(specs).len() as int) =~= module_decls(specs));
}

} // verus!
