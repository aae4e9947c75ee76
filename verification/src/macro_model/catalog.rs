//! A catalog of macros resolved by name.
use vstd::prelude::*;

use crate::exploration::candidate::{duplicate_pred, repeats_earlier};
use crate::search::{any_below, first_index, lemma_first_exists, lemma_first_index};
use crate::text::{lemma_text_less_total, lemma_text_less_transitive, str_eq, str_less, text_less};

use super::model::Macro;

verus! {

/// The names of `macros`, in order.
pub open spec fn macro_names(macros: Seq<Macro>) -> Seq<Seq<char>> {
    macros.map_values(|m: Macro| m.name_view())
}

/// No two of `macros` share a name.
pub open spec fn distinct_names(macros: Seq<Macro>) -> bool {
    forall|i: int, j: int|
        0 <= i < j < macros.len() ==> (#[trigger] macros[i]).name_view() != (#[trigger] macros[j]).name_view()
}

/// One of `macros` is named `name`.
pub open spec fn has_name(macros: Seq<Macro>, name: Seq<char>) -> bool {
    exists|i: int| 0 <= i < macros.len() && (#[trigger] macros[i]).name_view() == name
}

/// Macro `i` is named `name`.
pub open spec fn macro_named(macros: Seq<Macro>, name: Seq<char>) -> spec_fn(int) -> bool {
    |i: int| macros[i].name_view() == name
}

/// The position of the macro named `name`, if any (the first one; names are
/// distinct in a catalog).
pub open spec fn macro_index(macros: Seq<Macro>, name: Seq<char>) -> Option<int> {
    let pred = macro_named(macros, name);
    if any_below(macros.len() as int, pred) {
        Some(first_index(macros.len() as int, pred))
    } else {
        None
    }
}

/// A found macro is in range and carries the name.
pub proof fn lemma_macro_index(macros: Seq<Macro>, name: Seq<char>)
    ensures
        macro_index(macros, name) is Some <==> has_name(macros, name),
        macro_index(macros, name) matches Some(i) ==> 0 <= i < macros.len() && macros[i].name_view() == name,
{
    let pred = macro_named(macros, name);
    if any_below(macros.len() as int, pred) {
        lemma_first_exists(macros.len() as int, pred);
        let i = first_index(macros.len() as int, pred);
        assert(pred(i));
        assert(macros[i].name_view() == name);
    }
    if has_name(macros, name) {
        let i = choose|i: int| 0 <= i < macros.len() && (#[trigger] macros[i]).name_view() == name;
        assert(pred(i));
    }
}

/// Registering a macro under a new name makes it the one found under that
/// name, and every other name finds what it found before.
pub proof fn law_registered_macro_is_found(macros: Seq<Macro>, macro_: Macro, other: Seq<char>)
    requires
        !has_name(macros, macro_.name_view()),
    ensures
        macro_index(macros.push(macro_), macro_.name_view()) == Some(macros.len() as int),
        other != macro_.name_view() ==> macro_index(macros.push(macro_), other) == macro_index(macros, other),
{
    let grown = macros.push(macro_);
    let name = macro_.name_view();
    let pred = macro_named(grown, name);
    assert forall|k: int| 0 <= k < macros.len() implies !#[trigger] pred(k) by {
        assert(grown[k] == macros[k]);
        if pred(k) {
            assert(has_name(macros, name));
        }
    }
    assert(pred(macros.len() as int));
    lemma_first_index(grown.len() as int, pred, macros.len() as int);
    if other != name {
        let before = macro_named(macros, other);
        let after = macro_named(grown, other);
        assert forall|k: int| 0 <= k < macros.len() implies (#[trigger] after(k)) == before(k) by {
            assert(grown[k] == macros[k]);
        }
        assert(!after(macros.len() as int));
        if any_below(macros.len() as int, before) {
            lemma_first_exists(macros.len() as int, before);
            let i = first_index(macros.len() as int, before);
            assert forall|k: int| 0 <= k < i implies !#[trigger] after(k) by {
                assert(!before(k));
            }
            lemma_first_index(grown.len() as int, after, i);
        } else {
            if any_below(grown.len() as int, after) {
                let k = choose|k: int| 0 <= k < grown.len() && #[trigger] after(k);
                assert(before(k));
            }
        }
    }
}

/// `macros` are in strictly increasing name order.
pub open spec fn sorted_by_name(macros: Seq<Macro>) -> bool {
    forall|i: int, j: int|
        0 <= i < j < macros.len() ==> text_less(
            (#[trigger] macros[i]).name_view(),
            (#[trigger] macros[j]).name_view(),
        )
}

/// `listed` holds the macros of `macros`, each once.
pub open spec fn lists_all(listed: Seq<Macro>, macros: Seq<Macro>) -> bool {
    &&& listed.len() == macros.len()
    &&& forall|i: int|
        0 <= i < listed.len() ==> exists|j: int| 0 <= j < macros.len() && #[trigger] listed[i] == macros[j]
    &&& forall|j: int|
        0 <= j < macros.len() ==> exists|i: int| 0 <= i < listed.len() && listed[i] == #[trigger] macros[j]
}

/// Errors produced while assembling a macro catalog.
#[derive(Clone, Debug, PartialEq, Eq)]
pub enum MacroCatalogError {
    /// A macro name is already registered.
    DuplicateMacro { name: String },
}

impl MacroCatalogError {
    /// The message of the error.
    pub open spec fn message(&self) -> Seq<char> {
        match self {
            MacroCatalogError::DuplicateMacro { name } => "macro '"@ + name@ + "' is already registered"@,
        }
    }

    /// Returns the message of the error.
    pub fn to_string(&self) -> (text: String)
        ensures
            text@ == self.message(),
    {
        match self {
            MacroCatalogError::DuplicateMacro { name } => {
                let mut text = String::from_str("macro '");
                text.append(name.as_str());
                text.append("' is already registered");
                text
            },
        }
    }
}

/// In-memory collection used to resolve macros by name.
#[derive(Debug)]
pub struct MacroCatalog {
    macros: Vec<Macro>,
}

impl MacroCatalog {
    /// Every name is registered at most once.
    #[verifier::type_invariant]
    spec fn names_are_distinct(self) -> bool {
        distinct_names(self.macros@)
    }

    /// The registered macros, in registration order.
    pub closed spec fn macros_view(&self) -> Seq<Macro> {
        self.macros@
    }

    /// Creates an empty macro catalog.
    pub fn new() -> (catalog: Self)
        ensures
            catalog.macros_view() == Seq::<Macro>::empty(),
    {
        MacroCatalog { macros: Vec::new() }
    }

    /// Registers a macro without silently replacing an existing definition.
    pub fn register(&mut self, macro_: Macro) -> (result: Result<(), MacroCatalogError>)
        ensures
            result is Ok <==> !has_name(old(self).macros_view(), macro_.name_view()),
            match result {
                Ok(()) => final(self).macros_view() == old(self).macros_view().push(macro_),
                Err(MacroCatalogError::DuplicateMacro { name }) => name@ == macro_.name_view()
                    && final(self).macros_view() == old(self).macros_view(),
            },
    {
        proof {
            use_type_invariant(&*self);
        }
        if self.contains(macro_.name()) {
            let name = macro_.name().to_owned();
            return Err(MacroCatalogError::DuplicateMacro { name });
        }
        let mut macros: Vec<Macro> = Vec::new();
        std::mem::swap(&mut macros, &mut self.macros);
        let ghost before = macros@;
        macros.push(macro_);
        proof {
            assert forall|i: int, j: int|
                0 <= i < j < macros@.len() implies (#[trigger] macros@[i]).name_view()
                != (#[trigger] macros@[j]).name_view() by {
                if j == before.len() {
                    assert(macros@[i] == before[i]);
                }
            }
        }
        self.macros = macros;
        Ok(())
    }

    /// Builds a catalog from macros registered in order; the first macro whose
    /// name repeats an earlier one is refused.
    #[verifier::loop_isolation(false)]
    pub fn from_macros(macros: Vec<Macro>) -> (result: Result<Self, MacroCatalogError>)
        ensures
            result is Ok <==> !any_below(
                macros@.len() as int,
                duplicate_pred(macro_names(macros@)),
            ),
            match result {
                Ok(catalog) => catalog.macros_view() == macros@,
                Err(MacroCatalogError::DuplicateMacro { name }) => name@ == macros@[first_index(
                    macros@.len() as int,
                    duplicate_pred(macro_names(macros@)),
                )].name_view(),
            },
    {
        let ghost all = macros@;
        let ghost names = macro_names(all);
        let ghost pred = duplicate_pred(names);
        let total = macros.len();
        let mut catalog = MacroCatalog::new();
        let mut rest = macros;
        let mut taken: usize = 0;
        while rest.len() > 0
            invariant
                names == macro_names(all),
                pred == duplicate_pred(names),
                taken + rest@.len() == all.len(),
                all.len() == total,
                catalog.macros_view() == all.take(taken as int),
                rest@ == all.skip(taken as int),
                forall|k: int| 0 <= k < taken ==> !#[trigger] pred(k),
            decreases rest@.len(),
        {
            proof {
                use_type_invariant(&catalog);
            }
            let ghost prefix = all.take(taken as int);
            let macro_ = rest.remove(0);
            assert(macro_ == all[taken as int]);
            let ghost j = taken as int;
            let registered = catalog.register(macro_);
            match registered {
                Ok(()) => {
                    proof {
                        assert(!pred(j)) by {
                            if repeats_earlier(names, j) {
                                let k = choose|k: int| 0 <= k < j && #[trigger] names[k] == names[j];
                                assert(names[k] == all[k].name_view());
                                assert(names[j] == all[j].name_view());
                                assert(prefix[k] == all[k]);
                                assert(has_name(prefix, all[j].name_view()));
                            }
                        }
                        assert(all.take(j + 1) =~= prefix.push(all[j]));
                        assert(rest@ =~= all.skip(j + 1));
                    }
                    taken = taken + 1;
                },
                Err(error) => {
                    proof {
                        let k = choose|k: int|
                            0 <= k < prefix.len() && (#[trigger] prefix[k]).name_view()
                                == all[j].name_view();
                        assert(prefix[k] == all[k]);
                        assert(names[k] == all[k].name_view());
                        assert(names[j] == all[j].name_view());
                        assert(names[k] == names[j]);
                        assert(repeats_earlier(names, j));
                        assert(pred(j));
                        lemma_first_index(all.len() as int, pred, j);
                    }
                    return Err(error);
                },
            }
        }
        proof {
            assert(all.take(taken as int) =~= all);
            if any_below(all.len() as int, pred) {
                let k = choose|k: int| 0 <= k < all.len() && #[trigger] pred(k);
                assert(!pred(k));
            }
        }
        Ok(catalog)
    }

    /// Returns the macro registered under `name`, if any.
    pub fn get(&self, name: &str) -> (found: Option<&Macro>)
        ensures
            found is Some <==> has_name(self.macros_view(), name@),
            match macro_index(self.macros_view(), name@) {
                Some(i) => found == Some(&self.macros_view()[i]),
                None => found is None,
            },
    {
        proof {
            lemma_macro_index(self.macros@, name@);
        }
        let ghost pred = macro_named(self.macros@, name@);
        let n = self.macros.len();
        let mut i: usize = 0;
        while i < n
            invariant
                n == self.macros@.len(),
                i <= n,
                pred == macro_named(self.macros@, name@),
                forall|k: int| 0 <= k < i ==> !#[trigger] pred(k),
            decreases n - i,
        {
            if str_eq(self.macros[i].name(), name) {
                proof {
                    lemma_first_index(n as int, pred, i as int);
                }
                return Some(&self.macros[i]);
            }
            i = i + 1;
        }
        None
    }

    /// Returns whether a macro is registered under `name`.
    pub fn contains(&self, name: &str) -> (found: bool)
        ensures
            found == has_name(self.macros_view(), name@),
    {
        self.get(name).is_some()
    }

    /// Returns all macros sorted by name.
    pub fn list(&self) -> (listed: Vec<&Macro>)
        ensures
            sorted_by_name(deref_macros(listed@)),
            lists_all(deref_macros(listed@), self.macros_view()),
    {
        proof {
            use_type_invariant(self);
        }
        let n = self.macros.len();
        let mut listed: Vec<&Macro> = Vec::new();
        let mut i: usize = 0;
        while i < n
            invariant
                n == self.macros@.len(),
                i <= n,
                distinct_names(self.macros@),
                sorted_by_name(deref_macros(listed@)),
                lists_all(deref_macros(listed@), self.macros@.take(i as int)),
            decreases n - i,
        {
            let candidate = &self.macros[i];
            let ghost sorted = deref_macros(listed@);
            let ghost seen = self.macros@.take(i as int);
            let p = insertion_point(&listed, candidate.name());
            proof {
                self.lemma_insert_sorted(sorted, seen, i as int, p as int);
            }
            let ghost before = listed@;
            listed.insert(p, candidate);
            proof {
                lemma_deref_insert(before, p as int, candidate);
                assert(self.macros@.take(i + 1) =~= seen.push(self.macros@[i as int]));
            }
            i = i + 1;
        }
        proof {
            assert(self.macros@.take(n as int) =~= self.macros@);
        }
        listed
    }

    /// Inserting macro `i` at the first position whose name is not before its
    /// own keeps the listing sorted and complete.
    proof fn lemma_insert_sorted(&self, sorted: Seq<Macro>, seen: Seq<Macro>, i: int, p: int)
        requires
            0 <= i < self.macros@.len(),
            seen == self.macros@.take(i),
            distinct_names(self.macros@),
            sorted_by_name(sorted),
            lists_all(sorted, seen),
            0 <= p <= sorted.len(),
            forall|k: int| 0 <= k < p ==> text_less((#[trigger] sorted[k]).name_view(), self.macros@[i].name_view()),
            p < sorted.len() ==> !text_less(sorted[p].name_view(), self.macros@[i].name_view()),
        ensures
            sorted_by_name(sorted.insert(p, self.macros@[i])),
            lists_all(sorted.insert(p, self.macros@[i]), seen.push(self.macros@[i])),
    {
        let x = self.macros@[i];
        if p < sorted.len() {
            let j = choose|j: int| 0 <= j < seen.len() && sorted[p] == #[trigger] seen[j];
            assert(seen[j] == self.macros@[j]);
            assert(sorted[p].name_view() != x.name_view());
            lemma_text_less_total(sorted[p].name_view(), x.name_view());
        }
        assert forall|k: int| p <= k < sorted.len() implies text_less(
            x.name_view(),
            (#[trigger] sorted[k]).name_view(),
        ) by {
            if k > p {
                assert(text_less(sorted[p].name_view(), sorted[k].name_view()));
                lemma_text_less_transitive(x.name_view(), sorted[p].name_view(), sorted[k].name_view());
            }
        }
        lemma_insert_keeps_order(sorted, x, p);
        lemma_insert_lists_all(sorted, seen, x, p);
    }
}

/// Inserting `x` between the names before it and those after it keeps the
/// order.
proof fn lemma_insert_keeps_order(sorted: Seq<Macro>, x: Macro, p: int)
    requires
        sorted_by_name(sorted),
        0 <= p <= sorted.len(),
        forall|k: int| 0 <= k < p ==> text_less((#[trigger] sorted[k]).name_view(), x.name_view()),
        forall|k: int| p <= k < sorted.len() ==> text_less(x.name_view(), (#[trigger] sorted[k]).name_view()),
    ensures
        sorted_by_name(sorted.insert(p, x)),
{
    let out = sorted.insert(p, x);
    sorted.insert_ensures(p, x);
    assert forall|a: int, b: int| 0 <= a < b < out.len() implies text_less(
        (#[trigger] out[a]).name_view(),
        (#[trigger] out[b]).name_view(),
    ) by {
        if b < p {
            assert(out[a] == sorted[a] && out[b] == sorted[b]);
        } else if b == p {
            assert(out[a] == sorted[a]);
        } else if a < p {
            assert(out[a] == sorted[a] && out[b] == sorted[b - 1]);
            lemma_text_less_transitive(sorted[a].name_view(), x.name_view(), sorted[b - 1].name_view());
        } else if a == p {
            assert(out[b] == sorted[b - 1]);
        } else {
            assert(out[a] == sorted[a - 1] && out[b] == sorted[b - 1]);
        }
    }
}

/// Inserting `x` into a complete listing of `seen` lists `seen` and `x`.
proof fn lemma_insert_lists_all(sorted: Seq<Macro>, seen: Seq<Macro>, x: Macro, p: int)
    requires
        lists_all(sorted, seen),
        0 <= p <= sorted.len(),
    ensures
        lists_all(sorted.insert(p, x), seen.push(x)),
{
    let out = sorted.insert(p, x);
    let all = seen.push(x);
    sorted.insert_ensures(p, x);
    assert forall|a: int| 0 <= a < out.len() implies exists|j: int|
        0 <= j < all.len() && #[trigger] out[a] == all[j] by {
        if a < p {
            let j = choose|j: int| 0 <= j < seen.len() && sorted[a] == #[trigger] seen[j];
            assert(out[a] == all[j]);
        } else if a == p {
            assert(out[a] == all[seen.len() as int]);
        } else {
            let j = choose|j: int| 0 <= j < seen.len() && sorted[a - 1] == #[trigger] seen[j];
            assert(out[a] == all[j]);
        }
    }
    assert forall|j: int| 0 <= j < all.len() implies exists|a: int|
        0 <= a < out.len() && out[a] == #[trigger] all[j] by {
        if j < seen.len() {
            assert(all[j] == seen[j]);
            let a = choose|a: int| 0 <= a < sorted.len() && sorted[a] == #[trigger] seen[j];
            if a < p {
                assert(out[a] == all[j]);
            } else {
                assert(out[a + 1] == all[j]);
            }
        } else {
            assert(out[p] == all[j]);
        }
    }
}

/// The number of leading macros of `listed` whose names come before `name`.
fn insertion_point(listed: &Vec<&Macro>, name: &str) -> (p: usize)
    ensures
        p <= listed@.len(),
        forall|k: int| 0 <= k < p ==> text_less((#[trigger] listed@[k]).name_view(), name@),
        p < listed@.len() ==> !text_less(listed@[p as int].name_view(), name@),
{
    let mut p: usize = 0;
    while p < listed.len() && str_less(listed[p].name(), name)
        invariant
            p <= listed@.len(),
            forall|k: int| 0 <= k < p ==> text_less((#[trigger] listed@[k]).name_view(), name@),
        decreases listed@.len() - p,
    {
        p = p + 1;
    }
    p
}

/// Dereferencing commutes with insertion.
proof fn lemma_deref_insert(listed: Seq<&Macro>, p: int, m: &Macro)
    requires
        0 <= p <= listed.len(),
    ensures
        deref_macros(listed.insert(p, m)) == deref_macros(listed).insert(p, *m),
{
    listed.insert_ensures(p, m);
    deref_macros(listed).insert_ensures(p, *m);
    assert(deref_macros(listed.insert(p, m)) =~= deref_macros(listed).insert(p, *m));
}

/// The macros a list of references points to.
pub open spec fn deref_macros(listed: Seq<&Macro>) -> Seq<Macro> {
    listed.map_values(|m: &Macro| *m)
}

impl Default for MacroCatalog {
    fn default() -> (catalog: Self)
        ensures
            catalog.macros_view() == Seq::<Macro>::empty(),
    {
        MacroCatalog::new()
    }
}

} // verus!
