//! What the macro logic reads of primitive build specifications: the build
//! inputs of each catalogued primitive.
use vstd::prelude::*;

use crate::entries::{entry_names, entry_value, get_entry, lemma_absent_entry, lemma_sorted_entry, put_entry};
use crate::macro_model::hierarchy::copy_values;
use crate::macro_model::model::all_finite;
use crate::search::{any_below, first_index, lemma_first_exists, lemma_first_index};
use crate::text::{str_eq, strictly_sorted};
use crate::value::{finite_value, is_finite_value};

verus! {

/// Shape of a primitive build input.
#[derive(Debug, Clone, Copy, PartialEq, Eq, Structural)]
pub enum PrimitiveBuildInputKind {
    Scalar,
    Vector,
}

impl PrimitiveBuildInputKind {
    /// The name of the kind, as it appears in messages.
    pub open spec fn message(&self) -> Seq<char> {
        match self {
            PrimitiveBuildInputKind::Scalar => "scalar"@,
            PrimitiveBuildInputKind::Vector => "vector"@,
        }
    }

    /// Returns the name of the kind.
    pub fn to_string(&self) -> (text: String)
        ensures
            text@ == self.message(),
    {
        match self {
            PrimitiveBuildInputKind::Scalar => String::from_str("scalar"),
            PrimitiveBuildInputKind::Vector => String::from_str("vector"),
        }
    }

    /// An input of this kind accepts values of the same kind.
    pub fn accepts(self, kind: Self) -> (accepted: bool)
        ensures
            accepted == (self == kind),
    {
        self == kind
    }
}

/// How a primitive combines its input axes into candidate rows.
#[derive(Debug, Clone, Copy, PartialEq, Eq, Structural)]
pub enum SweepMode {
    /// Every combination of the input values.
    Cartesian,
    /// The vector inputs are read side by side, row by row.
    Aligned,
}

/// The value given to one primitive build input: one number or a sweep of
/// numbers (binary64 bit patterns).
#[derive(Debug, Clone, PartialEq)]
pub enum PrimitiveBuildValue {
    Scalar(u64),
    Vector(Vec<u64>),
}

/// What a build value holds.
pub enum BuildValueView {
    Scalar(u64),
    Vector(Seq<u64>),
}

/// The spec value of a build value.
pub open spec fn build_value_view(value: PrimitiveBuildValue) -> BuildValueView {
    match value {
        PrimitiveBuildValue::Scalar(v) => BuildValueView::Scalar(v),
        PrimitiveBuildValue::Vector(values) => BuildValueView::Vector(values@),
    }
}

/// The kind of a build value.
pub open spec fn value_kind(value: BuildValueView) -> PrimitiveBuildInputKind {
    match value {
        BuildValueView::Scalar(_) => PrimitiveBuildInputKind::Scalar,
        BuildValueView::Vector(_) => PrimitiveBuildInputKind::Vector,
    }
}

/// Every number of a build value is finite.
pub open spec fn value_finite(value: BuildValueView) -> bool {
    match value {
        BuildValueView::Scalar(v) => finite_value(v),
        BuildValueView::Vector(values) => all_finite(values),
    }
}

impl PrimitiveBuildValue {
    /// Returns the kind of the value.
    pub fn kind(&self) -> (kind: PrimitiveBuildInputKind)
        ensures
            kind == value_kind(build_value_view(*self)),
    {
        match self {
            PrimitiveBuildValue::Scalar(_) => PrimitiveBuildInputKind::Scalar,
            PrimitiveBuildValue::Vector(_) => PrimitiveBuildInputKind::Vector,
        }
    }

    /// Returns whether every number of the value is finite.
    pub fn is_finite(&self) -> (finite: bool)
        ensures
            finite == value_finite(build_value_view(*self)),
    {
        match self {
            PrimitiveBuildValue::Scalar(v) => is_finite_value(*v),
            PrimitiveBuildValue::Vector(values) => {
                let n = values.len();
                let mut i: usize = 0;
                while i < n
                    invariant
                        n == values@.len(),
                        i <= n,
                        build_value_view(*self) == BuildValueView::Vector(values@),
                        forall|k: int| 0 <= k < i ==> finite_value(#[trigger] values@[k]),
                    decreases n - i,
                {
                    if !is_finite_value(values[i]) {
                        assert(!finite_value(values@[i as int]));
                        assert(!all_finite(values@));
                        return false;
                    }
                    i = i + 1;
                }
                true
            },
        }
    }
}

/// Copies a build value.
pub fn copy_build_value(value: &PrimitiveBuildValue) -> (copy: PrimitiveBuildValue)
    ensures
        build_value_view(copy) == build_value_view(*value),
{
    match value {
        PrimitiveBuildValue::Scalar(v) => PrimitiveBuildValue::Scalar(*v),
        PrimitiveBuildValue::Vector(values) => PrimitiveBuildValue::Vector(copy_values(values)),
    }
}

/// The values a list of named build values gives, a later value replacing an
/// earlier one under the same name.
pub open spec fn listed_values(list: Seq<(String, PrimitiveBuildValue)>) -> Map<Seq<char>, BuildValueView>
    decreases list.len(),
{
    if list.len() == 0 {
        Map::empty()
    } else {
        listed_values(list.drop_last()).insert(list.last().0@, build_value_view(list.last().1))
    }
}

/// The values listed in an association list, by name.
pub open spec fn entries_map(entries: Seq<(String, PrimitiveBuildValue)>) -> Map<Seq<char>, BuildValueView> {
    Map::new(
        |name: Seq<char>| entry_value(entries, name) is Some,
        |name: Seq<char>| build_value_view(entry_value(entries, name)->0),
    )
}

/// The values given to the build inputs of one primitive instance, by input
/// name.
#[derive(Debug, PartialEq)]
pub struct PrimitiveBuildInput {
    values: Vec<(String, PrimitiveBuildValue)>,
}

impl PrimitiveBuildInput {
    #[verifier::type_invariant]
    spec fn sorted_by_name(self) -> bool {
        strictly_sorted(entry_names(self.values@))
    }

    /// The named values, sorted by name.
    pub closed spec fn entries(&self) -> Seq<(String, PrimitiveBuildValue)> {
        self.values@
    }

    /// Gives a primitive instance the listed values; a later value replaces
    /// an earlier one under the same name.
    pub fn new(values: Vec<(String, PrimitiveBuildValue)>) -> (input: Self)
        ensures
            input@ == listed_values(values@),
    {
        let mut entries: Vec<(String, PrimitiveBuildValue)> = Vec::new();
        let n = values.len();
        let mut i: usize = 0;
        while i < n
            invariant
                n == values@.len(),
                i <= n,
                strictly_sorted(entry_names(entries@)),
                entries_map(entries@) == listed_values(values@.take(i as int)),
            decreases n - i,
        {
            let ghost before = entries@;
            let name = values[i].0.clone();
            let value = copy_build_value(&values[i].1);
            put_entry(&mut entries, name, value);
            proof {
                let prefix = values@.take(i as int + 1);
                assert(prefix.drop_last() =~= values@.take(i as int));
                assert(entries_map(entries@) =~= listed_values(prefix));
            }
            i = i + 1;
        }
        assert(values@.take(n as int) =~= values@);
        PrimitiveBuildInput { values: entries }
    }

    /// A list sorted by name, as the values of a primitive instance.
    pub(crate) fn from_entries(values: Vec<(String, PrimitiveBuildValue)>) -> (input: Self)
        requires
            strictly_sorted(entry_names(values@)),
        ensures
            input.entries() == values@,
    {
        PrimitiveBuildInput { values }
    }

    /// The named values, sorted by name.
    pub(crate) fn as_entries(&self) -> (values: &Vec<(String, PrimitiveBuildValue)>)
        ensures
            values@ == self.entries(),
            strictly_sorted(entry_names(values@)),
    {
        proof {
            use_type_invariant(self);
        }
        &self.values
    }

    /// Returns the value given to one input.
    pub fn value(&self, name: &str) -> (value: Option<&PrimitiveBuildValue>)
        ensures
            match value {
                Some(v) => self@.contains_key(name@) && self@[name@] == build_value_view(*v),
                None => !self@.contains_key(name@),
            },
    {
        proof {
            use_type_invariant(self);
        }
        get_entry(&self.values, name)
    }

    /// Gives one input a value, replacing the value it had.
    pub fn insert(&mut self, name: String, value: PrimitiveBuildValue)
        ensures
            final(self)@ == old(self)@.insert(name@, build_value_view(value)),
    {
        proof {
            use_type_invariant(&*self);
        }
        let ghost key = name@;
        let ghost view = build_value_view(value);
        let mut values: Vec<(String, PrimitiveBuildValue)> = Vec::new();
        std::mem::swap(&mut values, &mut self.values);
        let ghost before = values@;
        put_entry(&mut values, name, value);
        proof {
            assert(entries_map(values@) =~= entries_map(before).insert(key, view));
        }
        self.values = values;
    }
}

impl View for PrimitiveBuildInput {
    type V = Map<Seq<char>, BuildValueView>;

    /// The value given to each input, by name.
    open spec fn view(&self) -> Map<Seq<char>, BuildValueView> {
        entries_map(self.entries())
    }
}

/// Copies a list of named build values.
fn copy_entries(values: &Vec<(String, PrimitiveBuildValue)>) -> (copy: Vec<(String, PrimitiveBuildValue)>)
    ensures
        entry_names(copy@) == entry_names(values@),
        copy@.len() == values@.len(),
        forall|i: int| 0 <= i < values@.len() ==> build_value_view(#[trigger] copy@[i].1) == build_value_view(values@[i].1),
{
    let mut copy: Vec<(String, PrimitiveBuildValue)> = Vec::new();
    let n = values.len();
    let mut i: usize = 0;
    while i < n
        invariant
            n == values@.len(),
            i <= n,
            copy@.len() == i,
            forall|k: int| 0 <= k < i ==> (#[trigger] copy@[k]).0@ == values@[k].0@ && build_value_view(copy@[k].1)
                == build_value_view(values@[k].1),
        decreases n - i,
    {
        copy.push((values[i].0.clone(), copy_build_value(&values[i].1)));
        i = i + 1;
    }
    assert(entry_names(copy@) =~= entry_names(values@));
    copy
}

/// In a list sorted by name, each listed value is the value of its name, and
/// every name with a value is listed.
pub proof fn lemma_entries_map(a: Seq<(String, PrimitiveBuildValue)>)
    requires
        strictly_sorted(entry_names(a)),
    ensures
        forall|i: int| 0 <= i < a.len() ==> entries_map(a).contains_key(#[trigger] a[i].0@) && entries_map(a)[a[i].0@]
            == build_value_view(a[i].1),
        forall|name: Seq<char>| #[trigger] entries_map(a).contains_key(name) ==> exists|i: int|
            0 <= i < a.len() && a[i].0@ == name,
{
    assert forall|i: int| 0 <= i < a.len() implies entries_map(a).contains_key(#[trigger] a[i].0@) && entries_map(
        a,
    )[a[i].0@] == build_value_view(a[i].1) by {
        lemma_sorted_entry(a, i);
    }
    assert forall|name: Seq<char>| #[trigger] entries_map(a).contains_key(name) implies exists|i: int|
        0 <= i < a.len() && a[i].0@ == name by {
        if forall|k: int| 0 <= k < a.len() ==> (#[trigger] a[k]).0@ != name {
            lemma_absent_entry(a, name);
        }
    }
}

/// Listing one more value under a new name adds it to the values.
pub proof fn lemma_entries_map_push(a: Seq<(String, PrimitiveBuildValue)>, e: (String, PrimitiveBuildValue))
    requires
        strictly_sorted(entry_names(a.push(e))),
    ensures
        entries_map(a.push(e)) == entries_map(a).insert(e.0@, build_value_view(e.1)),
{
    let b = a.push(e);
    assert(entry_names(a) =~= entry_names(b).drop_last());
    assert(strictly_sorted(entry_names(a)));
    lemma_entries_map(a);
    lemma_entries_map(b);
    let target = entries_map(a).insert(e.0@, build_value_view(e.1));
    assert forall|name: Seq<char>| #[trigger] entries_map(b).contains_key(name) == target.contains_key(name) && (
    entries_map(b).contains_key(name) ==> entries_map(b)[name] == target[name]) by {
        if name == e.0@ {
            assert(b[a.len() as int].0@ == name);
        } else if entries_map(a).contains_key(name) {
            let i = choose|i: int| 0 <= i < a.len() && a[i].0@ == name;
            assert(b[i] == a[i]);
        } else if entries_map(b).contains_key(name) {
            let i = choose|i: int| 0 <= i < b.len() && b[i].0@ == name;
            if i < a.len() {
                assert(b[i] == a[i]);
            }
        }
    }
    assert(entries_map(b) =~= target);
}

/// A list with the names of a sorted list, whose value at each position is
/// `f` of the name and value there, gives `f` of each name and its value.
pub proof fn lemma_mapped_entries(
    a: Seq<(String, PrimitiveBuildValue)>,
    b: Seq<(String, PrimitiveBuildValue)>,
    f: spec_fn(Seq<char>, BuildValueView) -> BuildValueView,
)
    requires
        strictly_sorted(entry_names(a)),
        entry_names(a) == entry_names(b),
        a.len() == b.len(),
        forall|i: int| 0 <= i < a.len() ==> build_value_view(#[trigger] b[i].1) == f(a[i].0@, build_value_view(a[i].1)),
    ensures
        entries_map(b) == Map::new(
            |name: Seq<char>| entries_map(a).contains_key(name),
            |name: Seq<char>| f(name, entries_map(a)[name]),
        ),
{
    let target = Map::new(
        |name: Seq<char>| entries_map(a).contains_key(name),
        |name: Seq<char>| f(name, entries_map(a)[name]),
    );
    assert forall|name: Seq<char>| #[trigger] entries_map(b).contains_key(name) == target.contains_key(name) && (
    entries_map(b).contains_key(name) ==> entries_map(b)[name] == target[name]) by {
        if exists|k: int| 0 <= k < a.len() && (#[trigger] a[k]).0@ == name {
            let k = choose|k: int| 0 <= k < a.len() && (#[trigger] a[k]).0@ == name;
            assert(entry_names(a)[k] == entry_names(b)[k]);
            lemma_sorted_entry(a, k);
            lemma_sorted_entry(b, k);
        } else {
            assert forall|k: int| 0 <= k < b.len() implies (#[trigger] b[k]).0@ != name by {
                assert(entry_names(a)[k] == entry_names(b)[k]);
            }
            lemma_absent_entry(a, name);
            lemma_absent_entry(b, name);
        }
    }
    assert(entries_map(b) =~= target);
}

impl Clone for PrimitiveBuildInput {
    /// The same values.
    fn clone(&self) -> (copy: Self)
        ensures
            copy@ == self@,
    {
        proof {
            use_type_invariant(self);
        }
        let values = copy_entries(&self.values);
        let copy = PrimitiveBuildInput { values };
        proof {
            lemma_mapped_entries(self.values@, copy.values@, |name: Seq<char>, v: BuildValueView| v);
            assert(copy@ =~= self@);
        }
        copy
    }
}

impl Default for PrimitiveBuildInput {
    /// No input has a value.
    fn default() -> (input: Self)
        ensures
            input@ == Map::<Seq<char>, BuildValueView>::empty(),
    {
        let input = PrimitiveBuildInput { values: Vec::new() };
        assert(input@ =~= Map::<Seq<char>, BuildValueView>::empty());
        input
    }
}

/// One declared build input of a primitive.
#[derive(Debug, Clone, PartialEq)]
pub struct PrimitiveBuildInputSpec {
    pub name: String,
    pub kind: PrimitiveBuildInputKind,
    pub required: bool,
    pub source: Option<String>,
}

/// The build inputs of a primitive, in declaration order.
#[derive(Debug, Clone, PartialEq)]
pub struct PrimitiveBuildSpec {
    pub inputs: Vec<PrimitiveBuildInputSpec>,
    pub sweep_mode: SweepMode,
}

/// A catalogued primitive: its device type, when it has one, and its build
/// specification, if it has one.
#[derive(Debug, Clone, PartialEq)]
pub struct PrimitiveManifest {
    pub name: String,
    pub transistor_type: Option<String>,
    pub build: Option<PrimitiveBuildSpec>,
}

/// Primitives available to macros, looked up by name.
#[derive(Debug, Clone, PartialEq)]
pub struct PrimitiveCatalog {
    pub primitives: Vec<PrimitiveManifest>,
}

/// Primitive `i` is named `name`.
pub open spec fn primitive_named(primitives: Seq<PrimitiveManifest>, name: Seq<char>) -> spec_fn(int) -> bool {
    |i: int| primitives[i].name@ == name
}

/// The first primitive named `name`, if any, by position.
pub open spec fn primitive_index(primitives: Seq<PrimitiveManifest>, name: Seq<char>) -> Option<int> {
    let pred = primitive_named(primitives, name);
    if any_below(primitives.len() as int, pred) {
        Some(first_index(primitives.len() as int, pred))
    } else {
        None
    }
}

/// A found primitive is in range and carries the name.
pub proof fn lemma_primitive_index(primitives: Seq<PrimitiveManifest>, name: Seq<char>)
    ensures
        primitive_index(primitives, name) matches Some(i) ==> 0 <= i < primitives.len() && primitives[i].name@
            == name,
{
    let pred = primitive_named(primitives, name);
    if any_below(primitives.len() as int, pred) {
        lemma_first_exists(primitives.len() as int, pred);
        let i = first_index(primitives.len() as int, pred);
        assert(pred(i));
    }
}

impl PrimitiveCatalog {
    /// Finds a primitive by name.
    pub fn get(&self, name: &str) -> (primitive: Option<&PrimitiveManifest>)
        ensures
            match primitive_index(self.primitives@, name@) {
                Some(i) => primitive == Some(&self.primitives@[i]),
                None => primitive is None,
            },
    {
        let ghost pred = primitive_named(self.primitives@, name@);
        let n = self.primitives.len();
        let mut i: usize = 0;
        while i < n
            invariant
                n == self.primitives@.len(),
                i <= n,
                pred == primitive_named(self.primitives@, name@),
                forall|k: int| 0 <= k < i ==> !#[trigger] pred(k),
            decreases n - i,
        {
            if str_eq(self.primitives[i].name.as_str(), name) {
                proof {
                    lemma_first_index(n as int, pred, i as int);
                }
                return Some(&self.primitives[i]);
            }
            i = i + 1;
        }
        None
    }
}

} // verus!
