//! Call stack implementation
//!
//! This module provides the call stack for function execution:
//! - [`Stack`]: The call stack containing frames
//! - [`StackFrame`]: A single function's activation record
//! - [`LocalVar`]: A local variable with type and initialization state
//! - [`InitState`]: Per-field initialization tracking for structs
//!
//! # Initialization Tracking
//!
//! Local variables track initialization state at a granular level:
//! - Simple types (`int`, `char`): single `Initialized` / `Uninitialized` state
//! - Structs: per-field tracking with [`InitState::PartiallyInitialized`]
//!
//! This enables detection of uninitialized reads even for partially-initialized structs.
//!
//! The fields of a partially initialized struct are kept as a list of
//! `(name, state)` pairs in which no name occurs twice.
use vstd::prelude::*;
use super::names::NameMap;
use super::value::Value;
use crate::parser::ast::{SourceLocation, Type};

verus! {

/// Initialization state tracking for variables
#[derive(Debug, PartialEq)]
pub enum InitState {
    Uninitialized,
    PartiallyInitialized(Vec<(String, InitState)>),  // For structs: field name -> init state
    Initialized,
}

/// No two entries name the same field.
pub open spec fn names_distinct(fs: Seq<(String, InitState)>) -> bool {
    forall|i: int, j: int|
        0 <= i < j < fs.len() ==> (#[trigger] fs[i]).0@ != (#[trigger] fs[j]).0@
}

/// The entries as a map from field name to state.
pub open spec fn field_map(fs: Seq<(String, InitState)>) -> Map<Seq<char>, InitState> {
    Map::new(
        |k: Seq<char>| exists|i: int| 0 <= i < fs.len() && (#[trigger] fs[i]).0@ == k,
        |k: Seq<char>| fs[choose|i: int| 0 <= i < fs.len() && (#[trigger] fs[i]).0@ == k].1,
    )
}

/// Whether every field in the map is initialized.
pub open spec fn all_initialized(m: Map<Seq<char>, InitState>) -> bool {
    forall|k: Seq<char>| #[trigger] m.contains_key(k) ==> m[k] is Initialized
}

/// In a list with distinct names, each entry is what the map gives for its
/// name.
proof fn lemma_field_map_entry(fs: Seq<(String, InitState)>, q: int)
    requires
        names_distinct(fs),
        0 <= q < fs.len(),
    ensures
        field_map(fs).contains_key(fs[q].0@),
        field_map(fs)[fs[q].0@] == fs[q].1,
{
    let k = fs[q].0@;
    assert(fs[q].0@ == k);
    let c = choose|i: int| 0 <= i < fs.len() && (#[trigger] fs[i]).0@ == k;
    if c != q {
        if c < q {
            assert(fs[c].0@ != fs[q].0@);
        } else {
            assert(fs[q].0@ != fs[c].0@);
        }
    }
}

/// Replacing the state of an entry with the same name updates the map at
/// that name and keeps the names distinct.
proof fn lemma_field_map_update(fs: Seq<(String, InitState)>, q: int, e: (String, InitState))
    requires
        names_distinct(fs),
        0 <= q < fs.len(),
        e.0@ == fs[q].0@,
    ensures
        names_distinct(fs.update(q, e)),
        field_map(fs.update(q, e)) == field_map(fs).insert(e.0@, e.1),
{
    let fs2 = fs.update(q, e);
    assert forall|a: int, b: int| 0 <= a < b < fs2.len() implies (#[trigger] fs2[a]).0@ != (
    #[trigger] fs2[b]).0@ by {
        assert(fs[a].0@ != fs[b].0@);
    }
    lemma_field_map_entry(fs2, q);
    assert forall|k: Seq<char>| #[trigger] field_map(fs2).contains_key(k) <==> field_map(
        fs,
    ).insert(e.0@, e.1).contains_key(k) by {
        if field_map(fs2).contains_key(k) {
            let i = choose|i: int| 0 <= i < fs2.len() && (#[trigger] fs2[i]).0@ == k;
            if i != q {
                assert(fs[i].0@ == k);
            }
        }
        if field_map(fs).contains_key(k) {
            let i = choose|i: int| 0 <= i < fs.len() && (#[trigger] fs[i]).0@ == k;
            if i != q {
                assert(fs2[i].0@ == k);
            }
        }
    }
    assert forall|k: Seq<char>| #[trigger] field_map(fs2).contains_key(k) implies field_map(fs2)[k]
        == field_map(fs).insert(e.0@, e.1)[k] by {
        let i = choose|i: int| 0 <= i < fs2.len() && (#[trigger] fs2[i]).0@ == k;
        lemma_field_map_entry(fs2, i);
        if i != q {
            lemma_field_map_entry(fs, i);
            assert(fs2[i] == fs[i]);
        }
    }
    assert(field_map(fs2) =~= field_map(fs).insert(e.0@, e.1));
}

/// Whether `after` is what marking `field` of a struct with entries `fs`
/// leaves: `Initialized` once every field is, else the entries with that
/// field marked.
pub open spec fn marked_state(
    fs: Seq<(String, InitState)>,
    field: Seq<char>,
    after: InitState,
) -> bool {
    let m2 = field_map(fs).insert(field, InitState::Initialized);
    &&& all_initialized(m2) ==> after is Initialized
    &&& !all_initialized(m2) ==> (after matches InitState::PartiallyInitialized(fs2) && field_map(
        fs2@,
    ) == m2)
}

/// Whether a field of a variable in state `s` is initialized.
pub open spec fn field_initialized(s: InitState, field: Seq<char>) -> bool {
    match s {
        InitState::PartiallyInitialized(fs) => field_map(fs@).contains_key(field)
            && field_map(fs@)[field] is Initialized,
        InitState::Initialized => true,
        InitState::Uninitialized => false,
    }
}

/// A field reads as initialized once it has been marked.
pub proof fn law_marked_field_is_initialized(
    fs: Seq<(String, InitState)>,
    field: Seq<char>,
    after: InitState,
)
    requires
        marked_state(fs, field, after),
    ensures
        field_initialized(after, field),
{
}

/// Marking a field leaves the others as they were.
pub proof fn law_mark_keeps_other_fields(
    fs: Seq<(String, InitState)>,
    field: Seq<char>,
    other: Seq<char>,
    after: InitState,
)
    requires
        marked_state(fs, field, after),
        other != field,
        field_map(fs).contains_key(other),
    ensures
        field_initialized(after, other) == (field_map(fs)[other] is Initialized),
{
    let m2 = field_map(fs).insert(field, InitState::Initialized);
    assert(m2.contains_key(other) && m2[other] == field_map(fs)[other]);
}

impl InitState {
    /// A struct's fields are named once each.
    pub open spec fn wf(&self) -> bool {
        match self {
            InitState::PartiallyInitialized(fs) => names_distinct(fs@),
            _ => true,
        }
    }

    /// Check if fully initialized
    pub fn is_initialized(&self) -> (r: bool)
        ensures
            r == self is Initialized,
    {
        match self {
            InitState::Initialized => true,
            _ => false,
        }
    }

    /// Create initialization state for a struct with given fields
    pub fn for_struct(fields: &[String]) -> (r: Self)
        ensures
            r.wf(),
            r matches InitState::PartiallyInitialized(fs) && field_map(fs@) == Map::new(
                |k: Seq<char>| exists|j: int| 0 <= j < fields@.len() && (#[trigger] fields@[j])@ == k,
                |k: Seq<char>| InitState::Uninitialized,
            ),
    {
        let mut map: Vec<(String, InitState)> = Vec::new();
        let mut i: usize = 0;
        while i < fields.len()
            invariant
                0 <= i <= fields@.len(),
                names_distinct(map@),
                forall|q: int| 0 <= q < map@.len() ==> (#[trigger] map@[q]).1 is Uninitialized,
                forall|q: int|
                    0 <= q < map@.len() ==> exists|j: int|
                        0 <= j < i && fields@[j]@ == (#[trigger] map@[q]).0@,
                forall|j: int|
                    0 <= j < i ==> exists|q: int|
                        0 <= q < map@.len() && map@[q].0@ == (#[trigger] fields@[j])@,
            decreases fields@.len() - i,
        {
            let name = &fields[i];
            let mut present = false;
            let mut m: usize = 0;
            while m < map.len()
                invariant
                    0 <= m <= map@.len(),
                    present <==> exists|p: int| 0 <= p < m && (#[trigger] map@[p]).0@ == name@,
                decreases map@.len() - m,
            {
                if map[m].0 == *name {
                    present = true;
                }
                m = m + 1;
            }
            let ghost before = map@;
            if !present {
                map.push((name.clone(), InitState::Uninitialized));
                proof {
                    assert forall|a: int, b: int|
                        0 <= a < b < map@.len() implies (#[trigger] map@[a]).0@ != (
                        #[trigger] map@[b]).0@ by {
                        assert(before[a] == map@[a]);
                        if b < map@.len() - 1 {
                            assert(before[b] == map@[b]);
                        }
                    }
                    assert forall|q: int| 0 <= q < map@.len() implies exists|j: int|
                        0 <= j < i + 1 && fields@[j]@ == (#[trigger] map@[q]).0@ by {
                        if q < before.len() {
                            assert(before[q] == map@[q]);
                            let j = choose|j: int| 0 <= j < i && fields@[j]@ == before[q].0@;
                            assert(fields@[j]@ == map@[q].0@);
                        } else {
                            assert(fields@[i as int]@ == map@[q].0@);
                        }
                    }
                    assert forall|j: int| 0 <= j < i + 1 implies exists|q: int|
                        0 <= q < map@.len() && map@[q].0@ == (#[trigger] fields@[j])@ by {
                        if j < i {
                            let q = choose|q: int| 0 <= q < before.len() && before[q].0@ == fields@[j]@;
                            assert(map@[q] == before[q]);
                        } else {
                            assert(map@[map@.len() - 1].0@ == fields@[j]@);
                        }
                    }
                }
            } else {
                proof {
                    assert forall|q: int| 0 <= q < map@.len() implies exists|j: int|
                        0 <= j < i + 1 && fields@[j]@ == (#[trigger] map@[q]).0@ by {
                        let j = choose|j: int| 0 <= j < i && fields@[j]@ == map@[q].0@;
                        assert(fields@[j]@ == map@[q].0@);
                    }
                    assert forall|j: int| 0 <= j < i + 1 implies exists|q: int|
                        0 <= q < map@.len() && map@[q].0@ == (#[trigger] fields@[j])@ by {
                        if j == i {
                            let p = choose|p: int| 0 <= p < m && (#[trigger] map@[p]).0@ == name@;
                            assert(map@[p].0@ == fields@[j]@);
                        }
                    }
                }
            }
            i = i + 1;
        }
        proof {
            let target = Map::new(
                |k: Seq<char>| exists|j: int| 0 <= j < fields@.len() && (#[trigger] fields@[j])@ == k,
                |k: Seq<char>| InitState::Uninitialized,
            );
            assert forall|k: Seq<char>| #[trigger] field_map(map@).contains_key(k) implies target.contains_key(k)
                && field_map(map@)[k] == InitState::Uninitialized by {
                let q = choose|q: int| 0 <= q < map@.len() && (#[trigger] map@[q]).0@ == k;
                assert(map@[q].1 is Uninitialized);
                let j = choose|j: int| 0 <= j < i && fields@[j]@ == map@[q].0@;
                assert(fields@[j]@ == k);
            }
            assert forall|k: Seq<char>| #[trigger] target.contains_key(k) implies field_map(map@).contains_key(k) by {
                let j = choose|j: int| 0 <= j < fields@.len() && (#[trigger] fields@[j])@ == k;
                let q = choose|q: int| 0 <= q < map@.len() && map@[q].0@ == fields@[j]@;
                assert(map@[q].0@ == k);
            }
            assert(field_map(map@) =~= target);
        }
        InitState::PartiallyInitialized(map)
    }
}

impl InitState {
    /// Mark a field as initialized (for structs)
    pub fn mark_field_initialized(&mut self, field: &str) -> (r: Result<(), String>)
        requires
            old(self).wf(),
        ensures
            final(self).wf(),
            match *old(self) {
                InitState::PartiallyInitialized(fs) => if field_map(fs@).contains_key(field@) {
                    &&& r is Ok
                    &&& marked_state(fs@, field@, *final(self))
                } else {
                    &&& r matches Err(e) && e@ == "Unknown field: "@ + field@
                    &&& *final(self) == *old(self)
                },
                _ => {
                    &&& r matches Err(e) && e@ == "Not a struct"@
                    &&& *final(self) == *old(self)
                },
            },
    {
        let mut cur = InitState::Uninitialized;
        std::mem::swap(&mut cur, self);
        match cur {
            InitState::PartiallyInitialized(mut fs) => {
                let key = String::from_str(field);
                let mut found: Option<usize> = None;
                let mut i: usize = 0;
                while i < fs.len()
                    invariant
                        0 <= i <= fs@.len(),
                        match found {
                            None => forall|q: int| 0 <= q < i ==> (#[trigger] fs@[q]).0@ != key@,
                            Some(q) => q < fs@.len() && fs@[q as int].0@ == key@,
                        },
                    decreases fs@.len() - i,
                {
                    if found.is_none() && fs[i].0 == key {
                        found = Some(i);
                    }
                    i = i + 1;
                }
                match found {
                    None => {
                        proof {
                            if field_map(fs@).contains_key(field@) {
                                let q = choose|q: int| 0 <= q < fs@.len() && (#[trigger] fs@[q]).0@ == field@;
                                assert(fs@[q].0@ != key@);
                            }
                        }
                        let mut e = String::from_str("Unknown field: ");
                        e.append(field);
                        *self = InitState::PartiallyInitialized(fs);
                        Err(e)
                    },
                    Some(q) => {
                        let ghost before = fs@;
                        proof {
                            lemma_field_map_update(before, q as int, (key, InitState::Initialized));
                            lemma_field_map_entry(before, q as int);
                        }
                        fs.set(q, (key, InitState::Initialized));
                        let mut all = true;
                        let mut j: usize = 0;
                        while j < fs.len()
                            invariant
                                0 <= j <= fs@.len(),
                                all <==> forall|p: int| 0 <= p < j ==> (#[trigger] fs@[p]).1 is Initialized,
                            decreases fs@.len() - j,
                        {
                            if !fs[j].1.is_initialized() {
                                all = false;
                            }
                            j = j + 1;
                        }
                        proof {
                            let m2 = field_map(fs@);
                            if all {
                                assert forall|k: Seq<char>| #[trigger] m2.contains_key(k) implies m2[k] is Initialized by {
                                    let p = choose|p: int| 0 <= p < fs@.len() && (#[trigger] fs@[p]).0@ == k;
                                    lemma_field_map_entry(fs@, p);
                                }
                            } else {
                                let p = choose|p: int| 0 <= p < fs@.len() && !((#[trigger] fs@[p]).1 is Initialized);
                                lemma_field_map_entry(fs@, p);
                                assert(m2.contains_key(fs@[p].0@));
                            }
                        }
                        if all {
                            *self = InitState::Initialized;
                        } else {
                            *self = InitState::PartiallyInitialized(fs);
                        }
                        Ok(())
                    },
                }
            },
            other => {
                *self = other;
                Err(String::from_str("Not a struct"))
            },
        }
    }

    /// Check if a specific field is initialized
    pub fn is_field_initialized(&self, field: &str) -> (r: bool)
        requires
            self.wf(),
        ensures
            r == field_initialized(*self, field@),
    {
        match self {
            InitState::PartiallyInitialized(fs) => {
                let key = String::from_str(field);
                let mut i: usize = 0;
                while i < fs.len()
                    invariant
                        0 <= i <= fs@.len(),
                        names_distinct(fs@),
                        key@ == field@,
                        *self == InitState::PartiallyInitialized(*fs),
                        forall|q: int| 0 <= q < i ==> (#[trigger] fs@[q]).0@ != key@,
                    decreases fs@.len() - i,
                {
                    if fs[i].0 == key {
                        proof {
                            lemma_field_map_entry(fs@, i as int);
                        }
                        return fs[i].1.is_initialized();
                    }
                    i = i + 1;
                }
                proof {
                    if field_map(fs@).contains_key(field@) {
                        let q = choose|q: int| 0 <= q < fs@.len() && (#[trigger] fs@[q]).0@ == field@;
                        assert(fs@[q].0@ != key@);
                    }
                }
                false
            },
            InitState::Initialized => true,
            InitState::Uninitialized => false,
        }
    }
}


/// Local variable on the stack
#[derive(Debug)]
pub struct LocalVar {
    pub value: Value,
    pub var_type: Type,
    pub is_const: bool,
    pub init_state: InitState,
    pub address: u64,  // Virtual address for this variable
}

impl LocalVar {
    pub fn new(var_type: Type, init_state: InitState, address: u64) -> (r: Self)
        ensures
            r.value is Uninitialized,
            r.var_type == var_type,
            r.is_const == var_type.is_const,
            r.init_state == init_state,
            r.address == address,
    {
        let is_const = var_type.is_const;
        LocalVar { value: Value::Uninitialized, var_type, is_const, init_state, address }
    }
}

/// What a scope remembers: the variables its declarations hid, and the
/// names it declared afresh.
#[derive(Debug)]
struct ScopeData {
    shadowed: Vec<(String, LocalVar)>,
    declared: Vec<String>,
}

/// The mathematical value of a scope.
#[verifier::ext_equal]
pub struct ScopeView {
    pub shadowed: Seq<(Seq<char>, LocalVar)>,
    pub declared: Seq<Seq<char>>,
}

/// The mathematical value of a frame's variables: the variables by name,
/// the names in declaration order, and the open scopes, innermost last.
#[verifier::ext_equal]
pub struct FrameView {
    pub locals: Map<Seq<char>, LocalVar>,
    pub order: Seq<Seq<char>>,
    pub scopes: Seq<ScopeView>,
}

/// The text of each string.
pub open spec fn texts(v: Seq<String>) -> Seq<Seq<char>> {
    v.map_values(|s: String| s@)
}

spec fn scope_view(d: ScopeData) -> ScopeView {
    ScopeView {
        shadowed: d.shadowed@.map_values(|e: (String, LocalVar)| (e.0@, e.1)),
        declared: texts(d.declared@),
    }
}

/// Stack frame for a function call
#[derive(Debug)]
pub struct StackFrame {
    pub function_name: String,
    pub locals: NameMap<LocalVar>,
    pub return_location: Option<SourceLocation>,  // Where to return to
    pub insertion_order: Vec<String>,  // Track order of variable declarations
    scope_stack: Vec<ScopeData>,
}

impl View for StackFrame {
    type V = FrameView;

    closed spec fn view(&self) -> FrameView {
        FrameView {
            locals: self.locals@,
            order: texts(self.insertion_order@),
            scopes: self.scope_stack@.map_values(|d: ScopeData| scope_view(d)),
        }
    }
}

/// Entering a scope opens an empty one.
pub open spec fn push_scope_spec(f: FrameView) -> FrameView {
    FrameView {
        locals: f.locals,
        order: f.order,
        scopes: f.scopes.push(ScopeView { shadowed: Seq::empty(), declared: Seq::empty() }),
    }
}

/// Declaring `name` as `var`: inside a scope, a variable it hides is
/// remembered, and a fresh name is remembered as declared there and added to
/// the declaration order; at the top level a fresh name joins the order.
pub open spec fn declare_spec(f: FrameView, name: Seq<char>, var: LocalVar) -> FrameView {
    if f.scopes.len() > 0 {
        let top = f.scopes.last();
        if f.locals.contains_key(name) {
            FrameView {
                locals: f.locals.insert(name, var),
                order: f.order,
                scopes: f.scopes.drop_last().push(
                    ScopeView {
                        shadowed: top.shadowed.push((name, f.locals[name])),
                        declared: top.declared,
                    },
                ),
            }
        } else {
            FrameView {
                locals: f.locals.insert(name, var),
                order: f.order.push(name),
                scopes: f.scopes.drop_last().push(
                    ScopeView { shadowed: top.shadowed, declared: top.declared.push(name) },
                ),
            }
        }
    } else {
        FrameView {
            locals: f.locals.insert(name, var),
            order: if f.locals.contains_key(name) {
                f.order
            } else {
                f.order.push(name)
            },
            scopes: f.scopes,
        }
    }
}

/// The order without the last occurrence of `name`.
pub open spec fn remove_last(order: Seq<Seq<char>>, name: Seq<char>) -> Seq<Seq<char>>
    decreases order.len(),
{
    if order.len() == 0 {
        order
    } else if order.last() == name {
        order.drop_last()
    } else {
        remove_last(order.drop_last(), name).push(order.last())
    }
}

/// The variables without the names declared in a scope, one after the other.
pub open spec fn remove_names(locals: Map<Seq<char>, LocalVar>, names: Seq<Seq<char>>) -> Map<
    Seq<char>,
    LocalVar,
>
    decreases names.len(),
{
    if names.len() == 0 {
        locals
    } else {
        remove_names(locals, names.drop_last()).remove(names.last())
    }
}

/// The order without the last occurrence of each name, one after the other.
pub open spec fn remove_from_order(order: Seq<Seq<char>>, names: Seq<Seq<char>>) -> Seq<
    Seq<char>,
>
    decreases names.len(),
{
    if names.len() == 0 {
        order
    } else {
        remove_last(remove_from_order(order, names.drop_last()), names.last())
    }
}

/// The variables with the hidden ones put back, one after the other.
pub open spec fn restore(
    locals: Map<Seq<char>, LocalVar>,
    shadowed: Seq<(Seq<char>, LocalVar)>,
) -> Map<Seq<char>, LocalVar>
    decreases shadowed.len(),
{
    if shadowed.len() == 0 {
        locals
    } else {
        restore(locals, shadowed.drop_last()).insert(shadowed.last().0, shadowed.last().1)
    }
}

/// Leaving the innermost scope: its fresh names go, the variables it hid
/// come back.
pub open spec fn pop_scope_spec(f: FrameView) -> FrameView {
    if f.scopes.len() == 0 {
        f
    } else {
        let top = f.scopes.last();
        FrameView {
            locals: restore(remove_names(f.locals, top.declared), top.shadowed),
            order: remove_from_order(f.order, top.declared),
            scopes: f.scopes.drop_last(),
        }
    }
}

/// The index of the last occurrence of `name`.
fn last_position(order: &Vec<String>, name: &String) -> (r: Option<usize>)
    ensures
        match r {
            Some(i) => i < order@.len() && order@[i as int]@ == name@ && forall|j: int|
                i < j < order@.len() ==> (#[trigger] order@[j])@ != name@,
            None => forall|j: int| 0 <= j < order@.len() ==> (#[trigger] order@[j])@ != name@,
        },
{
    let mut i = order.len();
    while i > 0
        invariant
            0 <= i <= order@.len(),
            forall|j: int| i <= j < order@.len() ==> (#[trigger] order@[j])@ != name@,
        decreases i,
    {
        if order[i - 1] == *name {
            return Some(i - 1);
        }
        i = i - 1;
    }
    None
}

/// Removing the last occurrence of a name removes the one at its last position.
pub(crate) proof fn lemma_remove_last_at(order: Seq<Seq<char>>, name: Seq<char>, i: int)
    requires
        0 <= i < order.len(),
        order[i] == name,
        forall|j: int| i < j < order.len() ==> order[j] != name,
    ensures
        remove_last(order, name) == order.remove(i),
    decreases order.len(),
{
    if i < order.len() - 1 {
        lemma_remove_last_at(order.drop_last(), name, i);
        assert(order.drop_last().remove(i).push(order.last()) =~= order.remove(i));
    } else {
        assert(order.drop_last() =~= order.remove(i));
    }
}

proof fn lemma_remove_last_absent(order: Seq<Seq<char>>, name: Seq<char>)
    requires
        forall|j: int| 0 <= j < order.len() ==> order[j] != name,
    ensures
        remove_last(order, name) == order,
    decreases order.len(),
{
    if order.len() > 0 {
        assert(order.last() == order[order.len() - 1]);
        lemma_remove_last_absent(order.drop_last(), name);
        assert(order.drop_last().push(order.last()) =~= order);
    }
}

impl StackFrame {
    /// The name of the function the frame belongs to.
    pub closed spec fn name(&self) -> Seq<char> {
        self.function_name@
    }

    /// Where execution returns to when the frame is left.
    pub closed spec fn return_to(&self) -> Option<SourceLocation> {
        self.return_location
    }

    /// Its variables are named once each.
    pub closed spec fn wf(&self) -> bool {
        self.locals.wf()
    }

    /// The function the frame belongs to.
    pub fn function_name(&self) -> (r: &String)
        ensures
            r@ == self.name(),
    {
        &self.function_name
    }

    /// Where execution returns to when the frame is left.
    pub fn return_location(&self) -> (r: Option<SourceLocation>)
        ensures
            r == self.return_to(),
    {
        self.return_location
    }

    /// The names of the frame's variables in declaration order.
    pub fn declared_names(&self) -> (r: &Vec<String>)
        ensures
            texts(r@) == self@.order,
    {
        &self.insertion_order
    }

    pub fn new(function_name: String, return_location: Option<SourceLocation>) -> (r: Self)
        ensures
            r.wf(),
            r.name() == function_name@,
            r.return_to() == return_location,
            r@.locals == Map::<Seq<char>, LocalVar>::empty(),
            r@.order == Seq::<Seq<char>>::empty(),
            r@.scopes == Seq::<ScopeView>::empty(),
    {
        let r = StackFrame {
            function_name,
            locals: NameMap::new(),
            return_location,
            insertion_order: Vec::new(),
            scope_stack: Vec::new(),
        };
        assert(r@.order =~= Seq::<Seq<char>>::empty());
        assert(r@.scopes =~= Seq::<ScopeView>::empty());
        r
    }

    /// Enter a new scope
    pub fn push_scope(&mut self)
        requires
            old(self).wf(),
        ensures
            final(self).wf(),
            final(self)@ == push_scope_spec(old(self)@),
            final(self).name() == old(self).name(),
            final(self).return_to() == old(self).return_to(),
    {
        self.scope_stack.push(ScopeData { shadowed: Vec::new(), declared: Vec::new() });
        proof {
            assert(self.scope_stack@.last().shadowed@ =~= Seq::<(String, LocalVar)>::empty());
            assert(self.scope_stack@.last().declared@ =~= Seq::<String>::empty());
            assert(scope_view(self.scope_stack@.last()).shadowed =~= Seq::<(Seq<char>, LocalVar)>::empty());
            assert(scope_view(self.scope_stack@.last()).declared =~= Seq::<Seq<char>>::empty());
            assert(self@.scopes =~= push_scope_spec(old(self)@).scopes);
        }
    }

    /// Exit the current scope
    pub fn pop_scope(&mut self)
        requires
            old(self).wf(),
        ensures
            final(self).wf(),
            final(self)@ == pop_scope_spec(old(self)@),
            final(self).name() == old(self).name(),
            final(self).return_to() == old(self).return_to(),
    {
        let ghost f = self@;
        match self.scope_stack.pop() {
            None => {
                assert(self@.scopes =~= f.scopes);
            },
            Some(mut scope) => {
                let ghost sv = scope_view(scope);
                let ghost rest_stack = self.scope_stack@;
                proof {
                    assert(self@.scopes =~= f.scopes.drop_last());
                    assert(rest_stack.map_values(|d: ScopeData| scope_view(d)) =~= f.scopes.drop_last());
                    assert(sv == f.scopes.last());
                }
                // Remove variables declared in this scope
                let mut i: usize = 0;
                proof {
                    assert(sv.declared.take(0) =~= Seq::<Seq<char>>::empty());
                }
                while i < scope.declared.len()
                    invariant
                        0 <= i <= scope.declared@.len(),
                        sv.declared == texts(scope.declared@),
                        self.scope_stack@ == rest_stack,
                        self.function_name == old(self).function_name,
                        self.return_location == old(self).return_location,
                        self.locals.wf(),
                        self.locals@ == remove_names(f.locals, sv.declared.take(i as int)),
                        texts(self.insertion_order@) == remove_from_order(
                            f.order,
                            sv.declared.take(i as int),
                        ),
                    decreases scope.declared@.len() - i,
                {
                    let name = &scope.declared[i];
                    proof {
                        assert(sv.declared.take(i + 1).drop_last() =~= sv.declared.take(i as int));
                        assert(sv.declared.take(i + 1).last() == name@);
                    }
                    self.locals.remove(name.as_str());
                    match last_position(&self.insertion_order, name) {
                        Some(pos) => {
                            let ghost before = self.insertion_order@;
                            self.insertion_order.remove(pos);
                            proof {
                                assert(texts(before)[pos as int] == name@);
                                assert forall|j: int| pos < j < texts(before).len() implies texts(before)[j] != name@ by {
                                    assert(before[j]@ != name@);
                                }
                                lemma_remove_last_at(texts(before), name@, pos as int);
                                assert(texts(self.insertion_order@) =~= texts(before).remove(pos as int));
                            }
                        },
                        None => {
                            proof {
                                let t = texts(self.insertion_order@);
                                assert forall|j: int| 0 <= j < t.len() implies t[j] != name@ by {
                                    assert(self.insertion_order@[j]@ != name@);
                                }
                                lemma_remove_last_absent(t, name@);
                            }
                        },
                    }
                    i = i + 1;
                }
                proof {
                    assert(sv.declared.take(i as int) =~= sv.declared);
                }
                // Restore shadowed variables
                let ghost removed = self.locals@;
                let ghost n = scope.shadowed@.len();
                proof {
                    assert(sv.shadowed.take(0) =~= Seq::<(Seq<char>, LocalVar)>::empty());
                }
                while scope.shadowed.len() > 0
                    invariant
                        scope.shadowed@.len() <= n,
                        n == sv.shadowed.len(),
                        self.scope_stack@ == rest_stack,
                        self.function_name == old(self).function_name,
                        self.return_location == old(self).return_location,
                        texts(self.insertion_order@) == remove_from_order(f.order, sv.declared),
                        forall|k: int|
                            0 <= k < scope.shadowed@.len() ==> (#[trigger] scope.shadowed@[k]).0@
                                == sv.shadowed[n - scope.shadowed@.len() + k].0 && scope.shadowed@[k].1
                                == sv.shadowed[n - scope.shadowed@.len() + k].1,
                        self.locals.wf(),
                        self.locals@ == restore(removed, sv.shadowed.take(n - scope.shadowed@.len())),
                    decreases scope.shadowed@.len(),
                {
                    let ghost done = n - scope.shadowed@.len();
                    let ghost rest = scope.shadowed@;
                    let (name, var) = scope.shadowed.remove(0);
                    proof {
                        assert(sv.shadowed.take(done + 1).drop_last() =~= sv.shadowed.take(done));
                        assert(sv.shadowed.take(done + 1).last() == sv.shadowed[done]);
                        assert(rest[0].0@ == sv.shadowed[done].0);
                        assert forall|k: int| 0 <= k < scope.shadowed@.len() implies (
                        #[trigger] scope.shadowed@[k]).0@ == sv.shadowed[n - scope.shadowed@.len()
                            + k].0 && scope.shadowed@[k].1 == sv.shadowed[n
                            - scope.shadowed@.len() + k].1 by {
                            assert(scope.shadowed@[k] == rest[k + 1]);
                        }
                    }
                    self.locals.insert(name, var);
                }
                proof {
                    assert(sv.shadowed.take(n as int) =~= sv.shadowed);
                    assert(self@.locals == pop_scope_spec(f).locals);
                    assert(self@.order == pop_scope_spec(f).order);
                    assert(self@.scopes =~= rest_stack.map_values(|d: ScopeData| scope_view(d)));
                    assert(self@.scopes =~= pop_scope_spec(f).scopes);
                }
            },
        }
    }
}

impl StackFrame {
    /// Declare a new local variable
    pub fn declare_var(
        &mut self,
        name: String,
        var_type: Type,
        init_state: InitState,  // Passed by value
        address: u64,
    )
        requires
            old(self).wf(),
        ensures
            final(self).wf(),
            final(self)@ == declare_spec(
                old(self)@,
                name@,
                (LocalVar {
                    value: Value::Uninitialized,
                    var_type,
                    is_const: var_type.is_const,
                    init_state,
                    address,
                }),
            ),
            final(self).name() == old(self).name(),
            final(self).return_to() == old(self).return_to(),
    {
        let ghost f = self@;
        let new_var = LocalVar::new(var_type, init_state, address);
        let ghost v = new_var;
        // Handle scoping if we are in a nested scope
        match self.scope_stack.pop() {
            Some(mut scope) => {
                let ghost sv = scope_view(scope);
                let ghost rest_stack = self.scope_stack@;
                proof {
                    assert(rest_stack.map_values(|d: ScopeData| scope_view(d)) =~= f.scopes.drop_last());
                }
                match self.locals.insert(name.clone(), new_var) {
                    Some(old_var) => {
                        // If variable existed, track it as shadowed
                        scope.shadowed.push((name, old_var));
                        proof {
                            assert(scope_view(scope).shadowed =~= sv.shadowed.push((name@, f.locals[name@])));
                        }
                    },
                    None => {
                        // New variable in this scope
                        scope.declared.push(name.clone());
                        self.insertion_order.push(name);
                        proof {
                            assert(scope_view(scope).declared =~= sv.declared.push(name@));
                            assert(self@.order =~= f.order.push(name@));
                        }
                    },
                }
                self.scope_stack.push(scope);
                proof {
                    assert(self@.scopes =~= declare_spec(f, name@, v).scopes);
                }
            },
            None => {
                // Top-level function scope
                if !self.locals.contains_key(name.as_str()) {
                    self.insertion_order.push(name.clone());
                    assert(self@.order =~= f.order.push(name@));
                }
                self.locals.insert(name, new_var);
                assert(self@.scopes =~= f.scopes);
            },
        }
    }

    /// Get a local variable
    pub fn get_var(&self, name: &str) -> (r: Option<&LocalVar>)
        requires
            self.wf(),
        ensures
            match r {
                Some(v) => self@.locals.contains_key(name@) && *v == self@.locals[name@],
                None => !self@.locals.contains_key(name@),
            },
    {
        self.locals.get(name)
    }

    /// Get a mutable reference to a local variable
    pub fn get_var_mut(&mut self, name: &str) -> (r: Option<&mut LocalVar>)
        requires
            old(self).wf(),
        ensures
            match r {
                Some(v) => {
                    &&& old(self)@.locals.contains_key(name@)
                    &&& *v == old(self)@.locals[name@]
                    &&& final(self).wf()
                    &&& final(self)@.locals == old(self)@.locals.insert(name@, *final(v))
                    &&& final(self)@.order == old(self)@.order
                    &&& final(self)@.scopes == old(self)@.scopes
                },
                None => !old(self)@.locals.contains_key(name@) && *final(self) == *old(self),
            },
    {
        self.locals.get_mut(name)
    }
}

/// The call stack
#[derive(Debug)]
pub struct Stack {
    frames: Vec<StackFrame>,
}

impl View for Stack {
    type V = Seq<StackFrame>;

    closed spec fn view(&self) -> Seq<StackFrame> {
        self.frames@
    }
}

impl Stack {
    /// Every frame is well formed.
    pub open spec fn wf(&self) -> bool {
        forall|i: int| 0 <= i < self@.len() ==> (#[trigger] self@[i]).wf()
    }

    pub fn new() -> (r: Self)
        ensures
            r.wf(),
            r@ == Seq::<StackFrame>::empty(),
    {
        Stack { frames: Vec::new() }
    }

    /// Push a new stack frame
    pub fn push_frame(&mut self, function_name: String, return_location: Option<SourceLocation>)
        requires
            old(self).wf(),
        ensures
            final(self).wf(),
            final(self)@.len() == old(self)@.len() + 1,
            final(self)@.drop_last() == old(self)@,
            final(self)@.last().name() == function_name@,
            final(self)@.last().return_to() == return_location,
            final(self)@.last()@.locals == Map::<Seq<char>, LocalVar>::empty(),
            final(self)@.last()@.order == Seq::<Seq<char>>::empty(),
            final(self)@.last()@.scopes == Seq::<ScopeView>::empty(),
    {
        self.frames.push(StackFrame::new(function_name, return_location));
        assert(self@.drop_last() =~= old(self)@);
    }

    /// Pop the top stack frame
    pub fn pop_frame(&mut self) -> (r: Option<StackFrame>)
        requires
            old(self).wf(),
        ensures
            final(self).wf(),
            old(self)@.len() == 0 ==> r is None && final(self)@ == old(self)@,
            old(self)@.len() > 0 ==> r == Some(old(self)@.last()) && final(self)@
                == old(self)@.drop_last(),
    {
        let r = self.frames.pop();
        proof {
            if old(self)@.len() > 0 {
                assert(self@ =~= old(self)@.drop_last());
            }
        }
        r
    }

    /// Get the current (top) frame
    pub fn current_frame(&self) -> (r: Option<&StackFrame>)
        requires
            self.wf(),
        ensures
            self@.len() == 0 ==> r is None,
            self@.len() > 0 ==> r == Some(&self@.last()) && self@.last().wf(),
    {
        let n = self.frames.len();
        if n == 0 {
            None
        } else {
            Some(&self.frames[n - 1])
        }
    }

    /// Get a mutable reference to the current frame
    pub fn current_frame_mut(&mut self) -> (r: Option<&mut StackFrame>)
        requires
            old(self).wf(),
        ensures
            old(self)@.len() == 0 ==> r is None && final(self)@ == old(self)@,
            old(self)@.len() > 0 ==> {
                &&& r matches Some(fr)
                &&& *fr == old(self)@.last()
                &&& fr.wf()
                &&& final(self)@ == old(self)@.drop_last().push(*final(fr))
            },
    {
        let n = self.frames.len();
        if n == 0 {
            None
        } else {
            let r = &mut self.frames[n - 1];
            proof {
                assert(old(self)@.update(n - 1, *final(r)) =~= old(self)@.drop_last().push(*final(r)));
            }
            Some(r)
        }
    }

    /// Get all frames (for UI display)
    pub fn frames(&self) -> (r: &[StackFrame])
        ensures
            r@ == self@,
    {
        self.frames.as_slice()
    }

    /// Get the depth of the call stack
    pub fn depth(&self) -> (r: usize)
        ensures
            r == self@.len(),
    {
        self.frames.len()
    }

    /// Check if stack is empty
    pub fn is_empty(&self) -> (r: bool)
        ensures
            r == (self@.len() == 0),
    {
        self.frames.len() == 0
    }

    /// Get a mutable reference to a specific frame by index
    pub fn frame_mut(&mut self, index: usize) -> (r: Option<&mut StackFrame>)
        requires
            old(self).wf(),
        ensures
            index >= old(self)@.len() ==> r is None && final(self)@ == old(self)@,
            index < old(self)@.len() ==> {
                &&& r matches Some(fr)
                &&& *fr == old(self)@[index as int]
                &&& fr.wf()
                &&& final(self)@ == old(self)@.update(index as int, *final(fr))
            },
    {
        if index < self.frames.len() {
            Some(&mut self.frames[index])
        } else {
            None
        }
    }
}

impl Default for Stack {
    fn default() -> (r: Self)
        ensures
            r.wf(),
            r@ == Seq::<StackFrame>::empty(),
    {
        Self::new()
    }
}

} // verus!
