//! The machine state of a run and its operational primitives.
//!
//! Local bindings form a persistent chain: frames live in an arena and are
//! never removed, each holding a parent index strictly smaller than its
//! own, so a handle (`Option<usize>`) is a cheap shareable view of a whole
//! scope chain and extension never disturbs older handles.  Tables and
//! closures live in arenas of their own; a `Value` refers to them by
//! index, which gives reference semantics for aliasing and identity for
//! equality.  Printed lines accumulate in `output`.
use vstd::prelude::*;

use crate::ast::Block;
use crate::value::{Value, ValueV, FunV, lang_eq, clone_bytes, clone_value, bytes_eq};

verus! {

/// One local binding: a name, its current value, and the enclosing chain.
pub struct Frame<'ast> {
    pub name: &'ast Vec<u8>,
    pub value: Value,
    pub parent: Option<usize>,
}

/// A closure: parameter names and body shared from the syntax tree, plus
/// the local chain captured at its definition point.
pub struct Closure<'ast> {
    pub params: &'ast Vec<Vec<u8>>,
    pub env: Option<usize>,
    pub body: &'ast Block,
}

/// The whole mutable state of a run.
pub struct Interp<'ast> {
    pub globals: Vec<(Vec<u8>, Value)>,
    pub frames: Vec<Frame<'ast>>,
    pub tables: Vec<Vec<(Value, Value)>>,
    pub closures: Vec<Closure<'ast>>,
    pub output: Vec<Vec<u8>>,
}

/// Spec view of a binding frame.
#[verifier::ext_equal]
pub ghost struct FrameV {
    pub name: Seq<u8>,
    pub value: ValueV,
    pub parent: Option<int>,
}

/// Spec view of a closure.
#[verifier::ext_equal]
pub ghost struct ClosureV {
    pub params: Seq<Vec<u8>>,
    pub env: Option<int>,
    pub body: Block,
}

/// Spec view of the machine state.
#[verifier::ext_equal]
pub ghost struct StateV {
    pub globals: Seq<(Seq<u8>, ValueV)>,
    pub frames: Seq<FrameV>,
    pub tables: Seq<Seq<(ValueV, ValueV)>>,
    pub closures: Seq<ClosureV>,
    pub output: Seq<Seq<u8>>,
}

/// A chain handle as a mathematical value.
pub open spec fn opt_v(h: Option<usize>) -> Option<int> {
    match h {
        Option::None => Option::None,
        Option::Some(i) => Option::Some(i as int),
    }
}

/// View of an optional value.
pub open spec fn opt_val_v(r: Option<Value>) -> Option<ValueV> {
    match r {
        Option::None => Option::None,
        Option::Some(v) => Option::Some(v@),
    }
}

/// Views of a sequence of values.
pub open spec fn vals_v(s: Seq<Value>) -> Seq<ValueV> {
    s.map_values(|v: Value| v@)
}

/// Views of a sequence of key/value pairs.
pub open spec fn pairs_v(s: Seq<(Value, Value)>) -> Seq<(ValueV, ValueV)> {
    s.map_values(|p: (Value, Value)| (p.0@, p.1@))
}

impl<'ast> View for Frame<'ast> {
    type V = FrameV;

    open spec fn view(&self) -> FrameV {
        FrameV { name: self.name@, value: self.value@, parent: opt_v(self.parent) }
    }
}

impl<'ast> View for Closure<'ast> {
    type V = ClosureV;

    open spec fn view(&self) -> ClosureV {
        ClosureV { params: self.params@, env: opt_v(self.env), body: *self.body }
    }
}

impl<'ast> View for Interp<'ast> {
    type V = StateV;

    open spec fn view(&self) -> StateV {
        StateV {
            globals: self.globals@.map_values(|p: (Vec<u8>, Value)| (p.0@, p.1@)),
            frames: self.frames@.map_values(|f: Frame<'ast>| f@),
            tables: self.tables@.map_values(|t: Vec<(Value, Value)>| pairs_v(t@)),
            closures: self.closures@.map_values(|c: Closure<'ast>| c@),
            output: self.output@.map_values(|l: Vec<u8>| l@),
        }
    }
}

/// A value's arena references are in range.
pub open spec fn val_ok(s: StateV, v: ValueV) -> bool {
    match v {
        ValueV::Table(t) => 0 <= t < s.tables.len(),
        ValueV::Function(FunV::Closure(c)) => 0 <= c < s.closures.len(),
        _ => true,
    }
}

/// A chain handle is in range.
pub open spec fn env_ok(s: StateV, h: Option<int>) -> bool {
    match h {
        Option::None => true,
        Option::Some(i) => 0 <= i < s.frames.len(),
    }
}

/// A frame at position `i`: its parent lies strictly below it (chains are
/// acyclic and walkable) and its value is in range.
pub open spec fn frame_ok(s: StateV, f: FrameV, i: int) -> bool {
    &&& match f.parent {
        Option::None => true,
        Option::Some(p) => 0 <= p < i,
    }
    &&& val_ok(s, f.value)
}

/// Well-formedness of the whole state: every arena reference stored
/// anywhere is in range and the binding chains are acyclic.
pub open spec fn state_ok(s: StateV) -> bool {
    &&& forall|i: int| 0 <= i < s.frames.len() ==> frame_ok(s, #[trigger] s.frames[i], i)
    &&& forall|i: int| 0 <= i < s.globals.len() ==> val_ok(s, (#[trigger] s.globals[i]).1)
    &&& forall|i: int, j: int|
        0 <= i < s.tables.len() && 0 <= j < s.tables[i].len() ==> val_ok(
            s,
            (#[trigger] s.tables[i][j]).0,
        ) && val_ok(s, s.tables[i][j].1)
    &&& forall|i: int| 0 <= i < s.closures.len() ==> env_ok(s, (#[trigger] s.closures[i]).env)
}

/// Evaluation never removes arena entries, so indices stay valid.
pub open spec fn grows(a: StateV, b: StateV) -> bool {
    &&& a.frames.len() <= b.frames.len()
    &&& a.tables.len() <= b.tables.len()
    &&& a.closures.len() <= b.closures.len()
}

/// `val_ok` is preserved as the arenas grow.
pub proof fn lemma_val_ok_grow(a: StateV, b: StateV, v: ValueV)
    requires
        val_ok(a, v),
        grows(a, b),
    ensures
        val_ok(b, v),
{
}

/// Decreases measure for walking a chain handle.
pub open spec fn chain_measure(h: Option<int>) -> int {
    match h {
        Option::None => 0,
        Option::Some(i) => if i >= 0 {
            i + 1
        } else {
            0
        },
    }
}

/// The innermost binding of `name` along the chain starting at `h`.
pub open spec fn chain_find(frames: Seq<FrameV>, h: Option<int>, name: Seq<u8>) -> Option<int>
    decreases chain_measure(h),
{
    match h {
        Option::None => Option::None,
        Option::Some(i) => if 0 <= i < frames.len() {
            if frames[i].name == name {
                Option::Some(i)
            } else {
                match frames[i].parent {
                    Option::None => Option::None,
                    Option::Some(p) => if 0 <= p < i {
                        chain_find(frames, Option::Some(p), name)
                    } else {
                        Option::None
                    },
                }
            }
        } else {
            Option::None
        },
    }
}

/// Innermost-first lookup through the local chain.
pub open spec fn chain_lookup(frames: Seq<FrameV>, h: Option<int>, name: Seq<u8>) -> Option<
    ValueV,
> {
    match chain_find(frames, h, name) {
        Option::Some(i) => Option::Some(frames[i].value),
        Option::None => Option::None,
    }
}

/// Position of `name` in the global map, scanning from `i`.
pub open spec fn g_find(globals: Seq<(Seq<u8>, ValueV)>, name: Seq<u8>, i: int) -> Option<int>
    decreases globals.len() - i,
{
    if i < 0 || i >= globals.len() {
        Option::None
    } else if globals[i].0 == name {
        Option::Some(i)
    } else {
        g_find(globals, name, i + 1)
    }
}

/// Lookup in the global map.
pub open spec fn g_lookup(globals: Seq<(Seq<u8>, ValueV)>, name: Seq<u8>) -> Option<ValueV> {
    match g_find(globals, name, 0) {
        Option::Some(i) => Option::Some(globals[i].1),
        Option::None => Option::None,
    }
}

/// Write into the global map: overwrite the existing entry or append one.
pub open spec fn g_set(globals: Seq<(Seq<u8>, ValueV)>, name: Seq<u8>, v: ValueV) -> Seq<
    (Seq<u8>, ValueV),
> {
    match g_find(globals, name, 0) {
        Option::Some(i) => globals.update(i, (globals[i].0, v)),
        Option::None => globals.push((name, v)),
    }
}

/// Name resolution: innermost local first, then the globals, else `nil`.
pub open spec fn env_lookup(s: StateV, h: Option<int>, name: Seq<u8>) -> ValueV {
    match chain_lookup(s.frames, h, name) {
        Option::Some(v) => v,
        Option::None => match g_lookup(s.globals, name) {
            Option::Some(v) => v,
            Option::None => ValueV::Nil,
        },
    }
}

/// Assignment to a plain name: the nearest local binding if one exists in
/// the chain, else the global map.
pub open spec fn assign_name_v(s: StateV, h: Option<int>, name: Seq<u8>, v: ValueV) -> StateV {
    match chain_find(s.frames, h, name) {
        Option::Some(i) => StateV {
            frames: s.frames.update(
                i,
                FrameV { name: s.frames[i].name, value: v, parent: s.frames[i].parent },
            ),
            ..s
        },
        Option::None => StateV { globals: g_set(s.globals, name, v), ..s },
    }
}

/// Position of key `k` in a table, scanning from `i`; keys are compared by
/// the language's equality.
pub open spec fn tbl_find(t: Seq<(ValueV, ValueV)>, k: ValueV, i: int) -> Option<int>
    decreases t.len() - i,
{
    if i < 0 || i >= t.len() {
        Option::None
    } else if lang_eq(t[i].0, k) {
        Option::Some(i)
    } else {
        tbl_find(t, k, i + 1)
    }
}

/// Table read: the value stored at `k`, if any.
pub open spec fn tbl_get(t: Seq<(ValueV, ValueV)>, k: ValueV) -> Option<ValueV> {
    match tbl_find(t, k, 0) {
        Option::Some(i) => Option::Some(t[i].1),
        Option::None => Option::None,
    }
}

/// Table write: overwrite the entry for `k` or append one.
pub open spec fn tbl_insert(t: Seq<(ValueV, ValueV)>, k: ValueV, v: ValueV) -> Seq<
    (ValueV, ValueV),
> {
    match tbl_find(t, k, 0) {
        Option::Some(i) => t.update(i, (t[i].0, v)),
        Option::None => t.push((k, v)),
    }
}

/// Layers new bindings atop the chain `h`: one frame per name, in order,
/// so the last name is innermost; missing values default to `nil` and
/// surplus values are dropped.
pub open spec fn extend_v(
    frames: Seq<FrameV>,
    h: Option<int>,
    names: Seq<Vec<u8>>,
    vals: Seq<ValueV>,
    i: int,
) -> (Seq<FrameV>, Option<int>)
    decreases names.len() - i,
{
    if i < 0 || i >= names.len() {
        (frames, h)
    } else {
        let v = if i < vals.len() {
            vals[i]
        } else {
            ValueV::Nil
        };
        let nf = frames.push(FrameV { name: names[i]@, value: v, parent: h });
        extend_v(nf, Option::Some(frames.len() as int), names, vals, i + 1)
    }
}

impl<'ast> Interp<'ast> {
    /// Finds the innermost binding of `name` in the chain at `h`.
    pub fn find_binding(&self, h: Option<usize>, name: &Vec<u8>) -> (r: Option<usize>)
        requires
            state_ok(self@),
            env_ok(self@, opt_v(h)),
        ensures
            opt_v(r) == chain_find(self@.frames, opt_v(h), name@),
            r matches Some(i) ==> i < self@.frames.len(),
        decreases chain_measure(opt_v(h)),
    {
        match h {
            None => None,
            Some(i) => {
                let f = &self.frames[i];
                if bytes_eq(f.name, name) {
                    Some(i)
                } else {
                    let p = f.parent;
                    assert(frame_ok(self@, self@.frames[i as int], i as int));
                    match p {
                        None => None,
                        Some(pp) => self.find_binding(Some(pp), name),
                    }
                }
            },
        }
    }

    /// Finds the position of `name` in the global map, scanning from `i`.
    pub fn find_global(&self, name: &Vec<u8>, i: usize) -> (r: Option<usize>)
        requires
            i <= self@.globals.len(),
        ensures
            opt_v(r) == g_find(self@.globals, name@, i as int),
            r matches Some(j) ==> j < self@.globals.len(),
        decreases self@.globals.len() - i,
    {
        if i == self.globals.len() {
            None
        } else if bytes_eq(&self.globals[i].0, name) {
            Some(i)
        } else {
            self.find_global(name, i + 1)
        }
    }

    /// Resolves a name: innermost local first, then globals, else `nil`.
    pub fn lookup(&self, h: Option<usize>, name: &Vec<u8>) -> (r: Value)
        requires
            state_ok(self@),
            env_ok(self@, opt_v(h)),
        ensures
            r@ == env_lookup(self@, opt_v(h), name@),
            val_ok(self@, r@),
    {
        match self.find_binding(h, name) {
            Some(i) => clone_value(&self.frames[i].value),
            None => match self.find_global(name, 0) {
                Some(j) => clone_value(&self.globals[j].1),
                None => Value::Nil,
            },
        }
    }

    /// Assigns to a plain name: the nearest local binding if any, else the
    /// global map.
    pub fn set(&mut self, h: Option<usize>, name: &Vec<u8>, v: Value)
        requires
            state_ok(old(self)@),
            env_ok(old(self)@, opt_v(h)),
            val_ok(old(self)@, v@),
        ensures
            final(self)@ == assign_name_v(old(self)@, opt_v(h), name@, v@),
            state_ok(final(self)@),
            final(self)@.frames.len() == old(self)@.frames.len(),
            final(self)@.tables == old(self)@.tables,
            final(self)@.closures == old(self)@.closures,
            final(self)@.output == old(self)@.output,
    {
        let found = self.find_binding(h, name);
        match found {
            Some(i) => {
                let nm = self.frames[i].name;
                let par = self.frames[i].parent;
                self.frames[i] = Frame { name: nm, value: v, parent: par };
                assert(self@ =~~= assign_name_v(old(self)@, opt_v(h), name@, v@));
                assert(state_ok(self@));
            },
            None => {
                match self.find_global(name, 0) {
                    Some(j) => {
                        let key = clone_bytes(&self.globals[j].0);
                        self.globals[j] = (key, v);
                        assert(self@ =~~= assign_name_v(old(self)@, opt_v(h), name@, v@));
                        assert(state_ok(self@));
                    },
                    None => {
                        self.globals.push((clone_bytes(name), v));
                        assert(self@ =~~= assign_name_v(old(self)@, opt_v(h), name@, v@));
                        assert(state_ok(self@));
                    },
                }
            },
        }
    }

    /// Reads the value stored in table `ti` at key `k`, if any.
    pub fn table_get(&self, ti: usize, k: &Value) -> (r: Option<Value>)
        requires
            state_ok(self@),
            ti < self@.tables.len(),
        ensures
            opt_val_v(r) == tbl_get(self@.tables[ti as int], k@),
            r matches Some(v) ==> val_ok(self@, v@),
    {
        let t = &self.tables[ti];
        let found = tbl_find_exec(t, k, 0);
        match found {
            Some(j) => Some(clone_value(&t[j].1)),
            None => None,
        }
    }

    /// Writes `v` at key `k` in table `ti`, overwriting any existing entry.
    pub fn table_set(&mut self, ti: usize, k: Value, v: Value)
        requires
            state_ok(old(self)@),
            ti < old(self)@.tables.len(),
            val_ok(old(self)@, k@),
            val_ok(old(self)@, v@),
        ensures
            final(self)@ == (StateV {
                tables: old(self)@.tables.update(
                    ti as int,
                    tbl_insert(old(self)@.tables[ti as int], k@, v@),
                ),
                ..old(self)@
            }),
            state_ok(final(self)@),
            final(self)@.frames.len() == old(self)@.frames.len(),
            final(self)@.tables.len() == old(self)@.tables.len(),
            final(self)@.closures.len() == old(self)@.closures.len(),
            final(self)@.output == old(self)@.output,
    {
        let ghost gs = self@;
        let t = &self.tables[ti];
        let found = tbl_find_exec(t, &k, 0);
        match found {
            Some(j) => {
                let old_key = clone_value(&self.tables[ti][j].0);
                self.tables[ti][j] = (old_key, v);
                assert(self@.tables[ti as int] =~= tbl_insert(gs.tables[ti as int], k@, v@));
                assert(self@ =~~= (StateV {
                    tables: gs.tables.update(ti as int, tbl_insert(gs.tables[ti as int], k@, v@)),
                    ..gs
                }));
                assert(state_ok(self@));
            },
            None => {
                self.tables[ti].push((k, v));
                assert(self@.tables[ti as int] =~= tbl_insert(gs.tables[ti as int], k@, v@));
                assert(self@ =~~= (StateV {
                    tables: gs.tables.update(ti as int, tbl_insert(gs.tables[ti as int], k@, v@)),
                    ..gs
                }));
                assert(state_ok(self@));
            },
        }
    }

    /// Allocates a fresh table with the given entries and returns its index.
    pub fn alloc_table(&mut self, entries: Vec<(Value, Value)>) -> (r: usize)
        requires
            state_ok(old(self)@),
            forall|j: int|
                0 <= j < entries@.len() ==> val_ok(old(self)@, (#[trigger] entries@[j]).0@)
                    && val_ok(old(self)@, entries@[j].1@),
        ensures
            final(self)@ == (StateV { tables: old(self)@.tables.push(pairs_v(entries@)), ..old(self)@ }),
            r as int == old(self)@.tables.len(),
            state_ok(final(self)@),
            val_ok(final(self)@, ValueV::Table(r as int)),
            final(self)@.frames.len() == old(self)@.frames.len(),
            final(self)@.closures.len() == old(self)@.closures.len(),
            final(self)@.output == old(self)@.output,
    {
        let r = self.tables.len();
        self.tables.push(entries);
        assert(self@ =~~= (StateV { tables: old(self)@.tables.push(pairs_v(entries@)), ..old(self)@ }));
        assert(state_ok(self@));
        r
    }

    /// Allocates a closure capturing the chain `env` and returns its index.
    pub fn alloc_closure(
        &mut self,
        params: &'ast Vec<Vec<u8>>,
        env: Option<usize>,
        body: &'ast Block,
    ) -> (r: usize)
        requires
            state_ok(old(self)@),
            env_ok(old(self)@, opt_v(env)),
        ensures
            final(self)@ == (StateV {
                closures: old(self)@.closures.push(
                    ClosureV { params: params@, env: opt_v(env), body: *body },
                ),
                ..old(self)@
            }),
            r as int == old(self)@.closures.len(),
            state_ok(final(self)@),
            val_ok(final(self)@, ValueV::Function(FunV::Closure(r as int))),
            final(self)@.frames.len() == old(self)@.frames.len(),
            final(self)@.tables.len() == old(self)@.tables.len(),
            final(self)@.output == old(self)@.output,
    {
        let r = self.closures.len();
        self.closures.push(Closure { params, env, body });
        assert(self@ =~~= (StateV {
            closures: old(self)@.closures.push(
                ClosureV { params: params@, env: opt_v(env), body: *body },
            ),
            ..old(self)@
        }));
        assert(state_ok(self@));
        r
    }

    /// Appends one printed line to the output.
    pub fn push_output(&mut self, line: Vec<u8>)
        requires
            state_ok(old(self)@),
        ensures
            final(self)@ == (StateV { output: old(self)@.output.push(line@), ..old(self)@ }),
            state_ok(final(self)@),
            final(self)@.frames.len() == old(self)@.frames.len(),
            final(self)@.tables.len() == old(self)@.tables.len(),
            final(self)@.closures.len() == old(self)@.closures.len(),
    {
        self.output.push(line);
        assert(self@ =~~= (StateV { output: old(self)@.output.push(line@), ..old(self)@ }));
        assert(state_ok(self@));
    }

    /// Extends the chain `h` with one frame per name from position `i` on,
    /// returning the new innermost handle.
    pub fn extend(
        &mut self,
        h: Option<usize>,
        names: &'ast Vec<Vec<u8>>,
        vals: &Vec<Value>,
        i: usize,
    ) -> (r: Option<usize>)
        requires
            state_ok(old(self)@),
            env_ok(old(self)@, opt_v(h)),
            i <= names@.len(),
            forall|j: int| 0 <= j < vals@.len() ==> val_ok(old(self)@, (#[trigger] vals@[j])@),
        ensures
            final(self)@ == (StateV {
                frames: extend_v(old(self)@.frames, opt_v(h), names@, vals_v(vals@), i as int).0,
                ..old(self)@
            }),
            opt_v(r) == extend_v(old(self)@.frames, opt_v(h), names@, vals_v(vals@), i as int).1,
            state_ok(final(self)@),
            env_ok(final(self)@, opt_v(r)),
            grows(old(self)@, final(self)@),
            final(self)@.tables == old(self)@.tables,
            final(self)@.closures == old(self)@.closures,
            final(self)@.output == old(self)@.output,
        decreases names@.len() - i,
    {
        if i == names.len() {
            assert(self@ =~~= (StateV {
                frames: extend_v(old(self)@.frames, opt_v(h), names@, vals_v(vals@), i as int).0,
                ..old(self)@
            }));
            h
        } else {
            let v = if i < vals.len() {
                clone_value(&vals[i])
            } else {
                Value::Nil
            };
            let nh = self.frames.len();
            self.frames.push(Frame { name: &names[i], value: v, parent: h });
            assert(self@.frames =~= old(self)@.frames.push(
                FrameV { name: names@[i as int]@, value: vals_view_at(vals@, i as int), parent: opt_v(h) },
            ));
            assert(state_ok(self@));
            let r = self.extend(Some(nh), names, vals, i + 1);
            assert(self@ =~~= (StateV {
                frames: extend_v(old(self)@.frames, opt_v(h), names@, vals_v(vals@), i as int).0,
                ..old(self)@
            }));
            r
        }
    }
}

/// Folds the written `(key, value)` pairs of a table constructor into
/// table contents, later duplicates overwriting earlier ones.
pub open spec fn tbl_acc(
    acc: Seq<(ValueV, ValueV)>,
    pairs: Seq<(ValueV, ValueV)>,
    i: int,
) -> Seq<(ValueV, ValueV)>
    decreases pairs.len() - i,
{
    if i < 0 || i >= pairs.len() {
        acc
    } else {
        tbl_acc(tbl_insert(acc, pairs[i].0, pairs[i].1), pairs, i + 1)
    }
}

/// `tbl_insert` keeps every entry's components in range when the inputs
/// are.
pub proof fn lemma_tbl_insert_ok(s: StateV, t: Seq<(ValueV, ValueV)>, k: ValueV, v: ValueV)
    requires
        forall|j: int| 0 <= j < t.len() ==> val_ok(s, (#[trigger] t[j]).0) && val_ok(s, t[j].1),
        val_ok(s, k),
        val_ok(s, v),
    ensures
        forall|j: int|
            0 <= j < tbl_insert(t, k, v).len() ==> val_ok(s, (#[trigger] tbl_insert(t, k, v)[j]).0)
                && val_ok(s, tbl_insert(t, k, v)[j].1),
{
    lemma_tbl_find_in_range(t, k, 0);
    let r = tbl_insert(t, k, v);
    match tbl_find(t, k, 0) {
        Option::Some(i) => {
            assert forall|j: int| 0 <= j < r.len() implies val_ok(s, (#[trigger] r[j]).0) && val_ok(
                s,
                r[j].1,
            ) by {
                if j != i {
                    assert(r[j] == t[j]);
                }
            }
        },
        Option::None => {
            assert forall|j: int| 0 <= j < r.len() implies val_ok(s, (#[trigger] r[j]).0) && val_ok(
                s,
                r[j].1,
            ) by {
                if j < t.len() {
                    assert(r[j] == t[j]);
                }
            }
        },
    }
}

/// A found table position lies within the table and its key matches.
pub proof fn lemma_tbl_find_in_range(t: Seq<(ValueV, ValueV)>, k: ValueV, i: int)
    ensures
        tbl_find(t, k, i) matches Option::Some(j) ==> i <= j < t.len() && lang_eq(t[j].0, k),
    decreases t.len() - i,
{
    if 0 <= i < t.len() && !lang_eq(t[i].0, k) {
        lemma_tbl_find_in_range(t, k, i + 1);
    }
}

/// `tbl_acc` keeps every entry's components in range when the inputs are.
pub proof fn lemma_tbl_acc_ok(
    s: StateV,
    acc: Seq<(ValueV, ValueV)>,
    pairs: Seq<(ValueV, ValueV)>,
    i: int,
)
    requires
        forall|j: int| 0 <= j < acc.len() ==> val_ok(s, (#[trigger] acc[j]).0) && val_ok(
            s,
            acc[j].1,
        ),
        forall|j: int| 0 <= j < pairs.len() ==> val_ok(s, (#[trigger] pairs[j]).0) && val_ok(
            s,
            pairs[j].1,
        ),
    ensures
        forall|j: int|
            0 <= j < tbl_acc(acc, pairs, i).len() ==> val_ok(
                s,
                (#[trigger] tbl_acc(acc, pairs, i)[j]).0,
            ) && val_ok(s, tbl_acc(acc, pairs, i)[j].1),
    decreases pairs.len() - i,
{
    if 0 <= i < pairs.len() {
        lemma_tbl_insert_ok(s, acc, pairs[i].0, pairs[i].1);
        lemma_tbl_acc_ok(s, tbl_insert(acc, pairs[i].0, pairs[i].1), pairs, i + 1);
        assert(tbl_acc(acc, pairs, i) == tbl_acc(
            tbl_insert(acc, pairs[i].0, pairs[i].1),
            pairs,
            i + 1,
        ));
    } else {
        assert(tbl_acc(acc, pairs, i) == acc);
    }
}

/// Inserts `(k, v)` into table contents held as a vector, overwriting the
/// entry for `k` if one exists.
pub fn tbl_insert_vec(t: &mut Vec<(Value, Value)>, k: Value, v: Value)
    ensures
        pairs_v(final(t)@) == tbl_insert(pairs_v(old(t)@), k@, v@),
{
    let found = tbl_find_exec(t, &k, 0);
    match found {
        Some(j) => {
            let old_key = clone_value(&t[j].0);
            t[j] = (old_key, v);
            assert(pairs_v(t@) =~= tbl_insert(pairs_v(old(t)@), k@, v@));
        },
        None => {
            t.push((k, v));
            assert(pairs_v(t@) =~= tbl_insert(pairs_v(old(t)@), k@, v@));
        },
    }
}

/// Accumulates the pairs from position `i` on into table contents,
/// later duplicate keys overwriting earlier ones.
pub fn tbl_acc_exec(acc: &mut Vec<(Value, Value)>, pairs: &Vec<(Value, Value)>, i: usize)
    requires
        i <= pairs@.len(),
    ensures
        pairs_v(final(acc)@) == tbl_acc(pairs_v(old(acc)@), pairs_v(pairs@), i as int),
    decreases pairs@.len() - i,
{
    if i < pairs.len() {
        let k = clone_value(&pairs[i].0);
        let v = clone_value(&pairs[i].1);
        tbl_insert_vec(acc, k, v);
        tbl_acc_exec(acc, pairs, i + 1);
    }
}

/// The value bound for position `i` when extending: the given value, or
/// `nil` past the end of the value list.
pub open spec fn vals_view_at(vals: Seq<Value>, i: int) -> ValueV {
    if i < vals.len() {
        vals[i]@
    } else {
        ValueV::Nil
    }
}

/// Finds the position of key `k` in a table vector, scanning from `i`.
pub fn tbl_find_exec(t: &Vec<(Value, Value)>, k: &Value, i: usize) -> (r: Option<usize>)
    requires
        i <= t@.len(),
    ensures
        opt_v(r) == tbl_find(pairs_v(t@), k@, i as int),
        r matches Some(j) ==> j < t@.len(),
    decreases t@.len() - i,
{
    if i == t.len() {
        None
    } else if crate::value::value_eq(&t[i].0, k) {
        Some(i)
    } else {
        tbl_find_exec(t, k, i + 1)
    }
}

} // verus!
