//! Symbol resolution across input objects.
use vstd::prelude::*;
use crate::object::{ObjectFile, ObjectSymbol, SymbolBinding};
use crate::target::{TargetError, amd64_object_target, target_error_text};
use crate::text::{dec_text, push_decimal};

verus! {

/// Local names belong to one input object; exported names share a link namespace.
#[derive(Clone, Debug, PartialEq, Eq, Hash)]
pub enum SymbolKey {
    Global(String),
    Local { object_index: usize, name: String },
}

/// The value of a [`SymbolKey`].
pub enum KeyModel {
    Global(Seq<char>),
    Local(usize, Seq<char>),
}

pub open spec fn key_model(k: SymbolKey) -> KeyModel {
    match k {
        SymbolKey::Global(n) => KeyModel::Global(n@),
        SymbolKey::Local { object_index, name } => KeyModel::Local(object_index, name@),
    }
}

/// A defined symbol as resolved.
#[derive(Debug)]
pub struct ResolvedSymbol {
    pub name: String,
    pub object_index: Option<usize>,
    pub section_index: Option<usize>,
    pub value: u64,
    pub size: u64,
    pub binding: SymbolBinding,
}

/// The value of a [`ResolvedSymbol`].
pub struct ResolvedModel {
    pub name: Seq<char>,
    pub object_index: Option<usize>,
    pub section_index: Option<usize>,
    pub value: u64,
    pub size: u64,
    pub binding: SymbolBinding,
}

pub open spec fn resolved_model(r: ResolvedSymbol) -> ResolvedModel {
    ResolvedModel {
        name: r.name@,
        object_index: r.object_index,
        section_index: r.section_index,
        value: r.value,
        size: r.size,
        binding: r.binding,
    }
}

/// The resolved symbols, one entry per key.
pub struct SymbolTable {
    pub symbols: Vec<(SymbolKey, ResolvedSymbol)>,
}

/// The table's entries as values.
pub open spec fn table_model(t: Seq<(SymbolKey, ResolvedSymbol)>) -> Seq<(KeyModel, ResolvedModel)> {
    t.map_values(|e: (SymbolKey, ResolvedSymbol)| (key_model(e.0), resolved_model(e.1)))
}

/// The key a defined symbol of object `o` is resolved under.
pub open spec fn symbol_key(o: int, s: ObjectSymbol) -> KeyModel {
    if s.binding == SymbolBinding::Local {
        KeyModel::Local(o as usize, s.name@)
    } else {
        KeyModel::Global(s.name@)
    }
}

pub open spec fn symbol_entry(o: int, s: ObjectSymbol) -> ResolvedModel {
    ResolvedModel {
        name: s.name@,
        object_index: Some(o as usize),
        section_index: s.section_index,
        value: s.value,
        size: s.size,
        binding: s.binding,
    }
}

/// The position of `k` in a table.
pub open spec fn key_index(t: Seq<(KeyModel, ResolvedModel)>, k: KeyModel) -> Option<int> {
    if exists|i: int| 0 <= i < t.len() && #[trigger] t[i].0 == k {
        Some(choose|i: int| 0 <= i < t.len() && #[trigger] t[i].0 == k)
    } else {
        None
    }
}

/// No key occurs twice.
pub open spec fn keys_distinct(t: Seq<(KeyModel, ResolvedModel)>) -> bool {
    forall|i: int, j: int| 0 <= i < t.len() && 0 <= j < t.len() && i != j ==> #[trigger] t[i].0 != #[trigger] t[j].0
}

proof fn lemma_key_index(t: Seq<(KeyModel, ResolvedModel)>, k: KeyModel, i: int)
    requires
        keys_distinct(t),
        0 <= i < t.len(),
        t[i].0 == k,
    ensures
        key_index(t, k) == Some(i),
{
}

/// Add a defined symbol: a new key is appended; a weak definition replaces
/// an existing one; any other repeated definition is a conflict.
pub open spec fn add_symbol(t: Seq<(KeyModel, ResolvedModel)>, o: int, s: ObjectSymbol) -> Option<
    Seq<(KeyModel, ResolvedModel)>,
> {
    let k = symbol_key(o, s);
    match key_index(t, k) {
        None => Some(t.push((k, symbol_entry(o, s)))),
        Some(i) => if s.binding == SymbolBinding::Weak {
            Some(t.update(i, (k, symbol_entry(o, s))))
        } else {
            None
        },
    }
}

/// Resolve the first `n` symbols of object `o` into `t`; undefined symbols are skipped.
pub open spec fn resolve_symbols(t: Seq<(KeyModel, ResolvedModel)>, o: int, syms: Seq<ObjectSymbol>, n: int) -> Option<
    Seq<(KeyModel, ResolvedModel)>,
>
    decreases n,
{
    if n <= 0 {
        Some(t)
    } else {
        match resolve_symbols(t, o, syms, n - 1) {
            None => None,
            Some(t1) => if syms[n - 1].section_index is Some {
                add_symbol(t1, o, syms[n - 1])
            } else {
                Some(t1)
            },
        }
    }
}

/// Resolve the symbols of the first `n` objects, in order.
pub open spec fn resolve_objects(objs: Seq<ObjectFile>, n: int) -> Option<Seq<(KeyModel, ResolvedModel)>>
    decreases n,
{
    if n <= 0 {
        Some(seq![])
    } else {
        match resolve_objects(objs, n - 1) {
            None => None,
            Some(t) => resolve_symbols(t, n - 1, objs[n - 1].symbols@, objs[n - 1].symbols@.len() as int),
        }
    }
}

/// Every input object has the supported object identity.
pub open spec fn inputs_supported(objs: Seq<ObjectFile>) -> bool {
    forall|i: int| 0 <= i < objs.len() ==> (#[trigger] objs[i]).target == amd64_object_target()
}

/// Input `i` is the first whose object identity is unsupported.
pub open spec fn first_unsupported(objs: Seq<ObjectFile>, i: int) -> bool {
    &&& 0 <= i < objs.len()
    &&& objs[i].target != amd64_object_target()
    &&& forall|j: int| 0 <= j < i ==> (#[trigger] objs[j]).target == amd64_object_target()
}

/// The message for an input whose object identity is unsupported.
pub open spec fn unsupported_input_text(objs: Seq<ObjectFile>, i: int) -> Seq<char> {
    "link input "@ + dec_text(i as nat) + ": "@ + target_error_text(
        TargetError::UnsupportedObjectTarget(objs[i].target),
    )
}

/// An entry resolved under its own name: a local key holds a local symbol of
/// the object the key names; an exported key holds a non-local symbol.
pub open spec fn entry_scoped(e: (KeyModel, ResolvedModel)) -> bool {
    match e.0 {
        KeyModel::Local(o, n) => e.1.object_index == Some(o) && e.1.name == n && e.1.binding
            == SymbolBinding::Local,
        KeyModel::Global(n) => e.1.name == n && e.1.binding != SymbolBinding::Local,
    }
}

pub open spec fn table_scoped(t: Seq<(KeyModel, ResolvedModel)>) -> bool {
    &&& keys_distinct(t)
    &&& forall|i: int| 0 <= i < t.len() ==> entry_scoped(#[trigger] t[i])
}

proof fn lemma_add_scoped(t: Seq<(KeyModel, ResolvedModel)>, o: int, s: ObjectSymbol)
    requires
        table_scoped(t),
        add_symbol(t, o, s) is Some,
    ensures
        table_scoped(add_symbol(t, o, s)->Some_0),
{
    let k = symbol_key(o, s);
    let t2 = add_symbol(t, o, s)->Some_0;
    match key_index(t, k) {
        None => {
            assert forall|i: int| 0 <= i < t.len() implies #[trigger] t[i].0 != k by {
                if t[i].0 == k {
                    assert(exists|j: int| 0 <= j < t.len() && #[trigger] t[j].0 == k);
                }
            }
            assert forall|i: int, j: int|
                0 <= i < t2.len() && 0 <= j < t2.len() && i != j implies #[trigger] t2[i].0
                != #[trigger] t2[j].0 by {
                if i < t.len() && j < t.len() {
                    assert(t2[i] == t[i] && t2[j] == t[j]);
                } else if i < t.len() {
                    assert(t2[i] == t[i]);
                } else {
                    assert(t2[j] == t[j]);
                }
            }
            assert forall|i: int| 0 <= i < t2.len() implies entry_scoped(#[trigger] t2[i]) by {
                if i < t.len() {
                    assert(t2[i] == t[i]);
                }
            }
        },
        Some(x) => {
            assert(0 <= x < t.len() && t[x].0 == k);
            assert forall|i: int, j: int|
                0 <= i < t2.len() && 0 <= j < t2.len() && i != j implies #[trigger] t2[i].0
                != #[trigger] t2[j].0 by {
                assert(t2[i].0 == t[i].0 && t2[j].0 == t[j].0);
            }
            assert forall|i: int| 0 <= i < t2.len() implies entry_scoped(#[trigger] t2[i]) by {
                if i != x {
                    assert(t2[i] == t[i]);
                }
            }
        },
    }
}

proof fn lemma_symbols_scoped(t: Seq<(KeyModel, ResolvedModel)>, o: int, syms: Seq<ObjectSymbol>, n: int)
    requires
        table_scoped(t),
        n <= syms.len(),
        resolve_symbols(t, o, syms, n) is Some,
    ensures
        table_scoped(resolve_symbols(t, o, syms, n)->Some_0),
    decreases n,
{
    if n > 0 {
        lemma_symbols_scoped(t, o, syms, n - 1);
        if syms[n - 1].section_index is Some {
            lemma_add_scoped(resolve_symbols(t, o, syms, n - 1)->Some_0, o, syms[n - 1]);
        }
    }
}

/// Resolution law: every key occurs once, and each resolved symbol sits under
/// its own key: a local symbol under the object that defines it, so local
/// names of different objects never meet; an exported symbol under its name.
pub proof fn lemma_resolution_scoped(objs: Seq<ObjectFile>, n: int)
    requires
        n <= objs.len(),
        resolve_objects(objs, n) is Some,
    ensures
        table_scoped(resolve_objects(objs, n)->Some_0),
    decreases n,
{
    if n > 0 {
        lemma_resolution_scoped(objs, n - 1);
        let t = resolve_objects(objs, n - 1)->Some_0;
        lemma_symbols_scoped(t, n - 1, objs[n - 1].symbols@, objs[n - 1].symbols@.len() as int);
    }
}

/// Symbol `s` is a definition that the resolved entry `e` of object `o`
/// carries: same name, binding, section, value and size.
pub open spec fn carries(e: ResolvedModel, o: int, s: ObjectSymbol) -> bool {
    &&& s.section_index is Some
    &&& e.object_index == Some(o as usize)
    &&& e.name == s.name@
    &&& e.binding == s.binding
    &&& e.section_index == s.section_index
    &&& e.value == s.value
    &&& e.size == s.size
}

/// The entry comes from a defined symbol of one of the inputs.
pub open spec fn from_input(objs: Seq<ObjectFile>, e: ResolvedModel) -> bool {
    exists|o: int, k: int|
        0 <= o < objs.len() && 0 <= k < objs[o].symbols@.len() && #[trigger] carries(e, o, objs[o].symbols@[k])
}

proof fn lemma_add_from_input(t: Seq<(KeyModel, ResolvedModel)>, objs: Seq<ObjectFile>, o: int, k: int)
    requires
        forall|i: int| 0 <= i < t.len() ==> from_input(objs, #[trigger] t[i].1),
        0 <= o < objs.len(),
        0 <= k < objs[o].symbols@.len(),
        objs[o].symbols@[k].section_index is Some,
        add_symbol(t, o, objs[o].symbols@[k]) is Some,
    ensures
        forall|i: int|
            0 <= i < add_symbol(t, o, objs[o].symbols@[k])->Some_0.len() ==> from_input(
                objs,
                #[trigger] add_symbol(t, o, objs[o].symbols@[k])->Some_0[i].1,
            ),
{
    let s = objs[o].symbols@[k];
    let t2 = add_symbol(t, o, s)->Some_0;
    assert(carries(symbol_entry(o, s), o, s));
    assert forall|i: int| 0 <= i < t2.len() implies from_input(objs, #[trigger] t2[i].1) by {
        if i < t.len() && t2[i] == t[i] {
        } else {
            assert(t2[i].1 == symbol_entry(o, s));
        }
    }
}

proof fn lemma_symbols_from_input(t: Seq<(KeyModel, ResolvedModel)>, objs: Seq<ObjectFile>, o: int, n: int)
    requires
        forall|i: int| 0 <= i < t.len() ==> from_input(objs, #[trigger] t[i].1),
        0 <= o < objs.len(),
        n <= objs[o].symbols@.len(),
        resolve_symbols(t, o, objs[o].symbols@, n) is Some,
    ensures
        forall|i: int|
            0 <= i < resolve_symbols(t, o, objs[o].symbols@, n)->Some_0.len() ==> from_input(
                objs,
                #[trigger] resolve_symbols(t, o, objs[o].symbols@, n)->Some_0[i].1,
            ),
    decreases n,
{
    if n > 0 {
        lemma_symbols_from_input(t, objs, o, n - 1);
        if objs[o].symbols@[n - 1].section_index is Some {
            lemma_add_from_input(resolve_symbols(t, o, objs[o].symbols@, n - 1)->Some_0, objs, o, n - 1);
        }
    }
}

proof fn lemma_objects_from_input(objs: Seq<ObjectFile>, n: int)
    requires
        n <= objs.len(),
        resolve_objects(objs, n) is Some,
    ensures
        forall|i: int|
            0 <= i < resolve_objects(objs, n)->Some_0.len() ==> from_input(objs, #[trigger] resolve_objects(objs, n)->Some_0[i].1),
    decreases n,
{
    if n > 0 {
        lemma_objects_from_input(objs, n - 1);
        lemma_symbols_from_input(resolve_objects(objs, n - 1)->Some_0, objs, n - 1, objs[n - 1].symbols@.len() as int);
    }
}

/// Resolution provenance law: every entry of a resolved table carries a
/// defined symbol of one of the inputs, unchanged: the input it names
/// holds a symbol with the entry's name, binding, section, value and size.
pub proof fn lemma_resolution_from_inputs(objs: Seq<ObjectFile>)
    requires
        resolve_objects(objs, objs.len() as int) is Some,
    ensures
        forall|i: int|
            0 <= i < resolve_objects(objs, objs.len() as int)->Some_0.len() ==> from_input(
                objs,
                #[trigger] resolve_objects(objs, objs.len() as int)->Some_0[i].1,
            ),
{
    lemma_objects_from_input(objs, objs.len() as int);
}

/// Some entry of the table is under key `k`.
pub open spec fn has_key(t: Seq<(KeyModel, ResolvedModel)>, k: KeyModel) -> bool {
    exists|i: int| 0 <= i < t.len() && #[trigger] t[i].0 == k
}

proof fn lemma_add_keeps_keys(t: Seq<(KeyModel, ResolvedModel)>, o: int, s: ObjectSymbol)
    requires
        add_symbol(t, o, s) is Some,
    ensures
        has_key(add_symbol(t, o, s)->Some_0, symbol_key(o, s)),
        forall|k: KeyModel| has_key(t, k) ==> has_key(add_symbol(t, o, s)->Some_0, k),
{
    let t2 = add_symbol(t, o, s)->Some_0;
    let key = symbol_key(o, s);
    match key_index(t, key) {
        None => {
            assert(t2[t.len() as int].0 == key);
            assert forall|k: KeyModel| has_key(t, k) implies has_key(t2, k) by {
                let i = choose|i: int| 0 <= i < t.len() && #[trigger] t[i].0 == k;
                assert(t2[i] == t[i]);
            }
        },
        Some(x) => {
            assert(0 <= x < t.len() && t[x].0 == key);
            assert(t2[x].0 == key);
            assert forall|k: KeyModel| has_key(t, k) implies has_key(t2, k) by {
                let i = choose|i: int| 0 <= i < t.len() && #[trigger] t[i].0 == k;
                assert(t2[i].0 == t[i].0);
            }
        },
    }
}

proof fn lemma_symbols_keep_keys(t: Seq<(KeyModel, ResolvedModel)>, o: int, syms: Seq<ObjectSymbol>, n: int)
    requires
        n <= syms.len(),
        resolve_symbols(t, o, syms, n) is Some,
    ensures
        forall|k: KeyModel| has_key(t, k) ==> has_key(resolve_symbols(t, o, syms, n)->Some_0, k),
        forall|j: int|
            0 <= j < n && (#[trigger] syms[j]).section_index is Some ==> has_key(
                resolve_symbols(t, o, syms, n)->Some_0,
                symbol_key(o, syms[j]),
            ),
    decreases n,
{
    if n > 0 {
        lemma_symbols_keep_keys(t, o, syms, n - 1);
        if syms[n - 1].section_index is Some {
            lemma_add_keeps_keys(resolve_symbols(t, o, syms, n - 1)->Some_0, o, syms[n - 1]);
        }
    }
}

proof fn lemma_objects_keep_keys(objs: Seq<ObjectFile>, n: int)
    requires
        n <= objs.len(),
        resolve_objects(objs, n) is Some,
    ensures
        forall|o: int, j: int|
            0 <= o < n && 0 <= j < objs[o].symbols@.len() && (#[trigger] objs[o].symbols@[j]).section_index is Some
                ==> has_key(resolve_objects(objs, n)->Some_0, symbol_key(o, objs[o].symbols@[j])),
    decreases n,
{
    if n > 0 {
        lemma_objects_keep_keys(objs, n - 1);
        let t = resolve_objects(objs, n - 1)->Some_0;
        lemma_symbols_keep_keys(t, n - 1, objs[n - 1].symbols@, objs[n - 1].symbols@.len() as int);
    }
}

/// Resolution completeness law: every defined symbol of every input is
/// found in the resolved table under its own key.
pub proof fn lemma_resolution_complete(objs: Seq<ObjectFile>)
    requires
        resolve_objects(objs, objs.len() as int) is Some,
    ensures
        forall|o: int, j: int|
            0 <= o < objs.len() && 0 <= j < objs[o].symbols@.len() && (#[trigger] objs[o].symbols@[j]).section_index
                is Some ==> has_key(resolve_objects(objs, objs.len() as int)->Some_0, symbol_key(o, objs[o].symbols@[j])),
{
    lemma_objects_keep_keys(objs, objs.len() as int);
}

proof fn lemma_symbols_stay_failed(
    t: Seq<(KeyModel, ResolvedModel)>,
    o: int,
    syms: Seq<ObjectSymbol>,
    n: int,
    m: int,
)
    requires
        0 <= n <= m,
        resolve_symbols(t, o, syms, n) is None,
    ensures
        resolve_symbols(t, o, syms, m) is None,
    decreases m,
{
    if m > n {
        lemma_symbols_stay_failed(t, o, syms, n, m - 1);
    }
}

proof fn lemma_objects_stay_failed(objs: Seq<ObjectFile>, k: int, m: int)
    requires
        0 <= k <= m,
        resolve_objects(objs, k) is None,
    ensures
        resolve_objects(objs, m) is None,
    decreases m,
{
    if m > k {
        lemma_objects_stay_failed(objs, k, m - 1);
    }
}

fn model_key(o: usize, s: &ObjectSymbol) -> (r: SymbolKey)
    ensures
        key_model(r) == symbol_key(o as int, *s),
{
    if s.binding == SymbolBinding::Local {
        SymbolKey::Local { object_index: o, name: s.name.clone() }
    } else {
        SymbolKey::Global(s.name.clone())
    }
}

fn same_key(a: &SymbolKey, b: &SymbolKey) -> (r: bool)
    ensures
        r == (key_model(*a) == key_model(*b)),
{
    match (a, b) {
        (SymbolKey::Global(x), SymbolKey::Global(y)) => *x == *y,
        (
            SymbolKey::Local { object_index: i, name: x },
            SymbolKey::Local { object_index: j, name: y },
        ) => *i == *j && *x == *y,
        _ => false,
    }
}

fn find_key(t: &Vec<(SymbolKey, ResolvedSymbol)>, k: &SymbolKey) -> (r: Option<usize>)
    ensures
        r matches Some(i) ==> i < t@.len() && key_model(t@[i as int].0) == key_model(*k),
        r is None ==> forall|i: int| 0 <= i < t@.len() ==> key_model(#[trigger] t@[i].0) != key_model(*k),
{
    let mut i: usize = 0;
    while i < t.len()
        invariant
            0 <= i <= t@.len(),
            forall|j: int| 0 <= j < i ==> key_model(#[trigger] t@[j].0) != key_model(*k),
        decreases t.len() - i,
    {
        if same_key(&t[i].0, k) {
            return Some(i);
        }
        i += 1;
    }
    None
}

impl SymbolTable {
    pub fn new() -> (r: Self)
        ensures
            r.symbols@.len() == 0,
    {
        Self { symbols: Vec::new() }
    }

    /// Resolve the defined symbols of `objects`, replacing any previous
    /// contents. Every input's object identity is checked first, then the
    /// symbols are resolved in order. On failure the table is empty.
    pub fn resolve(&mut self, objects: &[ObjectFile]) -> (r: Result<(), String>)
        ensures
            r is Ok <==> inputs_supported(objects@) && resolve_objects(objects@, objects@.len() as int) is Some,
            r is Ok ==> table_model(final(self).symbols@) == resolve_objects(
                objects@,
                objects@.len() as int,
            ).unwrap(),
            r is Err ==> final(self).symbols@.len() == 0,
            !inputs_supported(objects@) ==> exists|i: int|
                #[trigger] first_unsupported(objects@, i) && (r matches Err(e) && e@ == unsupported_input_text(
                    objects@,
                    i,
                )),
    {
        self.symbols = Vec::new();
        let mut v: usize = 0;
        while v < objects.len()
            invariant
                0 <= v <= objects@.len(),
                self.symbols@.len() == 0,
                forall|j: int| 0 <= j < v ==> (#[trigger] objects@[j]).target == amd64_object_target(),
            decreases objects.len() - v,
        {
            if let Err(e) = objects[v].target.validate() {
                let mut m = String::from_str("link input ");
                push_decimal(&mut m, v as u128);
                m.append(": ");
                m.append(e.to_string().as_str());
                proof {
                    assert(first_unsupported(objects@, v as int));
                    assert(m@ =~= unsupported_input_text(objects@, v as int));
                }
                return Err(m);
            }
            v += 1;
        }
        assert(inputs_supported(objects@));
        let mut symbols: Vec<(SymbolKey, ResolvedSymbol)> = Vec::new();
        let mut o: usize = 0;
        while o < objects.len()
            invariant
                0 <= o <= objects@.len(),
                self.symbols@.len() == 0,
                inputs_supported(objects@),
                resolve_objects(objects@, o as int) == Some(table_model(symbols@)),
                keys_distinct(table_model(symbols@)),
            decreases objects.len() - o,
        {
            let syms = &objects[o].symbols;
            let ghost start = table_model(symbols@);
            let mut n: usize = 0;
            while n < syms.len()
                invariant
                    0 <= o < objects@.len(),
                    inputs_supported(objects@),
                    *syms == objects@[o as int].symbols,
                    0 <= n <= syms@.len(),
                    self.symbols@.len() == 0,
                    resolve_objects(objects@, o as int) == Some(start),
                    resolve_symbols(start, o as int, syms@, n as int) == Some(table_model(symbols@)),
                    keys_distinct(table_model(symbols@)),
                decreases syms.len() - n,
            {
                let sym = &syms[n];
                if sym.section_index.is_some() {
                    let key = model_key(o, sym);
                    let entry = ResolvedSymbol {
                        name: sym.name.clone(),
                        object_index: Some(o),
                        section_index: sym.section_index,
                        value: sym.value,
                        size: sym.size,
                        binding: sym.binding,
                    };
                    let ghost before = table_model(symbols@);
                    match find_key(&symbols, &key) {
                        Some(i) => {
                            proof {
                                lemma_key_index(before, symbol_key(o as int, *sym), i as int);
                            }
                            if sym.binding != SymbolBinding::Weak {
                                let m = if sym.binding == SymbolBinding::Local {
                                    let mut m = String::from_str("Duplicate local symbol in object ");
                                    push_decimal(&mut m, o as u128);
                                    m.append(": ");
                                    m
                                } else {
                                    String::from_str("Duplicate global symbol: ")
                                };
                                let mut m = m;
                                m.append(sym.name.as_str());
                                proof {
                                    assert(resolve_symbols(start, o as int, syms@, n + 1) is None);
                                    lemma_symbols_stay_failed(
                                        start,
                                        o as int,
                                        syms@,
                                        n + 1,
                                        syms@.len() as int,
                                    );
                                    assert(resolve_objects(objects@, o + 1) is None);
                                    lemma_objects_stay_failed(objects@, o + 1, objects@.len() as int);
                                }
                                return Err(m);
                            }
                            symbols.set(i, (key, entry));
                            proof {
                                assert(table_model(symbols@) =~= before.update(
                                    i as int,
                                    (symbol_key(o as int, *sym), symbol_entry(o as int, *sym)),
                                ));
                            }
                        },
                        None => {
                            symbols.push((key, entry));
                            proof {
                                assert(key_index(before, symbol_key(o as int, *sym)) is None);
                                assert(table_model(symbols@) =~= before.push(
                                    (symbol_key(o as int, *sym), symbol_entry(o as int, *sym)),
                                ));
                            }
                        },
                    }
                }
                n += 1;
            }
            o += 1;
        }
        self.symbols = symbols;
        Ok(())
    }
}

} // verus!
