//! What a program declares at its top level: its structs, with their attributes, and its
//! globals (the functions), with their types. Each is kept as a list of named entries in
//! which every name occurs once, as in a map; a later declaration of a name replaces the
//! earlier one.
use crate::compiler::vars::{entries_view, SpecEntry};
use crate::parser::ast::{fields_view, name_view, Definition, Program, Qualifier, RangeAnnotation, SpecDefinition, SpecNode};
use crate::parser::cerium_type::{lemma_types_view_len, type_view, types_view, CeriumType, SpecType};
use vstd::prelude::*;

verus! {

/// The typed names of a struct's attributes, as mathematical values.
pub type SpecFields = Seq<(RangeAnnotation<Seq<Seq<char>>>, RangeAnnotation<SpecType>)>;

/// A struct's name and attributes, as mathematical values.
pub type SpecStructEntry = (Seq<Seq<char>>, SpecFields);

/// The names of named entries, in order.
pub open spec fn keys_of<V>(m: Seq<(Seq<Seq<char>>, V)>) -> Seq<Seq<Seq<char>>> {
    m.map_values(|e: (Seq<Seq<char>>, V)| e.0)
}

/// The index of the first occurrence of `k` in `keys`.
pub open spec fn key_position(keys: Seq<Seq<Seq<char>>>, k: Seq<Seq<char>>) -> Option<int>
    decreases keys.len(),
{
    if keys.len() == 0 {
        None
    } else if keys[0] == k {
        Some(0)
    } else {
        match key_position(keys.drop_first(), k) {
            Some(i) => Some(i + 1),
            None => None,
        }
    }
}

/// `m` with `k` bound to `v`: the entry named `k` gets the value `v` where it stands, or,
/// when there is none, a new entry is added at the end.
pub open spec fn put<V>(m: Seq<(Seq<Seq<char>>, V)>, k: Seq<Seq<char>>, v: V) -> Seq<(Seq<Seq<char>>, V)> {
    match key_position(keys_of(m), k) {
        Some(i) => m.update(i, (k, v)),
        None => m.push((k, v)),
    }
}

/// The type of a function with the given parameters and return type.
pub open spec fn function_type(parameters: SpecFields, return_type: Option<RangeAnnotation<SpecType>>) -> SpecType {
    SpecType::Function(
        parameters.map_values(|p: (RangeAnnotation<Seq<Seq<char>>>, RangeAnnotation<SpecType>)| p.1.inner),
        match return_type {
            Some(t) => Some(Box::new(t.inner)),
            None => None,
        },
    )
}

/// The structs and the globals that `defs` declare, in order: a struct binds its name
/// to its attributes, a function binds its name to its type, a constant binds nothing.
pub open spec fn declared(defs: Seq<SpecDefinition>) -> (Seq<SpecStructEntry>, Seq<SpecEntry>)
    decreases defs.len(),
{
    if defs.len() == 0 {
        (Seq::empty(), Seq::empty())
    } else {
        let (structs, globals) = declared(defs.drop_last());
        match defs.last() {
            SpecDefinition::Function { name, parameters, return_type, .. } => (
                structs,
                put(globals, name.inner, function_type(parameters, return_type)),
            ),
            SpecDefinition::Struct { name, attributes } => (put(structs, name.inner, attributes), globals),
            SpecDefinition::Const { .. } => (structs, globals),
        }
    }
}

/// The mathematical value of a struct entry.
pub open spec fn struct_entry_view(e: (Qualifier, Vec<(RangeAnnotation<Qualifier>, RangeAnnotation<CeriumType>)>)) -> SpecStructEntry {
    (e.0@, fields_view(e.1@))
}

/// The mathematical values of struct entries.
pub open spec fn struct_entries_view(v: Seq<(Qualifier, Vec<(RangeAnnotation<Qualifier>, RangeAnnotation<CeriumType>)>)>) -> Seq<SpecStructEntry> {
    v.map_values(|e: (Qualifier, Vec<(RangeAnnotation<Qualifier>, RangeAnnotation<CeriumType>)>)| struct_entry_view(e))
}

proof fn lemma_key_position(keys: Seq<Seq<Seq<char>>>, k: Seq<Seq<char>>, i: int)
    requires
        0 <= i <= keys.len(),
        forall|j: int| 0 <= j < i ==> keys[j] != k,
    ensures
        i < keys.len() && keys[i] == k ==> key_position(keys, k) == Some(i),
        i == keys.len() ==> key_position(keys, k) is None,
    decreases i,
{
    if i > 0 {
        assert forall|j: int| 0 <= j < i - 1 implies keys.drop_first()[j] != k by {
            assert(keys.drop_first()[j] == keys[j + 1]);
        }
        lemma_key_position(keys.drop_first(), k, i - 1);
    }
}

/// The index of the first entry of `m` named `k`, if there is one.
fn find_key<V>(m: &Vec<(Qualifier, V)>, k: &Qualifier) -> (r: Option<usize>)
    ensures
        key_position(m@.map_values(|e: (Qualifier, V)| e.0@), k@) == match r {
            Some(i) => Some(i as int),
            None => None::<int>,
        },
        r matches Some(i) ==> i < m@.len(),
{
    let ghost keys = m@.map_values(|e: (Qualifier, V)| e.0@);
    let mut i: usize = 0;
    while i < m.len()
        invariant
            i <= m@.len(),
            keys == m@.map_values(|e: (Qualifier, V)| e.0@),
            forall|j: int| 0 <= j < i ==> keys[j] != k@,
        decreases m@.len() - i,
    {
        if m[i].0.equals(k) {
            proof {
                lemma_key_position(keys, k@, i as int);
            }
            return Some(i);
        }
        i = i + 1;
    }
    proof {
        lemma_key_position(keys, k@, i as int);
    }
    None
}

proof fn lemma_key_position_facts(keys: Seq<Seq<Seq<char>>>, k: Seq<Seq<char>>)
    ensures
        key_position(keys, k) matches Some(i) ==> 0 <= i < keys.len() && keys[i] == k,
        key_position(keys, k) is None ==> forall|j: int| 0 <= j < keys.len() ==> keys[j] != k,
    decreases keys.len(),
{
    if keys.len() > 0 && keys[0] != k {
        lemma_key_position_facts(keys.drop_first(), k);
        if key_position(keys, k) is None {
            assert forall|j: int| 0 <= j < keys.len() implies keys[j] != k by {
                if j > 0 {
                    assert(keys[j] == keys.drop_first()[j - 1]);
                }
            }
        }
    }
}

proof fn lemma_put_distinct<V>(m: Seq<(Seq<Seq<char>>, V)>, k: Seq<Seq<char>>, v: V)
    requires
        keys_of(m).no_duplicates(),
    ensures
        keys_of(put(m, k, v)).no_duplicates(),
{
    lemma_key_position_facts(keys_of(m), k);
    match key_position(keys_of(m), k) {
        Some(i) => {
            assert(keys_of(put(m, k, v)) =~= keys_of(m));
        },
        None => {
            assert(keys_of(put(m, k, v)) =~= keys_of(m).push(k));
        },
    }
}

/// Each name is declared once: in the structs and in the globals that a program
/// declares, no name occurs twice (a later declaration replaces an earlier one).
pub proof fn law_declared_names_distinct(defs: Seq<SpecDefinition>)
    ensures
        keys_of(declared(defs).0).no_duplicates(),
        keys_of(declared(defs).1).no_duplicates(),
    decreases defs.len(),
{
    if defs.len() == 0 {
        assert(keys_of(declared(defs).0) =~= Seq::empty());
        assert(keys_of(declared(defs).1) =~= Seq::empty());
    } else {
        law_declared_names_distinct(defs.drop_last());
        let (structs, globals) = declared(defs.drop_last());
        match defs.last() {
            SpecDefinition::Function { name, parameters, return_type, .. } => {
                lemma_put_distinct(globals, name.inner, function_type(parameters, return_type));
            },
            SpecDefinition::Struct { name, attributes } => {
                lemma_put_distinct(structs, name.inner, attributes);
            },
            SpecDefinition::Const { .. } => {},
        }
    }
}

/// The last declaration of a name counts: after a function is declared, its name is
/// bound to its type among the globals.
pub proof fn law_latest_declaration_counts(m: Seq<SpecEntry>, k: Seq<Seq<char>>, t: SpecType)
    ensures
        key_position(keys_of(put(m, k, t)), k) matches Some(i) && put(m, k, t)[i] == (k, t),
{
    lemma_key_position_facts(keys_of(m), k);
    let p = put(m, k, t);
    match key_position(keys_of(m), k) {
        Some(i) => {
            assert(keys_of(p) =~= keys_of(m));
        },
        None => {
            assert(keys_of(p) =~= keys_of(m).push(k));
            lemma_key_position(keys_of(p), k, m.len() as int);
        },
    }
}

/// A function declares its name among the globals with the type of a function whose
/// parameter types are those of its parameters, in order, and whose return type is the
/// one written after `->`, or none when none is written.
pub proof fn law_function_declares_its_signature(
    defs: Seq<SpecDefinition>,
    name: RangeAnnotation<Seq<Seq<char>>>,
    parameters: Seq<(RangeAnnotation<Seq<Seq<char>>>, RangeAnnotation<SpecType>)>,
    return_type: Option<RangeAnnotation<SpecType>>,
    body: SpecNode,
)
    ensures
        ({
            let globals = declared(defs.push(SpecDefinition::Function { name, parameters, return_type, body })).1;
            let pos = key_position(keys_of(globals), name.inner);
            let t = globals[pos->Some_0].1;
            &&& pos is Some
            &&& globals[pos->Some_0].0 == name.inner
            &&& t is Function
            &&& t->Function_0.len() == parameters.len()
            &&& forall|k: int| 0 <= k < parameters.len() ==> t->Function_0[k] == #[trigger] parameters[k].1.inner
            &&& match return_type {
                Some(rt) => t->Function_1 == Some(Box::new(rt.inner)),
                None => t->Function_1 is None,
            }
        }),
{
    let all = defs.push(SpecDefinition::Function { name, parameters, return_type, body });
    assert(all.drop_last() =~= defs);
    law_latest_declaration_counts(declared(defs).1, name.inner, function_type(parameters, return_type));
}

/// A copy of typed names.
fn copy_fields(v: &Vec<(RangeAnnotation<Qualifier>, RangeAnnotation<CeriumType>)>) -> (r: Vec<(RangeAnnotation<Qualifier>, RangeAnnotation<CeriumType>)>)
    ensures
        fields_view(r@) == fields_view(v@),
{
    let mut r: Vec<(RangeAnnotation<Qualifier>, RangeAnnotation<CeriumType>)> = Vec::new();
    let mut i: usize = 0;
    while i < v.len()
        invariant
            i <= v@.len(),
            fields_view(r@) == fields_view(v@.subrange(0, i as int)),
        decreases v@.len() - i,
    {
        let (n, t) = &v[i];
        let name = RangeAnnotation::new(n.range.start..n.range.end, n.inner.duplicate());
        let typ = RangeAnnotation::new(t.range.start..t.range.end, t.inner.duplicate());
        let ghost before = r@;
        r.push((name, typ));
        proof {
            assert(fields_view(r@) =~= fields_view(before).push((name_view(v@[i as int].0), crate::parser::ast::type_annotation_view(v@[i as int].1))));
            assert(fields_view(v@.subrange(0, i + 1)) =~= fields_view(v@.subrange(0, i as int)).push((name_view(v@[i as int].0), crate::parser::ast::type_annotation_view(v@[i as int].1))));
        }
        i = i + 1;
    }
    assert(v@.subrange(0, v@.len() as int) =~= v@);
    r
}

/// The types of typed names, in order.
fn field_types(v: &Vec<(RangeAnnotation<Qualifier>, RangeAnnotation<CeriumType>)>) -> (r: Vec<CeriumType>)
    ensures
        types_view(r@) == fields_view(v@).map_values(|p: (RangeAnnotation<Seq<Seq<char>>>, RangeAnnotation<SpecType>)| p.1.inner),
{
    let mut r: Vec<CeriumType> = Vec::new();
    let mut i: usize = 0;
    while i < v.len()
        invariant
            i <= v@.len(),
            r@.len() == i,
            forall|j: int| 0 <= j < i ==> type_view(#[trigger] r@[j]) == v@[j].1.inner@,
        decreases v@.len() - i,
    {
        r.push(v[i].1.inner.duplicate());
        i = i + 1;
    }
    proof {
        lemma_types_view_len(r@);
        assert(types_view(r@) =~= fields_view(v@).map_values(|p: (RangeAnnotation<Seq<Seq<char>>>, RangeAnnotation<SpecType>)| p.1.inner));
    }
    r
}

impl Program {
    /// The structs, with their attributes, and the globals, with their types, that the
    /// program declares (see `declared`); constants declare neither.
    pub fn parse_structure(&self) -> (r: (
        Vec<(Qualifier, Vec<(RangeAnnotation<Qualifier>, RangeAnnotation<CeriumType>)>)>,
        Vec<(Qualifier, CeriumType)>,
    ))
        ensures
            struct_entries_view(r.0@) == declared(self@).0,
            entries_view(r.1@) == declared(self@).1,
            keys_of(struct_entries_view(r.0@)).no_duplicates(),
            keys_of(entries_view(r.1@)).no_duplicates(),
    {
        let mut structs: Vec<(Qualifier, Vec<(RangeAnnotation<Qualifier>, RangeAnnotation<CeriumType>)>)> = Vec::new();
        let mut globals: Vec<(Qualifier, CeriumType)> = Vec::new();
        let ghost defs = self@;
        let mut i: usize = 0;
        assert(defs.subrange(0, 0) =~= Seq::<SpecDefinition>::empty());
        assert(struct_entries_view(structs@) =~= Seq::empty());
        assert(entries_view(globals@) =~= Seq::empty());
        while i < self.definitions.len()
            invariant
                i <= self.definitions@.len(),
                defs == self@,
                defs.len() == self.definitions@.len(),
                (struct_entries_view(structs@), entries_view(globals@)) == declared(defs.subrange(0, i as int)),
            decreases self.definitions@.len() - i,
        {
            let ghost prefix = defs.subrange(0, i + 1);
            assert(prefix.drop_last() =~= defs.subrange(0, i as int));
            assert(prefix.last() == self.definitions@[i as int]@);
            match &self.definitions[i] {
                Definition::Function(function) => {
                    let name = function.name.inner.duplicate();
                    let params = field_types(&function.parameters);
                    let return_type = match &function.return_type {
                        Some(t) => Some(Box::new(t.inner.duplicate())),
                        None => None,
                    };
                    let function_type = CeriumType::Function(params, return_type);
                    let ghost before = globals@;
                    let found = find_key(&globals, &name);
                    proof {
                        assert(globals@.map_values(|e: (Qualifier, CeriumType)| e.0@) =~= keys_of(entries_view(globals@)));
                    }
                    match found {
                        Some(k) => {
                            globals.set(k, (name, function_type));
                            proof {
                                assert(entries_view(globals@) =~= entries_view(before).update(k as int, entries_view(globals@)[k as int]));
                            }
                        },
                        None => {
                            globals.push((name, function_type));
                            proof {
                                assert(entries_view(globals@) =~= entries_view(before).push(entries_view(globals@).last()));
                            }
                        },
                    }
                },
                Definition::Struct(structure) => {
                    let name = structure.name.inner.duplicate();
                    let attributes = copy_fields(&structure.attributes);
                    let ghost before = structs@;
                    let found = find_key(&structs, &name);
                    proof {
                        assert(structs@.map_values(|e: (Qualifier, Vec<(RangeAnnotation<Qualifier>, RangeAnnotation<CeriumType>)>)| e.0@)
                            =~= keys_of(struct_entries_view(structs@)));
                    }
                    match found {
                        Some(k) => {
                            structs.set(k, (name, attributes));
                            proof {
                                assert(struct_entries_view(structs@) =~= struct_entries_view(before).update(k as int, struct_entries_view(structs@)[k as int]));
                            }
                        },
                        None => {
                            structs.push((name, attributes));
                            proof {
                                assert(struct_entries_view(structs@) =~= struct_entries_view(before).push(struct_entries_view(structs@).last()));
                            }
                        },
                    }
                },
                Definition::Const(_) => {},
            }
            i = i + 1;
        }
        assert(defs.subrange(0, defs.len() as int) =~= defs);
        proof {
            law_declared_names_distinct(defs);
        }
        (structs, globals)
    }
}

} // verus!
