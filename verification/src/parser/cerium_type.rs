//! The types of the Cerium language.
use vstd::prelude::*;
use vstd::string::*;

verus! {

/// A type of the language.
#[derive(Debug)]
pub enum CeriumType {
    I16,
    U16,
    F16,
    Any,
    Bool,
    Struct(String),
    /// Parameter types and, unless the function returns nothing, the return type.
    Function(Vec<CeriumType>, Option<Box<CeriumType>>),
    Pointer(Box<CeriumType>),
}

/// The mathematical value of a `CeriumType`.
pub enum SpecType {
    I16,
    U16,
    F16,
    Any,
    Bool,
    Struct(Seq<char>),
    Function(Seq<SpecType>, Option<Box<SpecType>>),
    Pointer(Box<SpecType>),
}

/// The mathematical value of a type.
pub open spec fn type_view(t: CeriumType) -> SpecType
    decreases t,
{
    match t {
        CeriumType::I16 => SpecType::I16,
        CeriumType::U16 => SpecType::U16,
        CeriumType::F16 => SpecType::F16,
        CeriumType::Any => SpecType::Any,
        CeriumType::Bool => SpecType::Bool,
        CeriumType::Struct(name) => SpecType::Struct(name@),
        CeriumType::Function(params, ret) => SpecType::Function(
            types_view(params@),
            match ret {
                Some(r) => Some(Box::new(type_view(*r))),
                None => None,
            },
        ),
        CeriumType::Pointer(inner) => SpecType::Pointer(Box::new(type_view(*inner))),
    }
}

/// The mathematical values of a sequence of types.
pub open spec fn types_view(ts: Seq<CeriumType>) -> Seq<SpecType>
    decreases ts,
{
    if ts.len() == 0 {
        Seq::empty()
    } else {
        types_view(ts.subrange(0, ts.len() - 1)).push(type_view(ts[ts.len() - 1]))
    }
}

/// The values of a sequence of types: one for each type, in order.
pub proof fn lemma_types_view_len(ts: Seq<CeriumType>)
    ensures
        types_view(ts).len() == ts.len(),
        forall|i: int| 0 <= i < ts.len() ==> #[trigger] types_view(ts)[i] == type_view(ts[i]),
    decreases ts.len(),
{
    if ts.len() > 0 {
        lemma_types_view_len(ts.subrange(0, ts.len() - 1));
    }
}

/// Two sequences of types have the same values when they have the same length and
/// the same value at each index.
proof fn lemma_types_view_ext(a: Seq<CeriumType>, b: Seq<CeriumType>)
    requires
        a.len() == b.len(),
        forall|i: int| 0 <= i < a.len() ==> type_view(#[trigger] a[i]) == type_view(b[i]),
    ensures
        types_view(a) == types_view(b),
{
    lemma_types_view_len(a);
    lemma_types_view_len(b);
    assert(types_view(a) =~= types_view(b));
}

/// Texts joined by `sep`.
pub open spec fn join_texts(items: Seq<Seq<char>>, sep: Seq<char>) -> Seq<char>
    decreases items.len(),
{
    if items.len() == 0 {
        Seq::empty()
    } else if items.len() == 1 {
        items[0]
    } else {
        join_texts(items.drop_last(), sep) + sep + items.last()
    }
}

/// The text of a type: `i16`, `u16`, `f16`, `any`, `bool`, a struct's name,
/// `fn(params) -> result` (or `fn(params)` for a function that returns nothing), `&inner`.
pub open spec fn type_text(t: SpecType) -> Seq<char>
    decreases t,
{
    match t {
        SpecType::I16 => "i16"@,
        SpecType::U16 => "u16"@,
        SpecType::F16 => "f16"@,
        SpecType::Any => "any"@,
        SpecType::Bool => "bool"@,
        SpecType::Struct(name) => name,
        SpecType::Function(params, ret) => match ret {
            Some(r) => "fn("@ + type_list_text(params) + ") -> "@ + type_text(*r),
            None => "fn("@ + type_list_text(params) + ")"@,
        },
        SpecType::Pointer(inner) => "&"@ + type_text(*inner),
    }
}

/// The texts of types joined by `, `.
pub open spec fn type_list_text(ts: Seq<SpecType>) -> Seq<char>
    decreases ts,
{
    if ts.len() == 0 {
        Seq::empty()
    } else if ts.len() == 1 {
        type_text(ts[0])
    } else {
        type_list_text(ts.drop_last()) + ", "@ + type_text(ts.last())
    }
}

/// The text of an optional type: `unit` for none.
pub open spec fn optional_type_text(t: Option<SpecType>) -> Seq<char> {
    match t {
        Some(t) => type_text(t),
        None => "unit"@,
    }
}

proof fn lemma_type_list_text(ts: Seq<SpecType>, texts: Seq<Seq<char>>)
    requires
        ts.len() == texts.len(),
        forall|i: int| 0 <= i < ts.len() ==> #[trigger] texts[i] == type_text(ts[i]),
    ensures
        join_texts(texts, ", "@) == type_list_text(ts),
    decreases ts.len(),
{
    if ts.len() > 1 {
        lemma_type_list_text(ts.drop_last(), texts.drop_last());
    }
}

/// The texts in `arr`, joined by `sep`.
pub fn join(arr: &[String], sep: &str) -> (r: String)
    ensures
        r@ == join_texts(arr@.map_values(|s: String| s@), sep@),
{
    let ghost items = arr@.map_values(|s: String| s@);
    let mut r = String::new();
    let mut i: usize = 0;
    while i < arr.len()
        invariant
            i <= arr@.len(),
            items == arr@.map_values(|s: String| s@),
            r@ == join_texts(items.subrange(0, i as int), sep@),
        decreases arr@.len() - i,
    {
        if i > 0 {
            r.append(sep);
        }
        r.append(arr[i].as_str());
        proof {
            let parts = items.subrange(0, i + 1);
            assert(parts.drop_last() =~= items.subrange(0, i as int));
            assert(parts.last() == arr@[i as int]@);
        }
        i = i + 1;
    }
    assert(items.subrange(0, arr@.len() as int) =~= items);
    r
}

/// The text of an optional type: `unit` for none.
pub fn format_type(c_type: &Option<CeriumType>) -> (r: String)
    ensures
        r@ == optional_type_text(match c_type {
            Some(t) => Some(t@),
            None => None,
        }),
{
    match c_type {
        Some(t) => t.to_string(),
        None => {
            proof {
                reveal_strlit("unit");
            }
            String::from_str("unit")
        },
    }
}

impl CeriumType {
    /// A copy of this type.
    pub fn duplicate(&self) -> (r: CeriumType)
        ensures
            r@ == self@,
        decreases self,
    {
        match self {
            CeriumType::I16 => CeriumType::I16,
            CeriumType::U16 => CeriumType::U16,
            CeriumType::F16 => CeriumType::F16,
            CeriumType::Any => CeriumType::Any,
            CeriumType::Bool => CeriumType::Bool,
            CeriumType::Struct(name) => CeriumType::Struct(name.clone()),
            CeriumType::Function(params, ret) => {
                let mut copies: Vec<CeriumType> = Vec::new();
                let mut i: usize = 0;
                while i < params.len()
                    invariant
                        i <= params@.len(),
                        copies@.len() == i,
                        forall|j: int| 0 <= j < i ==> type_view(#[trigger] copies@[j]) == type_view(params@[j]),
                        *self == CeriumType::Function(*params, *ret),
                    decreases params@.len() - i,
                {
                    proof {
                        assert(decreases_to!(*self => (*self)->Function_0));
                        assert(decreases_to!(*params => params@));
                        assert(decreases_to!(params@ => params@[i as int]));
                    }
                    let c = params[i].duplicate();
                    copies.push(c);
                    i = i + 1;
                }
                proof {
                    lemma_types_view_ext(copies@, params@);
                }
                let ret_copy = match ret {
                    Some(r) => Some(Box::new((**r).duplicate())),
                    None => None,
                };
                CeriumType::Function(copies, ret_copy)
            },
            CeriumType::Pointer(inner) => CeriumType::Pointer(Box::new((**inner).duplicate())),
        }
    }

    /// The text of this type (see `type_text`).
    pub fn to_string(&self) -> (r: String)
        ensures
            r@ == type_text(self@),
        decreases self,
    {
        proof {
            reveal_strlit("i16");
            reveal_strlit("u16");
            reveal_strlit("f16");
            reveal_strlit("any");
            reveal_strlit("bool");
            reveal_strlit("fn(");
            reveal_strlit(") -> ");
            reveal_strlit(")");
            reveal_strlit("&");
            reveal_strlit(", ");
        }
        match self {
            CeriumType::I16 => String::from_str("i16"),
            CeriumType::U16 => String::from_str("u16"),
            CeriumType::F16 => String::from_str("f16"),
            CeriumType::Any => String::from_str("any"),
            CeriumType::Bool => String::from_str("bool"),
            CeriumType::Struct(name) => name.clone(),
            CeriumType::Function(params, ret) => {
                proof {
                    lemma_types_view_len(params@);
                }
                let mut texts: Vec<String> = Vec::new();
                let mut i: usize = 0;
                while i < params.len()
                    invariant
                        i <= params@.len(),
                        texts@.len() == i,
                        types_view(params@).len() == params@.len(),
                        forall|j: int| 0 <= j < params@.len() ==> #[trigger] types_view(params@)[j] == type_view(params@[j]),
                        forall|j: int| 0 <= j < i ==> #[trigger] texts@[j]@ == type_text(type_view(params@[j])),
                        *self == CeriumType::Function(*params, *ret),
                    decreases params@.len() - i,
                {
                    proof {
                        assert(decreases_to!(*self => (*self)->Function_0));
                        assert(decreases_to!(*params => params@));
                        assert(decreases_to!(params@ => params@[i as int]));
                    }
                    let t = params[i].to_string();
                    texts.push(t);
                    i = i + 1;
                }
                let joined = join(texts.as_slice(), ", ");
                proof {
                    let views = texts@.map_values(|s: String| s@);
                    lemma_type_list_text(types_view(params@), views);
                }
                let mut r = String::from_str("fn(");
                r.append(joined.as_str());
                match ret {
                    Some(rt) => {
                        r.append(") -> ");
                        r.append((**rt).to_string().as_str());
                    },
                    None => {
                        r.append(")");
                    },
                }
                r
            },
            CeriumType::Pointer(inner) => {
                let mut r = String::from_str("&");
                r.append((**inner).to_string().as_str());
                r
            },
        }
    }

    /// Whether two types are the same.
    pub fn equals(&self, other: &CeriumType) -> (r: bool)
        ensures
            r == (self@ == other@),
        decreases self,
    {
        match (self, other) {
            (CeriumType::I16, CeriumType::I16) => true,
            (CeriumType::U16, CeriumType::U16) => true,
            (CeriumType::F16, CeriumType::F16) => true,
            (CeriumType::Any, CeriumType::Any) => true,
            (CeriumType::Bool, CeriumType::Bool) => true,
            (CeriumType::Struct(a), CeriumType::Struct(b)) => crate::text::str_equals(a.as_str(), b.as_str()),
            (CeriumType::Function(pa, ra), CeriumType::Function(pb, rb)) => {
                proof {
                    lemma_types_view_len(pa@);
                    lemma_types_view_len(pb@);
                }
                if pa.len() != pb.len() {
                    return false;
                }
                let mut i: usize = 0;
                while i < pa.len()
                    invariant
                        i <= pa@.len(),
                        pa@.len() == pb@.len(),
                        types_view(pa@).len() == pa@.len(),
                        types_view(pb@).len() == pb@.len(),
                        forall|j: int| 0 <= j < pa@.len() ==> #[trigger] types_view(pa@)[j] == type_view(pa@[j]),
                        forall|j: int| 0 <= j < pb@.len() ==> #[trigger] types_view(pb@)[j] == type_view(pb@[j]),
                        forall|j: int| 0 <= j < i ==> type_view(#[trigger] pa@[j]) == type_view(pb@[j]),
                        *self == CeriumType::Function(*pa, *ra),
                        *other == CeriumType::Function(*pb, *rb),
                    decreases pa@.len() - i,
                {
                    proof {
                        assert(decreases_to!(*self => (*self)->Function_0));
                        assert(decreases_to!(*pa => pa@));
                        assert(decreases_to!(pa@ => pa@[i as int]));
                    }
                    if !pa[i].equals(&pb[i]) {
                        assert(types_view(pa@)[i as int] != types_view(pb@)[i as int]);
                        return false;
                    }
                    i = i + 1;
                }
                proof {
                    lemma_types_view_ext(pa@, pb@);
                }
                match (ra, rb) {
                    (Some(a), Some(b)) => (**a).equals(&**b),
                    (None, None) => true,
                    _ => false,
                }
            },
            (CeriumType::Pointer(a), CeriumType::Pointer(b)) => (**a).equals(&**b),
            _ => false,
        }
    }
}

impl View for CeriumType {
    type V = SpecType;

    open spec fn view(&self) -> SpecType {
        type_view(*self)
    }
}

} // verus!
