use vstd::prelude::*;

verus! {

/// The mathematical model of a rencode value: what a decoder can hand back and
/// what an encoder writes. Floating-point numbers are held by their IEEE-754 bits.
pub enum Model {
    Unit,
    Bool(bool),
    I8(i8),
    I16(i16),
    I32(i32),
    I64(i64),
    F32(u32),
    F64(u64),
    Str(Seq<char>),
    List(Seq<Model>),
    Dict(Seq<(Model, Model)>),
}

/// A rencode value held in memory.
#[derive(Debug, PartialEq)]
pub enum Value {
    Unit,
    Bool(bool),
    I8(i8),
    I16(i16),
    I32(i32),
    I64(i64),
    /// A 32-bit float, by its bits.
    F32(u32),
    /// A 64-bit float, by its bits.
    F64(u64),
    Str(String),
    List(Vec<Value>),
    /// Key/value pairs in the order in which they stand on the wire.
    Dict(Vec<(Value, Value)>),
}

impl Value {
    pub open spec fn model(self) -> Model
        decreases self,
    {
        match self {
            Value::Unit => Model::Unit,
            Value::Bool(b) => Model::Bool(b),
            Value::I8(x) => Model::I8(x),
            Value::I16(x) => Model::I16(x),
            Value::I32(x) => Model::I32(x),
            Value::I64(x) => Model::I64(x),
            Value::F32(x) => Model::F32(x),
            Value::F64(x) => Model::F64(x),
            Value::Str(s) => Model::Str(s@),
            Value::List(v) => Model::List(
                Seq::new(
                    v.len() as nat,
                    |i: int|
                        if 0 <= i < v.len() {
                            v@[i].model()
                        } else {
                            Model::Unit
                        },
                ),
            ),
            Value::Dict(v) => Model::Dict(
                Seq::new(
                    v.len() as nat,
                    |i: int|
                        if 0 <= i < v.len() {
                            (v@[i].0.model(), v@[i].1.model())
                        } else {
                            (Model::Unit, Model::Unit)
                        },
                ),
            ),
        }
    }
}

impl Value {
    /// A copy of the value, all the way down.
    pub fn deep_clone(&self) -> (r: Value)
        ensures
            r.model() == self.model(),
        decreases self,
    {
        match self {
            Value::Unit => Value::Unit,
            Value::Bool(b) => Value::Bool(*b),
            Value::I8(x) => Value::I8(*x),
            Value::I16(x) => Value::I16(*x),
            Value::I32(x) => Value::I32(*x),
            Value::I64(x) => Value::I64(*x),
            Value::F32(x) => Value::F32(*x),
            Value::F64(x) => Value::F64(*x),
            Value::Str(s) => Value::Str(s.clone()),
            Value::List(items) => {
                let mut out: Vec<Value> = Vec::new();
                let mut i: usize = 0;
                while i < items.len()
                    invariant
                        *self == Value::List(*items),
                        i <= items.len(),
                        out.len() == i,
                        forall|j: int| 0 <= j < i ==> (#[trigger] out@[j]).model() == items@[j].model(),
                    decreases items.len() - i,
                {
                    proof {
                        vstd::std_specs::vec::axiom_vec_index_decreases(*items, i as int);
                        assert(decreases_to!(*self => self->List_0));
                    }
                    out.push(items[i].deep_clone());
                    i = i + 1;
                }
                proof {
                    lemma_list_model(*items);
                    lemma_list_model(out);
                    assert(models(out@) =~= models(items@));
                }
                Value::List(out)
            },
            Value::Dict(pairs) => {
                let mut out: Vec<(Value, Value)> = Vec::new();
                let mut i: usize = 0;
                while i < pairs.len()
                    invariant
                        *self == Value::Dict(*pairs),
                        i <= pairs.len(),
                        out.len() == i,
                        forall|j: int|
                            0 <= j < i ==> (#[trigger] out@[j]).0.model() == pairs@[j].0.model()
                                && out@[j].1.model() == pairs@[j].1.model(),
                    decreases pairs.len() - i,
                {
                    proof {
                        vstd::std_specs::vec::axiom_vec_index_decreases(*pairs, i as int);
                        assert(decreases_to!(*self => self->Dict_0));
                        assert(decreases_to!(pairs[i as int] => pairs[i as int].0));
                    }
                    let k = pairs[i].0.deep_clone();
                    let v = pairs[i].1.deep_clone();
                    out.push((k, v));
                    i = i + 1;
                }
                proof {
                    lemma_dict_model(*pairs);
                    lemma_dict_model(out);
                    assert(pair_models(out@) =~= pair_models(pairs@));
                }
                Value::Dict(out)
            },
        }
    }
}

pub open spec fn models(v: Seq<Value>) -> Seq<Model> {
    Seq::new(v.len(), |i: int| v[i].model())
}

pub open spec fn pair_models(v: Seq<(Value, Value)>) -> Seq<(Model, Model)> {
    Seq::new(v.len(), |i: int| (v[i].0.model(), v[i].1.model()))
}

pub proof fn lemma_list_model(v: Vec<Value>)
    ensures
        Value::List(v).model() == Model::List(models(v@)),
{
    let m = Value::List(v).model();
    assert(m is List);
    assert(m->List_0 =~= models(v@));
}

pub proof fn lemma_dict_model(v: Vec<(Value, Value)>)
    ensures
        Value::Dict(v).model() == Model::Dict(pair_models(v@)),
{
    let m = Value::Dict(v).model();
    assert(m is Dict);
    assert(m->Dict_0 =~= pair_models(v@));
}

} // verus!
