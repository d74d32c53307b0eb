use vstd::prelude::*;
use super::error::Error;
use super::spec::{
    be4, be8, decimal, dict_close, dict_open, enc_bool, enc_bytes, enc_f32, enc_f64, enc_i16,
    enc_i32, enc_i64, enc_i8, enc_str, enc_unit, encode, encode_items, encode_pairs, fits, list_close,
    list_open, COLON, DICT, DICT_COUNT, DICT_START, FALSE, FLOAT32, FLOAT64, INT1, INT2, INT4, INT8,
    LIST, LIST_COUNT, LIST_START, NONE, STR_COUNT, STR_START, TERM, TRUE,
};
use super::value::{Model, Value, lemma_dict_model, lemma_list_model, models, pair_models};

verus! {

broadcast use {vstd::seq::axiom_seq_subrange_decreases, vstd::seq::axiom_seq_index_decreases};

/// Writes rencode data, one element of the serde data model at a time.
/// It remembers the length of every list and dict that is still open, so that
/// closing one writes the terminator exactly when its length did not fit in
/// its type byte.
pub struct Encoder {
    out: Vec<u8>,
    open: Vec<usize>,
}

fn push_all(out: &mut Vec<u8>, bytes: &[u8])
    ensures
        final(out)@ == old(out)@ + bytes@,
{
    let mut i: usize = 0;
    while i < bytes.len()
        invariant
            i <= bytes.len(),
            out@ == old(out)@ + bytes@.subrange(0, i as int),
        decreases bytes.len() - i,
    {
        out.push(bytes[i]);
        i = i + 1;
        assert(out@ =~= old(out)@ + bytes@.subrange(0, i as int));
    }
    assert(bytes@.subrange(0, bytes@.len() as int) =~= bytes@);
}

fn push_decimal(out: &mut Vec<u8>, n: usize)
    ensures
        final(out)@ == old(out)@ + decimal(n as nat),
    decreases n,
{
    if n < 10 {
        out.push(48 + n as u8);
    } else {
        push_decimal(out, n / 10);
        out.push(48 + (n % 10) as u8);
        assert(decimal(n as nat) == decimal((n / 10) as nat).push((48 + n % 10) as u8));
        assert(final(out)@ =~= old(out)@ + decimal(n as nat)) by {
            assert(out@ =~= old(out)@ + decimal(n as nat));
        }
    }
}

impl Encoder {
    /// The bytes written so far.
    pub closed spec fn bytes(&self) -> Seq<u8> {
        self.out@
    }

    /// The lengths of the lists and dicts that are still open, innermost last.
    pub closed spec fn open_lengths(&self) -> Seq<usize> {
        self.open@
    }

    pub fn new() -> (e: Encoder)
        ensures
            e.bytes() == Seq::<u8>::empty(),
            e.open_lengths() == Seq::<usize>::empty(),
    {
        Encoder { out: Vec::new(), open: Vec::new() }
    }

    /// How many lists and dicts are still open.
    pub fn open_count(&self) -> (n: usize)
        ensures
            n == self.open_lengths().len(),
    {
        self.open.len()
    }

    /// The bytes written, handed over.
    pub fn into_bytes(self) -> (v: Vec<u8>)
        ensures
            v@ == self.bytes(),
    {
        self.out
    }

    pub fn serialize_unit(&mut self)
        ensures
            final(self).bytes() == old(self).bytes() + enc_unit(),
            final(self).open_lengths() == old(self).open_lengths(),
    {
        self.out.push(NONE);
    }

    pub fn serialize_none(&mut self)
        ensures
            final(self).bytes() == old(self).bytes() + enc_unit(),
            final(self).open_lengths() == old(self).open_lengths(),
    {
        self.serialize_unit();
    }

    pub fn serialize_bool(&mut self, v: bool)
        ensures
            final(self).bytes() == old(self).bytes() + enc_bool(v),
            final(self).open_lengths() == old(self).open_lengths(),
    {
        self.out.push(if v { TRUE } else { FALSE });
    }

    pub fn serialize_i8(&mut self, v: i8)
        ensures
            final(self).bytes() == old(self).bytes() + enc_i8(v),
            final(self).open_lengths() == old(self).open_lengths(),
    {
        if 0 <= v && v <= 43 {
            self.out.push(v as u8);
        } else if -32 <= v && v <= -1 {
            self.out.push((69 - v) as u8);
        } else {
            self.out.push(INT1);
            self.out.push(v as u8);
        }
        assert(self.out@ =~= old(self).out@ + enc_i8(v));
    }

    pub fn serialize_i16(&mut self, v: i16)
        ensures
            final(self).bytes() == old(self).bytes() + enc_i16(v),
            final(self).open_lengths() == old(self).open_lengths(),
    {
        let u = v as u16;
        self.out.push(INT2);
        self.out.push((u >> 8u16) as u8);
        self.out.push((u & 0xffu16) as u8);
        assert(self.out@ =~= old(self).out@ + enc_i16(v));
    }

    fn push_u32(&mut self, u: u32)
        ensures
            final(self).out@ == old(self).out@ + be4(u),
            final(self).open@ == old(self).open@,
    {
        self.out.push((u >> 24u32) as u8);
        self.out.push(((u >> 16u32) & 0xffu32) as u8);
        self.out.push(((u >> 8u32) & 0xffu32) as u8);
        self.out.push((u & 0xffu32) as u8);
        assert(self.out@ =~= old(self).out@ + be4(u));
    }

    fn push_u64(&mut self, u: u64)
        ensures
            final(self).out@ == old(self).out@ + be8(u),
            final(self).open@ == old(self).open@,
    {
        self.out.push((u >> 56u64) as u8);
        self.out.push(((u >> 48u64) & 0xffu64) as u8);
        self.out.push(((u >> 40u64) & 0xffu64) as u8);
        self.out.push(((u >> 32u64) & 0xffu64) as u8);
        self.out.push(((u >> 24u64) & 0xffu64) as u8);
        self.out.push(((u >> 16u64) & 0xffu64) as u8);
        self.out.push(((u >> 8u64) & 0xffu64) as u8);
        self.out.push((u & 0xffu64) as u8);
        assert(self.out@ =~= old(self).out@ + be8(u));
    }

    pub fn serialize_i32(&mut self, v: i32)
        ensures
            final(self).bytes() == old(self).bytes() + enc_i32(v),
            final(self).open_lengths() == old(self).open_lengths(),
    {
        self.out.push(INT4);
        self.push_u32(v as u32);
        assert(self.out@ =~= old(self).out@ + enc_i32(v));
    }

    pub fn serialize_i64(&mut self, v: i64)
        ensures
            final(self).bytes() == old(self).bytes() + enc_i64(v),
            final(self).open_lengths() == old(self).open_lengths(),
    {
        self.out.push(INT8);
        self.push_u64(v as u64);
        assert(self.out@ =~= old(self).out@ + enc_i64(v));
    }

    /// Unsigned integers are written as `i64`; those above `i64::MAX` are refused.
    pub fn serialize_u64(&mut self, v: u64) -> (r: Result<(), Error>)
        ensures
            v <= i64::MAX ==> r is Ok && final(self).bytes() == old(self).bytes() + enc_i64(
                v as i64,
            ),
            v > i64::MAX ==> r == Err::<(), Error>(Error::UnsignedTooLarge) && final(self).bytes()
                == old(self).bytes(),
            final(self).open_lengths() == old(self).open_lengths(),
    {
        if v > 9223372036854775807u64 {
            return Err(Error::UnsignedTooLarge);
        }
        self.serialize_i64(v as i64);
        Ok(())
    }

    /// A 32-bit float, given by its bits.
    pub fn serialize_f32_bits(&mut self, bits: u32)
        ensures
            final(self).bytes() == old(self).bytes() + enc_f32(bits),
            final(self).open_lengths() == old(self).open_lengths(),
    {
        self.out.push(FLOAT32);
        self.push_u32(bits);
        assert(self.out@ =~= old(self).out@ + enc_f32(bits));
    }

    /// A 64-bit float, given by its bits.
    pub fn serialize_f64_bits(&mut self, bits: u64)
        ensures
            final(self).bytes() == old(self).bytes() + enc_f64(bits),
            final(self).open_lengths() == old(self).open_lengths(),
    {
        self.out.push(FLOAT64);
        self.push_u64(bits);
        assert(self.out@ =~= old(self).out@ + enc_f64(bits));
    }

    pub fn serialize_bytes(&mut self, v: &[u8])
        ensures
            final(self).bytes() == old(self).bytes() + enc_bytes(v@),
            final(self).open_lengths() == old(self).open_lengths(),
    {
        let len = v.len();
        if len < STR_COUNT {
            self.out.push(STR_START + len as u8);
        } else {
            push_decimal(&mut self.out, len);
            self.out.push(COLON);
        }
        push_all(&mut self.out, v);
        assert(self.out@ =~= old(self).out@ + enc_bytes(v@));
    }

    pub fn serialize_str(&mut self, v: &str)
        ensures
            final(self).bytes() == old(self).bytes() + enc_str(v@),
            final(self).open_lengths() == old(self).open_lengths(),
    {
        self.serialize_bytes(v.as_bytes());
    }

    /// Opens a list of `len` elements.
    pub fn serialize_tuple(&mut self, len: usize)
        ensures
            final(self).bytes() == old(self).bytes() + list_open(len as nat),
            final(self).open_lengths() == old(self).open_lengths().push(len),
    {
        if len < LIST_COUNT {
            self.out.push(LIST_START + len as u8);
        } else {
            self.out.push(LIST);
        }
        self.open.push(len);
        assert(self.out@ =~= old(self).out@ + list_open(len as nat));
    }

    /// Opens a list; its length must be known.
    pub fn serialize_seq(&mut self, len: Option<usize>) -> (r: Result<(), Error>)
        ensures
            len is None ==> r == Err::<(), Error>(Error::SeqLengthUnknown) && final(self).bytes()
                == old(self).bytes() && final(self).open_lengths() == old(self).open_lengths(),
            len matches Some(n) ==> r is Ok && final(self).bytes() == old(self).bytes()
                + list_open(n as nat) && final(self).open_lengths() == old(
                self,
            ).open_lengths().push(n),
    {
        match len {
            None => Err(Error::SeqLengthUnknown),
            Some(n) => {
                self.serialize_tuple(n);
                Ok(())
            },
        }
    }

    /// Opens a dict of `len` pairs.
    pub fn serialize_struct(&mut self, len: usize)
        ensures
            final(self).bytes() == old(self).bytes() + dict_open(len as nat),
            final(self).open_lengths() == old(self).open_lengths().push(len),
    {
        if len < DICT_COUNT {
            self.out.push(DICT_START + len as u8);
        } else {
            self.out.push(DICT);
        }
        self.open.push(len);
        assert(self.out@ =~= old(self).out@ + dict_open(len as nat));
    }

    /// Opens a dict; its length must be known.
    pub fn serialize_map(&mut self, len: Option<usize>) -> (r: Result<(), Error>)
        ensures
            len is None ==> r == Err::<(), Error>(Error::MapLengthUnknown) && final(self).bytes()
                == old(self).bytes() && final(self).open_lengths() == old(self).open_lengths(),
            len matches Some(n) ==> r is Ok && final(self).bytes() == old(self).bytes()
                + dict_open(n as nat) && final(self).open_lengths() == old(
                self,
            ).open_lengths().push(n),
    {
        match len {
            None => Err(Error::MapLengthUnknown),
            Some(n) => {
                self.serialize_struct(n);
                Ok(())
            },
        }
    }

    /// Closes the innermost list.
    pub fn end_seq(&mut self)
        requires
            old(self).open_lengths().len() > 0,
        ensures
            final(self).bytes() == old(self).bytes() + list_close(
                old(self).open_lengths().last() as nat,
            ),
            final(self).open_lengths() == old(self).open_lengths().drop_last(),
    {
        let n = self.open.pop().unwrap();
        if n >= LIST_COUNT {
            self.out.push(TERM);
        }
        assert(self.out@ =~= old(self).out@ + list_close(n as nat));
    }

    /// Closes the innermost dict.
    pub fn end_map(&mut self)
        requires
            old(self).open_lengths().len() > 0,
        ensures
            final(self).bytes() == old(self).bytes() + dict_close(
                old(self).open_lengths().last() as nat,
            ),
            final(self).open_lengths() == old(self).open_lengths().drop_last(),
    {
        let n = self.open.pop().unwrap();
        if n >= DICT_COUNT {
            self.out.push(TERM);
        }
        assert(self.out@ =~= old(self).out@ + dict_close(n as nat));
    }

    /// Writes a whole value.
    pub fn serialize_value(&mut self, v: &Value)
        ensures
            final(self).bytes() == old(self).bytes() + encode(v.model()),
            final(self).open_lengths() == old(self).open_lengths(),
            fits(v.model()),
        decreases v,
    {
        match v {
            Value::Unit => self.serialize_unit(),
            Value::Bool(b) => self.serialize_bool(*b),
            Value::I8(x) => self.serialize_i8(*x),
            Value::I16(x) => self.serialize_i16(*x),
            Value::I32(x) => self.serialize_i32(*x),
            Value::I64(x) => self.serialize_i64(*x),
            Value::F32(x) => self.serialize_f32_bits(*x),
            Value::F64(x) => self.serialize_f64_bits(*x),
            Value::Str(s) => {
                let b = s.as_str().as_bytes();
                let _len = b.len();
                self.serialize_bytes(b);
            },
            Value::List(items) => {
                proof {
                    lemma_list_model(*items);
                }
                let n = items.len();
                self.serialize_tuple(n);
                let ghost start = self.out@;
                let mut i: usize = 0;
                while i < n
                    invariant
                        n == items.len(),
                        *v == Value::List(*items),
                        i <= n,
                        self.out@ == start + encode_items(models(items@).subrange(0, i as int)),
                        self.open@ == old(self).open@.push(n),
                        forall|j: int| 0 <= j < i ==> fits(#[trigger] items@[j].model()),
                    decreases n - i,
                {
                    proof {
                        vstd::std_specs::vec::axiom_vec_index_decreases(*items, i as int);
                        assert(decreases_to!(*v => v->List_0));
                        assert(decreases_to!(*items => items[i as int]));
                        assert(decreases_to!(*v => items@[i as int]));
                    }
                    self.serialize_value(&items[i]);
                    proof {
                        lemma_encode_items_push(models(items@).subrange(0, i as int), items@[i as int].model());
                        assert(models(items@).subrange(0, i as int).push(items@[i as int].model())
                            =~= models(items@).subrange(0, i + 1));
                    }
                    i = i + 1;
                }
                assert(models(items@).subrange(0, n as int) =~= models(items@));
                assert(forall|j: int| 0 <= j < n ==> #[trigger] models(items@)[j] == items@[j].model());
                self.end_seq();
                assert(self.out@ =~= old(self).out@ + encode(v.model()));
            },
            Value::Dict(pairs) => {
                proof {
                    lemma_dict_model(*pairs);
                }
                let n = pairs.len();
                self.serialize_struct(n);
                let ghost start = self.out@;
                let mut i: usize = 0;
                while i < n
                    invariant
                        n == pairs.len(),
                        *v == Value::Dict(*pairs),
                        i <= n,
                        self.out@ == start + encode_pairs(pair_models(pairs@).subrange(0, i as int)),
                        self.open@ == old(self).open@.push(n),
                        forall|j: int|
                            0 <= j < i ==> fits(#[trigger] pairs@[j].0.model()) && fits(
                                pairs@[j].1.model(),
                            ),
                    decreases n - i,
                {
                    let pair = &pairs[i];
                    proof {
                        vstd::std_specs::vec::axiom_vec_index_decreases(*pairs, i as int);
                        assert(decreases_to!(*v => v->Dict_0));
                        assert(decreases_to!(*pairs => pairs[i as int]));
                        assert(decreases_to!(pairs[i as int] => pairs[i as int].0));
                        assert(decreases_to!(*v => pairs@[i as int].0));
                        assert(decreases_to!(*v => pairs@[i as int].1));
                    }
                    self.serialize_value(&pair.0);
                    self.serialize_value(&pair.1);
                    proof {
                        lemma_encode_pairs_push(
                            pair_models(pairs@).subrange(0, i as int),
                            (pairs@[i as int].0.model(), pairs@[i as int].1.model()),
                        );
                        assert(pair_models(pairs@).subrange(0, i as int).push(
                            (pairs@[i as int].0.model(), pairs@[i as int].1.model()),
                        ) =~= pair_models(pairs@).subrange(0, i + 1));
                    }
                    i = i + 1;
                }
                assert(pair_models(pairs@).subrange(0, n as int) =~= pair_models(pairs@));
                assert(forall|j: int|
                    0 <= j < n ==> #[trigger] pair_models(pairs@)[j] == (
                        pairs@[j].0.model(),
                        pairs@[j].1.model(),
                    ));
                self.end_map();
                assert(self.out@ =~= old(self).out@ + encode(v.model()));
            },
        }
    }
}

pub proof fn lemma_encode_items_push(items: Seq<Model>, m: Model)
    ensures
        encode_items(items.push(m)) == encode_items(items) + encode(m),
    decreases items.len(),
{
    if items.len() == 0 {
        assert(items.push(m).subrange(1, 1) =~= Seq::<Model>::empty());
        assert(encode_items(Seq::<Model>::empty()) =~= Seq::<u8>::empty());
        assert(encode_items(items.push(m)) =~= encode(m));
    } else {
        let rest = items.subrange(1, items.len() as int);
        lemma_encode_items_push(rest, m);
        assert(items.push(m).subrange(1, items.len() + 1 as int) =~= rest.push(m));
        assert(items.push(m)[0] == items[0]);
        assert(encode_items(items.push(m)) =~= encode_items(items) + encode(m));
    }
}

pub proof fn lemma_encode_pairs_push(pairs: Seq<(Model, Model)>, p: (Model, Model))
    ensures
        encode_pairs(pairs.push(p)) == encode_pairs(pairs) + encode(p.0) + encode(p.1),
    decreases pairs.len(),
{
    if pairs.len() == 0 {
        assert(pairs.push(p).subrange(1, 1) =~= Seq::<(Model, Model)>::empty());
        assert(encode_pairs(Seq::<(Model, Model)>::empty()) =~= Seq::<u8>::empty());
        assert(encode_pairs(pairs.push(p)) =~= encode(p.0) + encode(p.1));
    } else {
        let rest = pairs.subrange(1, pairs.len() as int);
        lemma_encode_pairs_push(rest, p);
        assert(pairs.push(p).subrange(1, pairs.len() + 1 as int) =~= rest.push(p));
        assert(pairs.push(p)[0] == pairs[0]);
        assert(encode_pairs(pairs.push(p)) =~= encode_pairs(pairs) + encode(p.0) + encode(p.1));
    }
}

/// Encodes a whole value into a fresh buffer.
pub fn to_bytes(v: &Value) -> (r: Vec<u8>)
    ensures
        r@ == encode(v.model()),
        fits(v.model()),
{
    let mut e = Encoder::new();
    e.serialize_value(v);
    e.into_bytes()
}

} // verus!
