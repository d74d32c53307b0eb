pub mod add_torrent;

use vstd::prelude::*;
use crate::rencode::value::{Model, Value, models, pair_models, lemma_list_model, lemma_dict_model};
use crate::text::str_eq;
use add_torrent::Error as AddTorrentError;

verus! {

/// Keyword arguments: each key once, with the value it was last given.
pub type Dict = Vec<(String, Value)>;

pub open spec fn dict_model(d: Seq<(String, Value)>) -> Seq<(Seq<char>, Model)> {
    Seq::new(d.len(), |i: int| (d[i].0@, d[i].1.model()))
}

/// The first index at or after `i` whose key is `k`.
pub open spec fn key_index(d: Seq<(Seq<char>, Model)>, k: Seq<char>, i: int) -> Option<int>
    decreases d.len() - i,
{
    if i < 0 || i >= d.len() {
        None
    } else if d[i].0 == k {
        Some(i)
    } else {
        key_index(d, k, i + 1)
    }
}

/// Gives key `k` the value `v`: in place if it is there, at the end if not.
pub open spec fn dict_insert(d: Seq<(Seq<char>, Model)>, k: Seq<char>, v: Model) -> Seq<
    (Seq<char>, Model),
> {
    match key_index(d, k, 0) {
        Some(i) => d.update(i, (k, v)),
        None => d.push((k, v)),
    }
}

/// The keyword arguments that a rencode dict stands for: every key must be a
/// string, and a key given twice keeps its last value.
pub open spec fn dict_of(pairs: Seq<(Model, Model)>) -> Option<Seq<(Seq<char>, Model)>>
    decreases pairs.len(),
{
    if pairs.len() == 0 {
        Some(seq![])
    } else {
        match dict_of(pairs.drop_last()) {
            None => None,
            Some(d) => match pairs.last().0 {
                Model::Str(k) => Some(dict_insert(d, k, pairs.last().1)),
                _ => None,
            },
        }
    }
}

/// No key stands twice.
pub open spec fn keys_unique(d: Seq<(Seq<char>, Model)>) -> bool {
    forall|i: int, j: int| 0 <= i < j < d.len() ==> d[i].0 != d[j].0
}

proof fn lemma_key_index(d: Seq<(Seq<char>, Model)>, k: Seq<char>, i: int)
    requires
        0 <= i,
    ensures
        key_index(d, k, i) matches Some(j) ==> i <= j < d.len() && d[j].0 == k,
        key_index(d, k, i) is None ==> forall|j: int| i <= j < d.len() ==> d[j].0 != k,
    decreases d.len() - i,
{
    if i < d.len() && d[i].0 != k {
        lemma_key_index(d, k, i + 1);
    }
}

/// Law: keyword arguments read from a dict hold each key once, whatever the
/// dict held.
pub proof fn law_dict_keys_unique(pairs: Seq<(Model, Model)>)
    ensures
        dict_of(pairs) matches Some(d) ==> keys_unique(d),
    decreases pairs.len(),
{
    if pairs.len() > 0 {
        law_dict_keys_unique(pairs.drop_last());
        if let Some(d) = dict_of(pairs.drop_last()) {
            if let Model::Str(k) = pairs.last().0 {
                lemma_key_index(d, k, 0);
                let d2 = dict_insert(d, k, pairs.last().1);
                assert forall|i: int, j: int| 0 <= i < j < d2.len() implies d2[i].0 != d2[j].0 by {
                    if j == d.len() {
                        assert(d2[j].0 == k);
                    }
                }
            }
        }
    }
}

fn find_key(d: &Vec<(String, Value)>, k: &str) -> (r: Option<usize>)
    ensures
        r matches Some(j) ==> j < d@.len() && key_index(dict_model(d@), k@, 0) == Some(j as int),
        r is None ==> key_index(dict_model(d@), k@, 0) is None,
{
    let mut i: usize = 0;
    while i < d.len()
        invariant
            i <= d.len(),
            key_index(dict_model(d@), k@, 0) == key_index(dict_model(d@), k@, i as int),
        decreases d.len() - i,
    {
        if str_eq(d[i].0.as_str(), k) {
            return Some(i);
        }
        i = i + 1;
    }
    None
}

/// Keyword arguments from the pairs of a rencode dict.
pub fn dict_from_pairs(pairs: &Vec<(Value, Value)>) -> (r: Option<Dict>)
    ensures
        match dict_of(pair_models(pairs@)) {
            Some(d) => r matches Some(out) && dict_model(out@) == d,
            None => r is None,
        },
{
    let mut out: Vec<(String, Value)> = Vec::new();
    let mut i: usize = 0;
    assert(pair_models(pairs@).subrange(0, 0) =~= Seq::<(Model, Model)>::empty());
    assert(dict_model(out@) =~= Seq::<(Seq<char>, Model)>::empty());
    while i < pairs.len()
        invariant
            i <= pairs.len(),
            dict_of(pair_models(pairs@).subrange(0, i as int)) == Some(dict_model(out@)),
        decreases pairs.len() - i,
    {
        let ghost prefix = pair_models(pairs@).subrange(0, i + 1);
        assert(prefix.drop_last() =~= pair_models(pairs@).subrange(0, i as int));
        match &pairs[i].0 {
            Value::Str(k) => {
                let v = pairs[i].1.deep_clone();
                let ghost d0 = dict_model(out@);
                let ghost vm = pairs@[i as int].1.model();
                assert(prefix.last() == (Model::Str(k@), vm));
                assert(dict_of(prefix) == Some(dict_insert(d0, k@, vm)));
                match find_key(&out, k.as_str()) {
                    Some(j) => {
                        out.set(j, (k.clone(), v));
                        assert(dict_model(out@) =~= d0.update(j as int, (k@, vm)));
                        assert(dict_model(out@) == dict_insert(d0, k@, vm));
                    },
                    None => {
                        out.push((k.clone(), v));
                        assert(dict_model(out@) =~= d0.push((k@, vm)));
                        assert(dict_model(out@) == dict_insert(d0, k@, vm));
                    },
                }
            },
            _ => {
                proof {
                    lemma_dict_none_extends(pair_models(pairs@), i as int + 1);
                }
                return None;
            },
        }
        i = i + 1;
    }
    assert(pair_models(pairs@).subrange(0, i as int) =~= pair_models(pairs@));
    Some(out)
}

proof fn lemma_dict_none_extends(pairs: Seq<(Model, Model)>, k: int)
    requires
        0 <= k <= pairs.len(),
        dict_of(pairs.subrange(0, k)) is None,
    ensures
        dict_of(pairs) is None,
    decreases pairs.len() - k,
{
    if k < pairs.len() {
        assert(pairs.subrange(0, k + 1).drop_last() =~= pairs.subrange(0, k));
        lemma_dict_none_extends(pairs, k + 1);
    } else {
        assert(pairs.subrange(0, k) =~= pairs);
    }
}

/// An exception raised by the daemon, as it reports it.
#[derive(Debug, PartialEq)]
pub struct GenericError {
    pub exception: String,
    pub args: Vec<Value>,
    pub kwargs: Dict,
    pub traceback: String,
}

/// Whether four values make an exception report: name, arguments, keyword
/// arguments and traceback.
pub open spec fn generic_parts_ok(ms: Seq<Model>) -> bool {
    &&& ms.len() == 4
    &&& ms[0] is Str
    &&& ms[1] is List
    &&& ms[2] is Dict
    &&& dict_of(ms[2]->Dict_0) is Some
    &&& ms[3] is Str
}

pub open spec fn generic_from_parts(g: GenericError, ms: Seq<Model>) -> bool {
    &&& g.exception@ == ms[0]->Str_0
    &&& models(g.args@) == ms[1]->List_0
    &&& dict_model(g.kwargs@) == dict_of(ms[2]->Dict_0)->0
    &&& g.traceback@ == ms[3]->Str_0
}

impl GenericError {
    /// The report from its four parts.
    pub fn new(exception: String, args: Vec<Value>, kwargs: Dict, traceback: String) -> (r:
        GenericError)
        ensures
            r.exception == exception,
            r.args == args,
            r.kwargs == kwargs,
            r.traceback == traceback,
    {
        GenericError { exception, args, kwargs, traceback }
    }

    /// Reads a report from the values the daemon sends.
    pub fn from_values(parts: &Vec<Value>) -> (r: Option<GenericError>)
        ensures
            r is Some <==> generic_parts_ok(models(parts@)),
            r matches Some(g) ==> generic_from_parts(g, models(parts@)),
    {
        if parts.len() != 4 {
            return None;
        }
        let exception = match &parts[0] {
            Value::Str(s) => s.clone(),
            _ => return None,
        };
        let args = match &parts[1] {
            Value::List(items) => {
                let v = parts[1].deep_clone();
                match v {
                    Value::List(out) => {
                        proof {
                            lemma_list_model(out);
                            lemma_list_model(*items);
                        }
                        out
                    },
                    _ => return None,
                }
            },
            _ => return None,
        };
        let kwargs = match &parts[2] {
            Value::Dict(pairs) => {
                proof {
                    lemma_dict_model(*pairs);
                }
                match dict_from_pairs(pairs) {
                    Some(d) => d,
                    None => return None,
                }
            },
            _ => return None,
        };
        let traceback = match &parts[3] {
            Value::Str(s) => s.clone(),
            _ => return None,
        };
        Some(GenericError { exception, args, kwargs, traceback })
    }
}

/// An error that the daemon answered a request with.
#[derive(Debug, PartialEq)]
pub enum RpcError {
    AddTorrent(AddTorrentError),
    Generic(GenericError),
}

impl RpcError {
    /// Errors from adding a torrent are read into their own type; all others
    /// stay as they were reported.
    pub fn from_generic(err: GenericError) -> (r: RpcError)
        ensures
            if err.exception@ == "AddTorrentError"@ && err.args@.len() == 1
                && err.args@[0] is Str {
                r matches RpcError::AddTorrent(e) && add_torrent::parsed_as(
                    err.args@[0]->Str_0@,
                    e,
                )
            } else {
                r == RpcError::Generic(err)
            },
    {
        if str_eq(err.exception.as_str(), "AddTorrentError") && err.args.len() == 1 {
            if let Value::Str(msg) = &err.args[0] {
                return RpcError::AddTorrent(AddTorrentError::from_str(msg.as_str()));
            }
        }
        RpcError::Generic(err)
    }
}

} // verus!
