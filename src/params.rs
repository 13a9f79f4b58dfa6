//! Per-method analysis: which request parameters, headers, instance variables
//! and local variables a method body touches, and which calls it makes.
use crate::syntax::{
    all_no_bag, deref_all, group_no_bag_lemmas, lemma_all_no_bag_first, lemma_all_no_bag_one, no_bag, opt_no_bag, lemma_one_size, lemma_seq_size_append, lemma_seq_size_first,
    group_size_lemmas, opt_seq, opt_size, pop_front, push_all, push_one, push_opt, seq_size, size, Node,
};
use crate::utils::{clone_strings, join, join_strings, node_str, node_strs, parse_node_str, parse_node_strs, str_eq, unknown, views};
use std::collections::VecDeque;
use vstd::prelude::*;

verus! {

/// How a call relates to the request-parameter bag.
#[derive(Debug, PartialEq, Eq, Structural)]
pub enum SendTypes {
    ParamsPermit,
    ParamsRequire,
    ParamsRequirePermit,
    Invalid,
}

/// What the analysis of one method body found.
pub struct MethodDetails {
    pub name: String,
    pub args: Vec<String>,
    /// Canonical parameter keys, each once.
    pub params: Vec<String>,
    /// Header keys with the value assigned, or an empty value for a read.
    pub headers: Vec<(String, String)>,
    /// Names of assigned instance variables, each once.
    pub instance_variables: Vec<String>,
    /// Assigned local variables, each once, with how often each was read
    /// after its first assignment.
    pub local_variables: Vec<(String, usize)>,
    /// Calls that are not parameter accesses: name and rendered arguments.
    pub method_calls: Vec<(String, Vec<String>)>,
    /// Reserved: never filled by the analysis.
    pub renders: Vec<String>,
}

/// The facts that a walk over a method body collects.
pub struct Facts {
    pub params: Seq<Seq<char>>,
    pub headers: Seq<(Seq<char>, Seq<char>)>,
    pub instance_variables: Seq<Seq<char>>,
    pub local_variables: Seq<(Seq<char>, usize)>,
    pub method_calls: Seq<(Seq<char>, Seq<Seq<char>>)>,
}

pub open spec fn no_facts() -> Facts {
    Facts {
        params: Seq::empty(),
        headers: Seq::empty(),
        instance_variables: Seq::empty(),
        local_variables: Seq::empty(),
        method_calls: Seq::empty(),
    }
}

pub open spec fn pair_views(s: Seq<(String, String)>) -> Seq<(Seq<char>, Seq<char>)> {
    s.map_values(|p: (String, String)| (p.0@, p.1@))
}

pub open spec fn count_views(s: Seq<(String, usize)>) -> Seq<(Seq<char>, usize)> {
    s.map_values(|p: (String, usize)| (p.0@, p.1))
}

pub open spec fn call_views(s: Seq<(String, Vec<String>)>) -> Seq<(Seq<char>, Seq<Seq<char>>)> {
    s.map_values(|p: (String, Vec<String>)| (p.0@, views(p.1@)))
}

/// The abstract content of a method profile.
pub struct MethodView {
    pub name: Seq<char>,
    pub args: Seq<Seq<char>>,
    pub facts: Facts,
    pub renders: Seq<Seq<char>>,
}

impl View for MethodDetails {
    type V = MethodView;

    open spec fn view(&self) -> MethodView {
        MethodView {
            name: self.name@,
            args: views(self.args@),
            facts: self.facts(),
            renders: views(self.renders@),
        }
    }
}

/// The views of a sequence of method profiles.
pub open spec fn method_views(s: Seq<MethodDetails>) -> Seq<MethodView> {
    s.map_values(|m: MethodDetails| m@)
}

/// The profile of a method with the given body, which may be empty.
pub open spec fn profile(body: Option<Box<Node>>, name: Seq<char>, args: Seq<Seq<char>>) -> MethodView {
    MethodView {
        name,
        args,
        facts: match body {
            Some(b) => analyze(*b),
            None => no_facts(),
        },
        renders: Seq::empty(),
    }
}

impl Clone for MethodDetails {
    fn clone(&self) -> (r: Self)
        ensures
            r@ == self@,
    {
        let mut headers: Vec<(String, String)> = Vec::new();
        let mut i: usize = 0;
        while i < self.headers.len()
            invariant
                i <= self.headers.len(),
                pair_views(headers@) =~= pair_views(self.headers@).subrange(0, i as int),
            decreases self.headers.len() - i,
        {
            let ghost before = pair_views(headers@);
            headers.push((self.headers[i].0.clone(), self.headers[i].1.clone()));
            assert(pair_views(headers@) =~= before.push(pair_views(self.headers@)[i as int]));
            i = i + 1;
        }
        let mut locals: Vec<(String, usize)> = Vec::new();
        let mut i: usize = 0;
        while i < self.local_variables.len()
            invariant
                i <= self.local_variables.len(),
                count_views(locals@) =~= count_views(self.local_variables@).subrange(0, i as int),
            decreases self.local_variables.len() - i,
        {
            let ghost before = count_views(locals@);
            locals.push((self.local_variables[i].0.clone(), self.local_variables[i].1));
            assert(count_views(locals@) =~= before.push(count_views(self.local_variables@)[i as int]));
            i = i + 1;
        }
        let mut calls: Vec<(String, Vec<String>)> = Vec::new();
        let mut i: usize = 0;
        while i < self.method_calls.len()
            invariant
                i <= self.method_calls.len(),
                call_views(calls@) =~= call_views(self.method_calls@).subrange(0, i as int),
            decreases self.method_calls.len() - i,
        {
            let ghost before = call_views(calls@);
            calls.push((self.method_calls[i].0.clone(), clone_strings(&self.method_calls[i].1)));
            assert(call_views(calls@) =~= before.push(call_views(self.method_calls@)[i as int]));
            i = i + 1;
        }
        let r = MethodDetails {
            name: self.name.clone(),
            args: clone_strings(&self.args),
            params: clone_strings(&self.params),
            headers,
            instance_variables: clone_strings(&self.instance_variables),
            local_variables: locals,
            method_calls: calls,
            renders: clone_strings(&self.renders),
        };
        assert(pair_views(r.headers@) =~= pair_views(self.headers@));
        assert(count_views(r.local_variables@) =~= count_views(self.local_variables@));
        assert(call_views(r.method_calls@) =~= call_views(self.method_calls@));
        assert(r.facts() =~= self.facts());
        r
    }
}

/// Clones each profile.
pub fn clone_methods(v: &Vec<MethodDetails>) -> (r: Vec<MethodDetails>)
    ensures
        method_views(r@) == method_views(v@),
{
    let mut r: Vec<MethodDetails> = Vec::new();
    let mut i: usize = 0;
    while i < v.len()
        invariant
            i <= v.len(),
            method_views(r@) =~= method_views(v@).subrange(0, i as int),
        decreases v.len() - i,
    {
        let ghost before = method_views(r@);
        r.push(v[i].clone());
        assert(method_views(r@) =~= before.push(v@[i as int]@));
        i = i + 1;
    }
    r
}

impl MethodDetails {
    /// The facts held by this profile.
    pub open spec fn facts(&self) -> Facts {
        Facts {
            params: views(self.params@),
            headers: pair_views(self.headers@),
            instance_variables: views(self.instance_variables@),
            local_variables: count_views(self.local_variables@),
            method_calls: call_views(self.method_calls@),
        }
    }

    /// The set of canonical parameter keys.
    pub open spec fn param_set(&self) -> Set<Seq<char>> {
        views(self.params@).to_set()
    }
}

// ---------------------------------------------------------------------------
// Sets kept as sequences without repetition, and the local-variable counters.

/// `s` with `k` added at the end unless it is already there.
pub open spec fn insert_key(s: Seq<Seq<char>>, k: Seq<char>) -> Seq<Seq<char>> {
    if s.contains(k) {
        s
    } else {
        s.push(k)
    }
}

/// `s` with each of `ks` added in turn.
pub open spec fn insert_keys(s: Seq<Seq<char>>, ks: Seq<Seq<char>>) -> Seq<Seq<char>>
    decreases ks.len(),
{
    if ks.len() == 0 {
        s
    } else {
        insert_keys(insert_key(s, ks[0]), ks.drop_first())
    }
}

/// The counters after an assignment to `name`: a new counter at zero unless
/// one exists.
pub open spec fn declare_local(s: Seq<(Seq<char>, usize)>, name: Seq<char>) -> Seq<(Seq<char>, usize)> {
    if exists|i: int| 0 <= i < s.len() && #[trigger] s[i].0 == name {
        s
    } else {
        s.push((name, 0usize))
    }
}

/// One more read of a counter, saturating at the largest `usize`.
pub open spec fn bump(c: usize) -> usize {
    if c < usize::MAX {
        (c + 1) as usize
    } else {
        c
    }
}

/// The counters after a read of `name`: its counter, if any, goes up by one.
pub open spec fn read_local(s: Seq<(Seq<char>, usize)>, name: Seq<char>) -> Seq<(Seq<char>, usize)> {
    s.map_values(|p: (Seq<char>, usize)| if p.0 == name { (p.0, bump(p.1)) } else { p })
}

// ---------------------------------------------------------------------------
// Parameter-access idioms.

/// The flags gathered along the receiver chain of a `require` / `permit`
/// call, or `None` where the chain holds another call or a `require` that
/// follows no `permit` step (that is, `permit` applied before `require`).
pub open spec fn chain_flags(n: Node, require: bool, permit: bool, params: bool) -> Option<(bool, bool, bool)>
    decreases n,
{
    match n {
        Node::Send { recv, method_name, .. } => {
            let (rq, pm, pa, ok) = if method_name@ == "require"@ {
                (true, permit, params, permit)
            } else if method_name@ == "permit"@ {
                (require, true, params, !require)
            } else if method_name@ == "params"@ {
                (require, permit, true, true)
            } else {
                (require, permit, params, false)
            };
            if !ok {
                None
            } else {
                match recv {
                    Some(r) => chain_flags(*r, rq, pm, pa),
                    None => Some((rq, pm, pa)),
                }
            }
        },
        _ => Some((require, permit, params)),
    }
}

/// The kind of a call node with respect to the parameter bag.
pub open spec fn send_type(n: Node) -> SendTypes {
    match n {
        Node::Send { recv: Some(r), method_name, .. } => {
            if method_name@ != "require"@ && method_name@ != "permit"@ {
                SendTypes::Invalid
            } else {
                let require = method_name@ == "require"@;
                match chain_flags(*r, require, !require, false) {
                    Some((rq, pm, pa)) => if !pa {
                        SendTypes::Invalid
                    } else if rq && pm {
                        SendTypes::ParamsRequirePermit
                    } else if rq {
                        SendTypes::ParamsRequire
                    } else if pm {
                        SendTypes::ParamsPermit
                    } else {
                        SendTypes::Invalid
                    },
                    None => SendTypes::Invalid,
                }
            }
        },
        _ => SendTypes::Invalid,
    }
}

/// Whether a receiver chain of `require` and `permit` calls ends at the
/// parameter bag.
pub open spec fn reaches_params(n: Node) -> bool
    decreases n,
{
    match n {
        Node::Send { recv, method_name, .. } => method_name@ == "params"@ || ((method_name@
            == "require"@ || method_name@ == "permit"@) && match recv {
            Some(r) => reaches_params(*r),
            None => false,
        }),
        _ => false,
    }
}

/// A `require` / `permit` chain on the parameter bag in an order that is not
/// accepted: it contributes no parameters and is not a call of its own.
pub open spec fn misordered(n: Node) -> bool {
    send_type(n) == SendTypes::Invalid && match n {
        Node::Send { recv: Some(r), method_name, .. } => (method_name@ == "require"@ || method_name@
            == "permit"@) && reaches_params(*r),
        _ => false,
    }
}

/// The parameter keys named by one argument of `require` or `permit`: a
/// symbol or string names a key; a key mapped to an empty array or hash
/// literal names that key suffixed `[]` or `{}`; arrays and keyword lists are
/// flattened.
pub open spec fn permit_arg_keys(n: Node) -> Seq<Seq<char>>
    decreases n,
{
    match n {
        Node::Sym(s) => seq![s@],
        Node::Str(s) => seq![s@],
        Node::Pair { key, value } => {
            let k = node_str(*key);
            if k == unknown() {
                Seq::empty()
            } else {
                match *value {
                    Node::Array(v) => if v@.len() == 0 { seq![k + "[]"@] } else { Seq::empty() },
                    Node::Hash(v) => if v@.len() == 0 { seq![k + "{}"@] } else { Seq::empty() },
                    _ => Seq::empty(),
                }
            }
        },
        Node::Array(v) => permit_keys(v@),
        Node::Hash(v) => permit_keys(v@),
        Node::Kwargs(v) => permit_keys(v@),
        _ => Seq::empty(),
    }
}

/// The parameter keys named by a list of arguments, in order.
pub open spec fn permit_keys(s: Seq<Node>) -> Seq<Seq<char>>
    decreases s,
{
    if s.len() == 0 {
        Seq::empty()
    } else {
        permit_arg_keys(s[0]) + permit_keys(s.subrange(1, s.len() as int))
    }
}

/// The parameter keys named along a `require` / `permit` chain, outermost
/// call first.
pub open spec fn chain_keys(n: Node) -> Seq<Seq<char>>
    decreases n,
{
    match n {
        Node::Send { recv, method_name, args } => if method_name@ == "require"@ || method_name@
            == "permit"@ {
            permit_keys(args@) + match recv {
                Some(r) => chain_keys(*r),
                None => Seq::empty(),
            }
        } else {
            Seq::empty()
        },
        _ => Seq::empty(),
    }
}

/// Breadth-first walk below an indexing node: whether the parameter bag is
/// reached, and the rendered forms of the other leaves met, after `data`.
pub open spec fn index_walk(queue: Seq<Node>, data: Seq<Seq<char>>, found: bool) -> (Seq<Seq<char>>, bool)
    decreases seq_size(queue),
{
    if queue.len() == 0 {
        (data, found)
    } else {
        let n = queue[0];
        let rest = queue.drop_first();
        proof {
            lemma_seq_size_first(queue);
        }
        match n {
            Node::Send { method_name, .. } => index_walk(rest, data, found || method_name@ == "params"@),
            Node::Index { recv, indexes } => {
                proof {
                    lemma_seq_size_append(rest, seq![*recv]);
                    lemma_seq_size_append(rest + seq![*recv], indexes@);
                    lemma_one_size(*recv);
                }
                index_walk(rest + seq![*recv] + indexes@, data, found)
            },
            _ => {
                let v = node_str(n);
                index_walk(rest, if v == unknown() { data } else { data.push(v) }, found)
            },
        }
    }
}

/// The parameter keys of `recv[indexes]`, or `None` where `recv` does not
/// lead to the parameter bag. Nested indexing gives one key: the keys
/// innermost first, joined with `:`.
pub open spec fn index_keys(recv: Node, indexes: Seq<Node>) -> Option<Seq<Seq<char>>> {
    let (data, found) = index_walk(seq![recv], node_strs(indexes), false);
    if !found {
        None
    } else if recv is Index {
        Some(seq![join(data.reverse(), ":"@)])
    } else {
        Some(data)
    }
}

/// Whether a node is a call named `headers`.
pub open spec fn is_headers(n: Node) -> bool {
    n is Send && n->Send_method_name@ == "headers"@
}

/// A header entry with `value` for each string index.
pub open spec fn header_entries(indexes: Seq<Node>, value: Seq<char>) -> Seq<(Seq<char>, Seq<char>)>
    decreases indexes.len(),
{
    if indexes.len() == 0 {
        Seq::empty()
    } else {
        let first = match indexes[0] {
            Node::Str(s) => seq![(s@, value)],
            _ => Seq::empty(),
        };
        first + header_entries(indexes.drop_first(), value)
    }
}

/// The rendered form of an optional node, empty where there is none.
pub open spec fn opt_str(o: Option<Box<Node>>) -> Seq<char> {
    match o {
        Some(b) => node_str(*b),
        None => Seq::empty(),
    }
}

// ---------------------------------------------------------------------------
// Executable forms of the idioms.

/// Classifies a call by the shape of its receiver chain: a chain of only
/// `require` and `permit` calls ending at the parameter bag, where no
/// `require` is applied to the result of a `permit`.
pub fn parse_send(stat: &Node) -> (r: SendTypes)
    ensures
        r == send_type(*stat),
{
    match stat {
        Node::Send { recv: Some(r), method_name, .. } => {
            let require = str_eq(method_name.as_str(), "require");
            let permit = str_eq(method_name.as_str(), "permit");
            if !require && !permit {
                return SendTypes::Invalid;
            }
            match walk_chain(r, require, !require, false) {
                Some((rq, pm, pa)) => if !pa {
                    SendTypes::Invalid
                } else if rq && pm {
                    SendTypes::ParamsRequirePermit
                } else if rq {
                    SendTypes::ParamsRequire
                } else if pm {
                    SendTypes::ParamsPermit
                } else {
                    SendTypes::Invalid
                },
                None => SendTypes::Invalid,
            }
        },
        _ => SendTypes::Invalid,
    }
}

fn walk_chain(n: &Node, require: bool, permit: bool, params: bool) -> (r: Option<(bool, bool, bool)>)
    ensures
        r == chain_flags(*n, require, permit, params),
    decreases n,
{
    match n {
        Node::Send { recv, method_name, .. } => {
            let (rq, pm, pa, ok) = if str_eq(method_name.as_str(), "require") {
                (true, permit, params, permit)
            } else if str_eq(method_name.as_str(), "permit") {
                (require, true, params, !require)
            } else if str_eq(method_name.as_str(), "params") {
                (require, permit, true, true)
            } else {
                (require, permit, params, false)
            };
            if !ok {
                None
            } else {
                match recv {
                    Some(r) => walk_chain(r, rq, pm, pa),
                    None => Some((rq, pm, pa)),
                }
            }
        },
        _ => Some((require, permit, params)),
    }
}

fn chain_reaches_params(n: &Node) -> (r: bool)
    ensures
        r == reaches_params(*n),
    decreases n,
{
    match n {
        Node::Send { recv, method_name, .. } => {
            if str_eq(method_name.as_str(), "params") {
                true
            } else if str_eq(method_name.as_str(), "require") || str_eq(method_name.as_str(), "permit") {
                match recv {
                    Some(r) => chain_reaches_params(r),
                    None => false,
                }
            } else {
                false
            }
        },
        _ => false,
    }
}

/// Whether a call is a `require` / `permit` chain on the parameter bag in
/// an order that is not accepted.
fn is_misordered(n: &Node) -> (r: bool)
    ensures
        r == misordered(*n),
{
    if parse_send(n) != SendTypes::Invalid {
        return false;
    }
    match n {
        Node::Send { recv: Some(r), method_name, .. } => (str_eq(method_name.as_str(), "require")
            || str_eq(method_name.as_str(), "permit")) && chain_reaches_params(r),
        _ => false,
    }
}

/// Appends each key to `v` unless it is already there.
pub fn insert_strings(v: &mut Vec<String>, ks: Vec<String>)
    ensures
        views(final(v)@) == insert_keys(views(old(v)@), views(ks@)),
        views(old(v)@).no_duplicates() ==> views(final(v)@).no_duplicates(),
{
    proof {
        lemma_insert_keys_distinct(views(v@), views(ks@));
    }
    let ghost kv = views(ks@);
    let mut i: usize = 0;
    assert(kv.subrange(0, kv.len() as int) =~= kv);
    while i < ks.len()
        invariant
            i <= ks.len(),
            kv == views(ks@),
            insert_keys(views(v@), kv.subrange(i as int, kv.len() as int)) == insert_keys(
                views(old(v)@),
                kv,
            ),
        decreases ks.len() - i,
    {
        let ghost before = views(v@);
        assert(kv.subrange(i as int, kv.len() as int).drop_first() =~= kv.subrange(
            i + 1,
            kv.len() as int,
        ));
        insert_string(v, ks[i].clone());
        i = i + 1;
    }
    assert(kv.subrange(i as int, kv.len() as int) =~= Seq::<Seq<char>>::empty());
}

/// Appends `k` to `v` unless it is already there.
pub fn insert_string(v: &mut Vec<String>, k: String)
    ensures
        views(final(v)@) == insert_key(views(old(v)@), k@),
{
    let ghost vv = views(v@);
    let mut i: usize = 0;
    while i < v.len()
        invariant
            i <= v.len(),
            vv == views(v@),
            forall|j: int| 0 <= j < i ==> vv[j] != k@,
        decreases v.len() - i,
    {
        if v[i] == k {
            assert(vv.contains(k@)) by {
                assert(vv[i as int] == k@);
            }
            return;
        }
        i = i + 1;
    }
    assert(!vv.contains(k@));
    v.push(k);
    assert(views(v@) =~= vv.push(k@));
}

/// The parameter keys named by one argument of `require` or `permit`.
fn permit_arg(n: &Node) -> (r: Vec<String>)
    ensures
        views(r@) == permit_arg_keys(*n),
    decreases n,
{
    match n {
        Node::Sym(s) => vec![s.clone()],
        Node::Str(s) => vec![s.clone()],
        Node::Pair { key, value } => {
            let k = parse_node_str(key);
            if str_eq(k.as_str(), "unknown") {
                Vec::new()
            } else {
                match &**value {
                    Node::Array(v) => if v.len() == 0 {
                        let mut key = k;
                        key.append("[]");
                        vec![key]
                    } else {
                        Vec::new()
                    },
                    Node::Hash(v) => if v.len() == 0 {
                        let mut key = k;
                        key.append("{}");
                        vec![key]
                    } else {
                        Vec::new()
                    },
                    _ => Vec::new(),
                }
            }
        },
        Node::Array(v) => permit_list(v),
        Node::Hash(v) => permit_list(v),
        Node::Kwargs(v) => permit_list(v),
        _ => Vec::new(),
    }
}

/// The parameter keys named by a list of arguments, in order.
fn permit_list(v: &Vec<Node>) -> (r: Vec<String>)
    ensures
        views(r@) == permit_keys(v@),
    decreases v,
{
    let mut r: Vec<String> = Vec::new();
    let mut i: usize = v.len();
    while i > 0
        invariant
            i <= v.len(),
            views(r@) == permit_keys(v@.subrange(i as int, v.len() as int)),
        decreases i,
    {
        i = i - 1;
        let mut keys = permit_arg(&v[i]);
        let ghost kv = views(keys@);
        let ghost rv = views(r@);
        keys.append(&mut r);
        r = keys;
        assert(v@.subrange(i as int, v.len() as int).subrange(1, v.len() - i) =~= v@.subrange(
            i + 1,
            v.len() as int,
        ));
        assert(views(r@) =~= kv + rv);
    }
    assert(v@.subrange(0, v.len() as int) =~= v@);
    r
}

/// The parameter keys named along a `require` / `permit` chain.
fn chain_params(n: &Node) -> (r: Vec<String>)
    ensures
        views(r@) == chain_keys(*n),
    decreases n,
{
    match n {
        Node::Send { recv, method_name, args } => {
            if str_eq(method_name.as_str(), "require") || str_eq(method_name.as_str(), "permit") {
                let mut r = permit_list(args);
                let ghost rv = views(r@);
                let mut rest = match recv {
                    Some(b) => chain_params(b),
                    None => Vec::new(),
                };
                let ghost restv = views(rest@);
                r.append(&mut rest);
                assert(views(r@) =~= rv + restv);
                r
            } else {
                Vec::new()
            }
        },
        _ => Vec::new(),
    }
}

/// The parameter keys of `recv[indexes]`, or `None` where `recv` does not lead
/// to the parameter bag.
fn params_index(recv: &Node, indexes: &Vec<Node>) -> (r: Option<Vec<String>>)
    ensures
        match index_keys(*recv, indexes@) {
            Some(k) => r is Some && views(r->0@) == k,
            None => r is None,
        },
{
    let mut data = parse_node_strs(indexes);
    let mut found = false;
    let mut queue: VecDeque<&Node> = VecDeque::new();
    queue.push_back(recv);
    assert(deref_all(queue@) =~= seq![*recv]);
    while queue.len() > 0
        invariant
            index_walk(deref_all(queue@), views(data@), found) == index_walk(
                seq![*recv],
                node_strs(indexes@),
                false,
            ),
        decreases seq_size(deref_all(queue@)),
    {
        let ghost q = deref_all(queue@);
        proof {
            lemma_seq_size_first(q);
        }
        let n = pop_front(&mut queue);
        match n {
            Node::Send { method_name, .. } => {
                found = found || str_eq(method_name.as_str(), "params");
            },
            Node::Index { recv: inner, indexes: more } => {
                push_one(&mut queue, inner);
                push_all(&mut queue, more);
                proof {
                    lemma_seq_size_append(q.drop_first(), seq![**inner]);
                    lemma_seq_size_append(q.drop_first() + seq![**inner], more@);
                    lemma_one_size(**inner);
                }
            },
            _ => {
                let v = parse_node_str(n);
                if !str_eq(v.as_str(), "unknown") {
                    let ghost before = views(data@);
                    data.push(v);
                    assert(views(data@) =~= before.push(node_str(*n)));
                }
            },
        }
    }
    if !found {
        return None;
    }
    if let Node::Index { .. } = recv {
        let ghost dv = views(data@);
        let mut reversed: Vec<String> = Vec::new();
        let mut i: usize = data.len();
        while i > 0
            invariant
                i <= data.len(),
                dv == views(data@),
                views(reversed@).len() == dv.len() - i,
                forall|k: int|
                    0 <= k < views(reversed@).len() ==> #[trigger] views(reversed@)[k] == dv[dv.len()
                        - 1 - k],
            decreases i,
        {
            i = i - 1;
            let ghost before = views(reversed@);
            reversed.push(data[i].clone());
            assert(views(reversed@) =~= before.push(dv[i as int]));
        }
        assert(views(reversed@) =~= dv.reverse());
        Some(vec![join_strings(&reversed, ":")])
    } else {
        Some(data)
    }
}

// ---------------------------------------------------------------------------
// The walk over a method body.

pub open spec fn one(b: Box<Node>) -> Seq<Node> {
    seq![*b]
}

/// The sub-trees that the walk visits after `n`, in order.
pub open spec fn next(n: Node) -> Seq<Node> {
    match n {
        Node::Alias { from, .. } => one(from),
        Node::And { lhs, rhs } => one(lhs) + one(rhs),
        Node::AndAsgn { value, .. } => one(value),
        Node::Array(v) => v@,
        Node::ArrayPattern(v) => v@,
        Node::ArrayPatternWithTail(v) => v@,
        Node::Begin(v) => v@,
        Node::Block { body, .. } => opt_seq(body),
        Node::BlockPass(o) => opt_seq(o),
        Node::Const { scope, .. } => opt_seq(scope),
        Node::ConstPattern { pattern, .. } => one(pattern),
        Node::CSend { args, .. } => args@,
        Node::Defined(b) => one(b),
        Node::Dstr(v) => v@,
        Node::Dsym(v) => v@,
        Node::EFlipFlop { left, right } => opt_seq(left) + opt_seq(right),
        Node::Ensure { body, ensure } => opt_seq(ensure) + opt_seq(body),
        Node::Erange { left, right } => opt_seq(left) + opt_seq(right),
        Node::FindPattern(v) => v@,
        Node::For { iterator, iteratee, body } => one(iterator) + one(iteratee) + opt_seq(body),
        Node::Hash(v) => v@,
        Node::HashPattern(v) => v@,
        Node::If { cond, if_true, if_false } => one(cond) + opt_seq(if_true) + opt_seq(if_false),
        Node::IfGuard(b) => one(b),
        Node::IFlipFlop { left, right } => opt_seq(left) + opt_seq(right),
        Node::IfMod { cond, if_true, if_false } => one(cond) + opt_seq(if_true) + opt_seq(if_false),
        Node::IfTernary { cond, if_true, if_false } => one(cond) + one(if_true) + one(if_false),
        Node::IndexAsgn { recv, indexes, .. } => match *recv {
            Node::Send { recv: inner, method_name, args } => if method_name@ == "headers"@ {
                Seq::empty()
            } else {
                args@ + opt_seq(inner)
            },
            _ => one(recv) + indexes@,
        },
        Node::InPattern { pattern, guard, body } => one(pattern) + opt_seq(guard) + opt_seq(body),
        Node::Irange { left, right } => opt_seq(left) + opt_seq(right),
        Node::Ivasgn { value, .. } => opt_seq(value),
        Node::Kwargs(v) => v@,
        Node::KwBegin(v) => v@,
        Node::Kwoptarg { default, .. } => one(default),
        Node::Kwsplat(b) => one(b),
        Node::Lvasgn { value, .. } => opt_seq(value),
        Node::Masgn { lhs, rhs } => one(lhs) + one(rhs),
        Node::MatchAlt { lhs, rhs } => one(lhs) + one(rhs),
        Node::MatchAs { value, .. } => one(value),
        Node::MatchPattern { value, pattern } => one(value) + one(pattern),
        Node::MatchPatternP { value, pattern } => one(value) + one(pattern),
        Node::MatchRest(o) => opt_seq(o),
        Node::MatchWithLvasgn { re, value } => one(re) + one(value),
        Node::Mlhs(v) => v@,
        Node::Next(v) => v@,
        Node::Numblock { body, .. } => one(body),
        Node::OpAsgn { recv, value } => one(recv) + one(value),
        Node::Optarg { default, .. } => one(default),
        Node::Or { lhs, rhs } => one(lhs) + one(rhs),
        Node::OrAsgn { recv, value } => one(recv) + one(value),
        Node::Pair { key, value } => one(key) + one(value),
        Node::Pin(b) => one(b),
        Node::Postexe(o) => opt_seq(o),
        Node::Preexe(o) => opt_seq(o),
        Node::Procarg0(v) => v@,
        Node::Regexp { parts, options } => parts@ + opt_seq(options),
        Node::Rescue { body, rescue_bodies, else_ } => opt_seq(body) + rescue_bodies@ + opt_seq(else_),
        Node::RescueBody { exc_list, exc_var, body } => opt_seq(body) + opt_seq(exc_var) + opt_seq(exc_list),
        Node::Return(v) => v@,
        Node::Send { recv, args, .. } => if misordered(n) {
            args@
        } else if send_type(n) == SendTypes::Invalid {
            args@ + opt_seq(recv)
        } else {
            Seq::empty()
        },
        Node::Splat(o) => opt_seq(o),
        Node::Undef(v) => v@,
        Node::UnlessGuard(b) => one(b),
        Node::Until { cond, body } => one(cond) + opt_seq(body),
        Node::UntilPost { cond, body } => one(cond) + one(body),
        Node::When { patterns, body } => patterns@ + opt_seq(body),
        Node::While { cond, body } => one(cond) + opt_seq(body),
        Node::WhilePost { cond, body } => one(cond) + one(body),
        Node::Yield(v) => v@,
        _ => Seq::empty(),
    }
}

/// The sub-trees visited after a node hold fewer nodes than it does.
pub proof fn lemma_next_smaller(n: Node)
    ensures
        seq_size(next(n)) < size(n),
{
    broadcast use group_size_lemmas;

    match n {
        Node::IndexAsgn { recv, indexes, value } => {
            match *recv {
                Node::Send { recv: inner, method_name, args } => {
                    assert(size(*recv) == 1 + opt_size(inner) + seq_size(args@));
                },
                _ => {},
            }
        },
        _ => {},
    }
}

/// What visiting one node adds to the facts.
pub open spec fn visit(n: Node, f: Facts) -> Facts {
    match n {
        Node::Index { recv, indexes } => Facts {
            params: match index_keys(*recv, indexes@) {
                Some(k) => insert_keys(f.params, k),
                None => f.params,
            },
            headers: if is_headers(*recv) {
                f.headers + header_entries(indexes@, Seq::empty())
            } else {
                f.headers
            },
            ..f
        },
        Node::IndexAsgn { recv, indexes, value } => if is_headers(*recv) {
            Facts { headers: f.headers + header_entries(indexes@, opt_str(value)), ..f }
        } else {
            f
        },
        Node::Ivasgn { name, .. } => Facts {
            instance_variables: insert_key(f.instance_variables, name@),
            ..f
        },
        Node::Lvar(name) => Facts { local_variables: read_local(f.local_variables, name@), ..f },
        Node::Lvasgn { name, .. } => Facts {
            local_variables: declare_local(f.local_variables, name@),
            ..f
        },
        Node::Send { method_name, args, .. } => if misordered(n) {
            f
        } else if send_type(n) == SendTypes::Invalid {
            Facts { method_calls: f.method_calls.push((method_name@, node_strs(args@))), ..f }
        } else {
            Facts { params: insert_keys(f.params, chain_keys(n)), ..f }
        },
        Node::CSend { method_name, args, .. } => Facts {
            method_calls: f.method_calls.push((method_name@, node_strs(args@))),
            ..f
        },
        _ => f,
    }
}

/// Breadth-first walk: visits the front of the queue, queues what it leads
/// to at the back, until the queue is empty.
pub open spec fn walk(queue: Seq<Node>, f: Facts) -> Facts
    decreases seq_size(queue),
{
    if queue.len() == 0 {
        f
    } else {
        proof {
            lemma_seq_size_first(queue);
            lemma_next_smaller(queue[0]);
            lemma_seq_size_append(queue.drop_first(), next(queue[0]));
        }
        walk(queue.drop_first() + next(queue[0]), visit(queue[0], f))
    }
}

/// The facts of a method body.
pub open spec fn analyze(body: Node) -> Facts {
    walk(seq![body], no_facts())
}

/// Queues, in order, the sub-trees that the walk visits after `n`.
fn push_next<'a>(queue: &mut VecDeque<&'a Node>, n: &'a Node)
    ensures
        deref_all(final(queue)@) == deref_all(old(queue)@) + next(*n),
{
    let ghost q0 = deref_all(queue@);
    match n {
        Node::Alias { from, .. } => push_one(queue, from),
        Node::And { lhs, rhs } => {
            push_one(queue, lhs);
            push_one(queue, rhs);
        },
        Node::AndAsgn { value, .. } => push_one(queue, value),
        Node::Array(v) => push_all(queue, v),
        Node::ArrayPattern(v) => push_all(queue, v),
        Node::ArrayPatternWithTail(v) => push_all(queue, v),
        Node::Begin(v) => push_all(queue, v),
        Node::Block { body, .. } => push_opt(queue, body),
        Node::BlockPass(o) => push_opt(queue, o),
        Node::Const { scope, .. } => push_opt(queue, scope),
        Node::ConstPattern { pattern, .. } => push_one(queue, pattern),
        Node::CSend { args, .. } => push_all(queue, args),
        Node::Defined(b) => push_one(queue, b),
        Node::Dstr(v) => push_all(queue, v),
        Node::Dsym(v) => push_all(queue, v),
        Node::EFlipFlop { left, right } => {
            push_opt(queue, left);
            push_opt(queue, right);
        },
        Node::Ensure { body, ensure } => {
            push_opt(queue, ensure);
            push_opt(queue, body);
        },
        Node::Erange { left, right } => {
            push_opt(queue, left);
            push_opt(queue, right);
        },
        Node::FindPattern(v) => push_all(queue, v),
        Node::For { iterator, iteratee, body } => {
            push_one(queue, iterator);
            push_one(queue, iteratee);
            push_opt(queue, body);
        },
        Node::Hash(v) => push_all(queue, v),
        Node::HashPattern(v) => push_all(queue, v),
        Node::If { cond, if_true, if_false } => {
            push_one(queue, cond);
            push_opt(queue, if_true);
            push_opt(queue, if_false);
        },
        Node::IfGuard(b) => push_one(queue, b),
        Node::IFlipFlop { left, right } => {
            push_opt(queue, left);
            push_opt(queue, right);
        },
        Node::IfMod { cond, if_true, if_false } => {
            push_one(queue, cond);
            push_opt(queue, if_true);
            push_opt(queue, if_false);
        },
        Node::IfTernary { cond, if_true, if_false } => {
            push_one(queue, cond);
            push_one(queue, if_true);
            push_one(queue, if_false);
        },
        Node::IndexAsgn { recv, indexes, .. } => match &**recv {
            Node::Send { recv: inner, method_name, args } => {
                if !str_eq(method_name.as_str(), "headers") {
                    push_all(queue, args);
                    push_opt(queue, inner);
                }
            },
            _ => {
                push_one(queue, recv);
                push_all(queue, indexes);
            },
        },
        Node::InPattern { pattern, guard, body } => {
            push_one(queue, pattern);
            push_opt(queue, guard);
            push_opt(queue, body);
        },
        Node::Irange { left, right } => {
            push_opt(queue, left);
            push_opt(queue, right);
        },
        Node::Ivasgn { value, .. } => push_opt(queue, value),
        Node::Kwargs(v) => push_all(queue, v),
        Node::KwBegin(v) => push_all(queue, v),
        Node::Kwoptarg { default, .. } => push_one(queue, default),
        Node::Kwsplat(b) => push_one(queue, b),
        Node::Lvasgn { value, .. } => push_opt(queue, value),
        Node::Masgn { lhs, rhs } => {
            push_one(queue, lhs);
            push_one(queue, rhs);
        },
        Node::MatchAlt { lhs, rhs } => {
            push_one(queue, lhs);
            push_one(queue, rhs);
        },
        Node::MatchAs { value, .. } => push_one(queue, value),
        Node::MatchPattern { value, pattern } => {
            push_one(queue, value);
            push_one(queue, pattern);
        },
        Node::MatchPatternP { value, pattern } => {
            push_one(queue, value);
            push_one(queue, pattern);
        },
        Node::MatchRest(o) => push_opt(queue, o),
        Node::MatchWithLvasgn { re, value } => {
            push_one(queue, re);
            push_one(queue, value);
        },
        Node::Mlhs(v) => push_all(queue, v),
        Node::Next(v) => push_all(queue, v),
        Node::Numblock { body, .. } => push_one(queue, body),
        Node::OpAsgn { recv, value } => {
            push_one(queue, recv);
            push_one(queue, value);
        },
        Node::Optarg { default, .. } => push_one(queue, default),
        Node::Or { lhs, rhs } => {
            push_one(queue, lhs);
            push_one(queue, rhs);
        },
        Node::OrAsgn { recv, value } => {
            push_one(queue, recv);
            push_one(queue, value);
        },
        Node::Pair { key, value } => {
            push_one(queue, key);
            push_one(queue, value);
        },
        Node::Pin(b) => push_one(queue, b),
        Node::Postexe(o) => push_opt(queue, o),
        Node::Preexe(o) => push_opt(queue, o),
        Node::Procarg0(v) => push_all(queue, v),
        Node::Regexp { parts, options } => {
            push_all(queue, parts);
            push_opt(queue, options);
        },
        Node::Rescue { body, rescue_bodies, else_ } => {
            push_opt(queue, body);
            push_all(queue, rescue_bodies);
            push_opt(queue, else_);
        },
        Node::RescueBody { exc_list, exc_var, body } => {
            push_opt(queue, body);
            push_opt(queue, exc_var);
            push_opt(queue, exc_list);
        },
        Node::Return(v) => push_all(queue, v),
        Node::Send { recv, args, .. } => {
            if is_misordered(n) {
                push_all(queue, args);
            } else if parse_send(n) == SendTypes::Invalid {
                push_all(queue, args);
                push_opt(queue, recv);
            }
        },
        Node::Splat(o) => push_opt(queue, o),
        Node::Undef(v) => push_all(queue, v),
        Node::UnlessGuard(b) => push_one(queue, b),
        Node::Until { cond, body } => {
            push_one(queue, cond);
            push_opt(queue, body);
        },
        Node::UntilPost { cond, body } => {
            push_one(queue, cond);
            push_one(queue, body);
        },
        Node::When { patterns, body } => {
            push_all(queue, patterns);
            push_opt(queue, body);
        },
        Node::While { cond, body } => {
            push_one(queue, cond);
            push_opt(queue, body);
        },
        Node::WhilePost { cond, body } => {
            push_one(queue, cond);
            push_one(queue, body);
        },
        Node::Yield(v) => push_all(queue, v),
        _ => {},
    }
    assert(deref_all(queue@) =~= q0 + next(*n));
}

/// Appends a header entry with `value` for each string index.
fn push_headers(headers: &mut Vec<(String, String)>, indexes: &Vec<Node>, value: &String)
    ensures
        pair_views(final(headers)@) == pair_views(old(headers)@) + header_entries(indexes@, value@),
{
    let ghost iv = indexes@;
    let mut i: usize = 0;
    assert(iv.subrange(0, iv.len() as int) =~= iv);
    while i < indexes.len()
        invariant
            i <= indexes.len(),
            iv == indexes@,
            pair_views(headers@) + header_entries(iv.subrange(i as int, iv.len() as int), value@)
                == pair_views(old(headers)@) + header_entries(iv, value@),
        decreases indexes.len() - i,
    {
        let ghost before = pair_views(headers@);
        let ghost rest = iv.subrange(i as int, iv.len() as int);
        assert(rest.drop_first() =~= iv.subrange(i + 1, iv.len() as int));
        if let Node::Str(k) = &indexes[i] {
            headers.push((k.clone(), value.clone()));
            assert(pair_views(headers@) =~= before.push((k@, value@)));
            assert(before + header_entries(rest, value@) =~= pair_views(headers@) + header_entries(
                rest.drop_first(),
                value@,
            ));
        } else {
            assert(header_entries(rest, value@) =~= header_entries(rest.drop_first(), value@));
        }
        i = i + 1;
    }
    assert(iv.subrange(i as int, iv.len() as int) =~= Seq::<Node>::empty());
    assert(pair_views(headers@) =~= pair_views(headers@) + header_entries(Seq::<Node>::empty(), value@));
}

/// Counts a read of `name`, where it has a counter.
fn read_local_var(locals: &mut Vec<(String, usize)>, name: &String)
    ensures
        count_views(final(locals)@) == read_local(count_views(old(locals)@), name@),
{
    let ghost target = read_local(count_views(locals@), name@);
    let mut out: Vec<(String, usize)> = Vec::new();
    let mut i: usize = 0;
    while i < locals.len()
        invariant
            i <= locals.len(),
            locals == old(locals),
            target == read_local(count_views(locals@), name@),
            count_views(out@) =~= target.subrange(0, i as int),
        decreases locals.len() - i,
    {
        let (k, c) = (&locals[i].0, locals[i].1);
        let ghost before = count_views(out@);
        if *k == *name {
            let c2 = if c < usize::MAX { c + 1 } else { c };
            out.push((k.clone(), c2));
        } else {
            out.push((k.clone(), c));
        }
        assert(count_views(out@) =~= before.push(target[i as int]));
        i = i + 1;
    }
    *locals = out;
}

/// Starts a counter at zero for `name` unless it has one.
fn declare_local_var(locals: &mut Vec<(String, usize)>, name: &String)
    ensures
        count_views(final(locals)@) == declare_local(count_views(old(locals)@), name@),
{
    let ghost lv = count_views(locals@);
    let mut i: usize = 0;
    while i < locals.len()
        invariant
            i <= locals.len(),
            lv == count_views(locals@),
            forall|j: int| 0 <= j < i ==> lv[j].0 != name@,
        decreases locals.len() - i,
    {
        if locals[i].0 == *name {
            assert(lv[i as int].0 == name@);
            return;
        }
        i = i + 1;
    }
    locals.push((name.clone(), 0));
    assert(count_views(locals@) =~= lv.push((name@, 0usize)));
}

/// Records a call with its rendered arguments.
fn push_call(calls: &mut Vec<(String, Vec<String>)>, name: &String, args: &Vec<Node>)
    ensures
        call_views(final(calls)@) == call_views(old(calls)@).push((name@, node_strs(args@))),
{
    let ghost before = call_views(calls@);
    let rendered = parse_node_strs(args);
    calls.push((name.clone(), rendered));
    assert(call_views(calls@) =~= before.push((name@, node_strs(args@))));
}

/// Adds what one node shows to the facts of `d`.
fn visit_node(n: &Node, d: &mut MethodDetails)
    ensures
        final(d).facts() == visit(*n, old(d).facts()),
        final(d).name == old(d).name,
        final(d).args == old(d).args,
        final(d).renders == old(d).renders,
{
    match n {
        Node::Index { recv, indexes } => {
            if let Some(keys) = params_index(recv, indexes) {
                insert_strings(&mut d.params, keys);
            }
            if let Node::Send { method_name, .. } = &**recv {
                if str_eq(method_name.as_str(), "headers") {
                    push_headers(&mut d.headers, indexes, &String::new());
                }
            }
        },
        Node::IndexAsgn { recv, indexes, value } => {
            if let Node::Send { method_name, .. } = &**recv {
                if str_eq(method_name.as_str(), "headers") {
                    let v = match value {
                        Some(b) => parse_node_str(b),
                        None => String::new(),
                    };
                    push_headers(&mut d.headers, indexes, &v);
                }
            }
        },
        Node::Ivasgn { name, .. } => insert_string(&mut d.instance_variables, name.clone()),
        Node::Lvar(name) => read_local_var(&mut d.local_variables, name),
        Node::Lvasgn { name, .. } => declare_local_var(&mut d.local_variables, name),
        Node::Send { method_name, args, .. } => {
            if is_misordered(n) {
            } else if parse_send(n) == SendTypes::Invalid {
                push_call(&mut d.method_calls, method_name, args);
            } else {
                insert_strings(&mut d.params, chain_params(n));
            }
        },
        Node::CSend { method_name, args, .. } => push_call(&mut d.method_calls, method_name, args),
        _ => {},
    }
}

/// Profiles one method: walks its body breadth first and collects the
/// parameter keys, headers, instance variables, local-variable read counts
/// and calls that it shows.
pub fn create_method_details(statement: &Node, method_name: String, args: Vec<String>) -> (r:
    MethodDetails)
    ensures
        r.name == method_name,
        r.args == args,
        r.facts() == analyze(*statement),
        r.renders@.len() == 0,
        views(r.params@).no_duplicates(),
        views(r.instance_variables@).no_duplicates(),
{
    let mut d = MethodDetails {
        name: method_name,
        args,
        params: Vec::new(),
        headers: Vec::new(),
        instance_variables: Vec::new(),
        local_variables: Vec::new(),
        method_calls: Vec::new(),
        renders: Vec::new(),
    };
    assert(d.facts() =~= no_facts()) by {
        assert(views(d.params@) =~= Seq::<Seq<char>>::empty());
        assert(pair_views(d.headers@) =~= Seq::<(Seq<char>, Seq<char>)>::empty());
        assert(views(d.instance_variables@) =~= Seq::<Seq<char>>::empty());
        assert(count_views(d.local_variables@) =~= Seq::<(Seq<char>, usize)>::empty());
        assert(call_views(d.method_calls@) =~= Seq::<(Seq<char>, Seq<Seq<char>>)>::empty());
    }
    let mut queue: VecDeque<&Node> = VecDeque::new();
    queue.push_back(statement);
    assert(deref_all(queue@) =~= seq![*statement]);
    while queue.len() > 0
        invariant
            walk(deref_all(queue@), d.facts()) == analyze(*statement),
            d.name == method_name,
            d.args == args,
            d.renders@.len() == 0,
        decreases seq_size(deref_all(queue@)),
    {
        let ghost q = deref_all(queue@);
        proof {
            lemma_seq_size_first(q);
            lemma_next_smaller(q[0]);
            lemma_seq_size_append(q.drop_first(), next(q[0]));
        }
        let n = pop_front(&mut queue);
        visit_node(n, &mut d);
        push_next(&mut queue, n);
    }
    proof {
        assert(no_facts().params.len() == 0);
        lemma_walk_distinct(seq![*statement], no_facts());
    }
    d
}

pub proof fn lemma_insert_key_set(s: Seq<Seq<char>>, k: Seq<char>)
    ensures
        insert_key(s, k).to_set() == s.to_set().insert(k),
{
    if !s.contains(k) {
        let t = s.push(k);
        assert forall|x| t.to_set().contains(x) <==> s.to_set().insert(k).contains(x) by {
            if s.contains(x) {
                let j = choose|j: int| 0 <= j < s.len() && s[j] == x;
                assert(t[j] == x);
            }
            if t.contains(x) {
                let j = choose|j: int| 0 <= j < t.len() && t[j] == x;
                if j < s.len() {
                    assert(s[j] == x);
                }
            }
            if x == k {
                assert(t[s.len() as int] == x);
            }
        }
        assert(t.to_set() =~= s.to_set().insert(k));
    } else {
        assert(s.to_set() =~= s.to_set().insert(k));
    }
}

pub proof fn lemma_insert_keys_set(s: Seq<Seq<char>>, ks: Seq<Seq<char>>)
    ensures
        insert_keys(s, ks).to_set() == s.to_set().union(ks.to_set()),
    decreases ks.len(),
{
    if ks.len() == 0 {
        assert(ks.to_set() =~= Set::<Seq<char>>::empty());
        assert(s.to_set().union(ks.to_set()) =~= s.to_set());
    } else {
        lemma_insert_key_set(s, ks[0]);
        lemma_insert_keys_set(insert_key(s, ks[0]), ks.drop_first());
        assert forall|x| ks.to_set().contains(x) <==> ks.drop_first().to_set().insert(ks[0]).contains(x) by {
            if ks.contains(x) {
                let j = choose|j: int| 0 <= j < ks.len() && ks[j] == x;
                if j > 0 {
                    assert(ks.drop_first()[j - 1] == x);
                }
            }
            if ks.drop_first().contains(x) {
                let j = choose|j: int| 0 <= j < ks.drop_first().len() && ks.drop_first()[j] == x;
                assert(ks[j + 1] == x);
            }
            if x == ks[0] {
                assert(ks[0] == x);
            }
        }
        assert(insert_keys(s, ks).to_set() =~= s.to_set().union(ks.to_set()));
    }
}

/// A `require` applied to the result of a `permit` on the parameter bag is
/// not a parameter access: visiting it adds nothing, and the walk goes on
/// into its arguments only, so no key of the chain is reported.
pub proof fn lemma_require_after_permit_invalid(n: Node)
    requires
        n is Send,
        n->Send_method_name@ == "require"@,
        n->Send_recv is Some,
        *n->Send_recv->0 is Send,
        (*n->Send_recv->0)->Send_method_name@ == "permit"@,
        reaches_params(*n->Send_recv->0),
    ensures
        send_type(n) == SendTypes::Invalid,
        misordered(n),
        forall|f: Facts| #[trigger] visit(n, f) == f,
        next(n) == n->Send_args@,
{
    reveal_strlit("require");
    reveal_strlit("permit");
    if let Node::Send { recv: Some(inner), .. } = n {
        assert(chain_flags(*inner, true, false, false) is None);
    }
}

pub proof fn lemma_insert_key_distinct(s: Seq<Seq<char>>, k: Seq<char>)
    ensures
        s.no_duplicates() ==> insert_key(s, k).no_duplicates(),
{
    if s.no_duplicates() && !s.contains(k) {
        let t = s.push(k);
        assert forall|i: int, j: int| 0 <= i < t.len() && 0 <= j < t.len() && i != j implies t[i] != t[j] by {
            if i == s.len() && j < s.len() {
                assert(s[j] == t[j]);
            } else if j == s.len() && i < s.len() {
                assert(s[i] == t[i]);
            }
        }
    }
}

pub proof fn lemma_insert_keys_distinct(s: Seq<Seq<char>>, ks: Seq<Seq<char>>)
    ensures
        s.no_duplicates() ==> insert_keys(s, ks).no_duplicates(),
    decreases ks.len(),
{
    if ks.len() > 0 {
        lemma_insert_key_distinct(s, ks[0]);
        lemma_insert_keys_distinct(insert_key(s, ks[0]), ks.drop_first());
    }
}

/// The walk keeps parameter keys and instance-variable names free of
/// repeats.
pub proof fn lemma_walk_distinct(queue: Seq<Node>, f: Facts)
    requires
        f.params.no_duplicates(),
        f.instance_variables.no_duplicates(),
    ensures
        walk(queue, f).params.no_duplicates(),
        walk(queue, f).instance_variables.no_duplicates(),
    decreases seq_size(queue),
{
    if queue.len() > 0 {
        let n = queue[0];
        lemma_seq_size_first(queue);
        lemma_next_smaller(n);
        lemma_seq_size_append(queue.drop_first(), next(n));
        match n {
            Node::Index { recv, indexes } => {
                if let Some(k) = index_keys(*recv, indexes@) {
                    lemma_insert_keys_distinct(f.params, k);
                }
            },
            Node::Ivasgn { name, .. } => lemma_insert_key_distinct(f.instance_variables, name@),
            Node::Send { .. } => lemma_insert_keys_distinct(f.params, chain_keys(n)),
            _ => {},
        }
        lemma_walk_distinct(queue.drop_first() + next(n), visit(n, f));
    }
}

// ---------------------------------------------------------------------------
// Bodies that never touch the parameter bag.

proof fn lemma_next_no_bag(n: Node)
    requires
        no_bag(n),
    ensures
        all_no_bag(next(n)),
{
    broadcast use group_no_bag_lemmas;

    match n {
        Node::IndexAsgn { recv, .. } => {
            assert(no_bag(*recv));
        },
        _ => {},
    }
}

proof fn lemma_index_walk_no_bag(queue: Seq<Node>, data: Seq<Seq<char>>)
    requires
        all_no_bag(queue),
    ensures
        !index_walk(queue, data, false).1,
    decreases seq_size(queue),
{
    broadcast use group_no_bag_lemmas;

    if queue.len() > 0 {
        let n = queue[0];
        let rest = queue.drop_first();
        lemma_seq_size_first(queue);
        lemma_all_no_bag_first(queue);
        match n {
            Node::Send { method_name, .. } => {
                lemma_index_walk_no_bag(rest, data);
            },
            Node::Index { recv, indexes } => {
                lemma_seq_size_append(rest, seq![*recv]);
                lemma_seq_size_append(rest + seq![*recv], indexes@);
                lemma_one_size(*recv);
                lemma_index_walk_no_bag(rest + seq![*recv] + indexes@, data);
            },
            _ => {
                let v = node_str(n);
                lemma_index_walk_no_bag(rest, if v == unknown() { data } else { data.push(v) });
            },
        }
    }
}

proof fn lemma_chain_no_bag(n: Node, require: bool, permit: bool)
    requires
        no_bag(n),
    ensures
        match chain_flags(n, require, permit, false) {
            Some(t) => !t.2,
            None => true,
        },
    decreases n,
{
    if let Node::Send { recv, method_name, .. } = n {
        if let Some(r) = recv {
            let (rq, pm) = if method_name@ == "require"@ {
                (true, permit)
            } else if method_name@ == "permit"@ {
                (require, true)
            } else {
                (require, permit)
            };
            assert(opt_no_bag(recv));
            assert(no_bag(*r));
            lemma_chain_no_bag(*r, rq, pm);
        }
    }
}

proof fn lemma_walk_no_bag(queue: Seq<Node>, f: Facts)
    requires
        all_no_bag(queue),
    ensures
        walk(queue, f).params == f.params,
    decreases seq_size(queue),
{
    broadcast use group_no_bag_lemmas;

    if queue.len() > 0 {
        let n = queue[0];
        lemma_seq_size_first(queue);
        lemma_all_no_bag_first(queue);
        lemma_next_smaller(n);
        lemma_seq_size_append(queue.drop_first(), next(n));
        lemma_next_no_bag(n);
        match n {
            Node::Index { recv, indexes } => {
                lemma_all_no_bag_one(*recv);
                lemma_index_walk_no_bag(seq![*recv], node_strs(indexes@));
            },
            Node::Send { recv, .. } => {
                if let Some(r) = recv {
                    assert(opt_no_bag(recv));
                    assert(no_bag(*r));
                    lemma_chain_no_bag(*r, true, false);
                    lemma_chain_no_bag(*r, false, true);
                }
                assert(send_type(n) == SendTypes::Invalid);
            },
            _ => {},
        }
        assert(visit(n, f).params == f.params);
        lemma_walk_no_bag(queue.drop_first() + next(n), visit(n, f));
    }
}

/// A method body in which the parameter bag is never called yields no
/// parameter keys.
pub proof fn lemma_no_bag_no_params(body: Node)
    requires
        no_bag(body),
    ensures
        analyze(body).params.len() == 0,
{
    broadcast use group_no_bag_lemmas;

    lemma_walk_no_bag(seq![body], no_facts());
}

} // verus!
