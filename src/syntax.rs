//! The syntax tree that the analysis reads, and the textual rendering of its
//! literal forms.
//!
//! A parser front end produces these trees; nothing here parses source text.
use std::collections::VecDeque;
use vstd::prelude::*;

verus! {

/// One node of a parsed source unit.
///
/// Each kind carries its sub-trees and the names that the analysis reads.
/// Kinds that no rule of the analysis inspects are represented by `Other`.
#[allow(inconsistent_fields)]
pub enum Node {
    Alias { to: Box<Node>, from: Box<Node> },
    And { lhs: Box<Node>, rhs: Box<Node> },
    AndAsgn { recv: Box<Node>, value: Box<Node> },
    Array(Vec<Node>),
    ArrayPattern(Vec<Node>),
    ArrayPatternWithTail(Vec<Node>),
    Begin(Vec<Node>),
    Block { call: Box<Node>, args: Option<Box<Node>>, body: Option<Box<Node>> },
    BlockPass(Option<Box<Node>>),
    Casgn { scope: Option<Box<Node>>, name: String, value: Option<Box<Node>> },
    Class { name: Box<Node>, superclass: Option<Box<Node>>, body: Option<Box<Node>> },
    Const { scope: Option<Box<Node>>, name: String },
    ConstPattern { const_: Box<Node>, pattern: Box<Node> },
    CSend { recv: Box<Node>, method_name: String, args: Vec<Node> },
    Def { name: String, args: Vec<String>, body: Option<Box<Node>> },
    Defined(Box<Node>),
    Defs { definee: Box<Node>, name: String, args: Vec<String>, body: Option<Box<Node>> },
    Dstr(Vec<Node>),
    Dsym(Vec<Node>),
    EFlipFlop { left: Option<Box<Node>>, right: Option<Box<Node>> },
    Ensure { body: Option<Box<Node>>, ensure: Option<Box<Node>> },
    Erange { left: Option<Box<Node>>, right: Option<Box<Node>> },
    False,
    FindPattern(Vec<Node>),
    For { iterator: Box<Node>, iteratee: Box<Node>, body: Option<Box<Node>> },
    Hash(Vec<Node>),
    HashPattern(Vec<Node>),
    If { cond: Box<Node>, if_true: Option<Box<Node>>, if_false: Option<Box<Node>> },
    IfGuard(Box<Node>),
    IFlipFlop { left: Option<Box<Node>>, right: Option<Box<Node>> },
    IfMod { cond: Box<Node>, if_true: Option<Box<Node>>, if_false: Option<Box<Node>> },
    IfTernary { cond: Box<Node>, if_true: Box<Node>, if_false: Box<Node> },
    Index { recv: Box<Node>, indexes: Vec<Node> },
    IndexAsgn { recv: Box<Node>, indexes: Vec<Node>, value: Option<Box<Node>> },
    InPattern { pattern: Box<Node>, guard: Option<Box<Node>>, body: Option<Box<Node>> },
    Int(String),
    Irange { left: Option<Box<Node>>, right: Option<Box<Node>> },
    Ivar(String),
    Ivasgn { name: String, value: Option<Box<Node>> },
    Kwargs(Vec<Node>),
    KwBegin(Vec<Node>),
    Kwoptarg { name: String, default: Box<Node> },
    Kwsplat(Box<Node>),
    Lvar(String),
    Lvasgn { name: String, value: Option<Box<Node>> },
    Masgn { lhs: Box<Node>, rhs: Box<Node> },
    MatchAlt { lhs: Box<Node>, rhs: Box<Node> },
    MatchAs { value: Box<Node>, as_: Box<Node> },
    MatchPattern { value: Box<Node>, pattern: Box<Node> },
    MatchPatternP { value: Box<Node>, pattern: Box<Node> },
    MatchRest(Option<Box<Node>>),
    MatchWithLvasgn { re: Box<Node>, value: Box<Node> },
    Mlhs(Vec<Node>),
    Module { name: Box<Node>, body: Option<Box<Node>> },
    Next(Vec<Node>),
    Nil,
    Numblock { call: Box<Node>, body: Box<Node> },
    OpAsgn { recv: Box<Node>, value: Box<Node> },
    Optarg { name: String, default: Box<Node> },
    Or { lhs: Box<Node>, rhs: Box<Node> },
    OrAsgn { recv: Box<Node>, value: Box<Node> },
    Pair { key: Box<Node>, value: Box<Node> },
    Pin(Box<Node>),
    Postexe(Option<Box<Node>>),
    Preexe(Option<Box<Node>>),
    Procarg0(Vec<Node>),
    Regexp { parts: Vec<Node>, options: Option<Box<Node>> },
    Rescue { body: Option<Box<Node>>, rescue_bodies: Vec<Node>, else_: Option<Box<Node>> },
    RescueBody { exc_list: Option<Box<Node>>, exc_var: Option<Box<Node>>, body: Option<Box<Node>> },
    Return(Vec<Node>),
    Send { recv: Option<Box<Node>>, method_name: String, args: Vec<Node> },
    Splat(Option<Box<Node>>),
    Str(String),
    Sym(String),
    True,
    Undef(Vec<Node>),
    UnlessGuard(Box<Node>),
    Until { cond: Box<Node>, body: Option<Box<Node>> },
    UntilPost { cond: Box<Node>, body: Box<Node> },
    When { patterns: Vec<Node>, body: Option<Box<Node>> },
    While { cond: Box<Node>, body: Option<Box<Node>> },
    WhilePost { cond: Box<Node>, body: Box<Node> },
    Yield(Vec<Node>),
    /// A kind that none of the analysis rules inspects.
    Other,
}

/// The number of nodes in a tree.
pub open spec fn size(n: Node) -> nat
    decreases n,
{
    1 + match n {
        Node::Alias { to, from } => size(*to) + size(*from),
        Node::And { lhs, rhs } => size(*lhs) + size(*rhs),
        Node::AndAsgn { recv, value } => size(*recv) + size(*value),
        Node::Array(v) => seq_size(v@),
        Node::ArrayPattern(v) => seq_size(v@),
        Node::ArrayPatternWithTail(v) => seq_size(v@),
        Node::Begin(v) => seq_size(v@),
        Node::Block { call, args, body } => size(*call) + opt_size(args) + opt_size(body),
        Node::BlockPass(o) => opt_size(o),
        Node::Casgn { scope, value, .. } => opt_size(scope) + opt_size(value),
        Node::Class { name, superclass, body } => size(*name) + opt_size(superclass) + opt_size(body),
        Node::Const { scope, .. } => opt_size(scope),
        Node::ConstPattern { const_, pattern } => size(*const_) + size(*pattern),
        Node::CSend { recv, args, .. } => size(*recv) + seq_size(args@),
        Node::Def { body, .. } => opt_size(body),
        Node::Defined(b) => size(*b),
        Node::Defs { definee, body, .. } => size(*definee) + opt_size(body),
        Node::Dstr(v) => seq_size(v@),
        Node::Dsym(v) => seq_size(v@),
        Node::EFlipFlop { left, right } => opt_size(left) + opt_size(right),
        Node::Ensure { body, ensure } => opt_size(body) + opt_size(ensure),
        Node::Erange { left, right } => opt_size(left) + opt_size(right),
        Node::FindPattern(v) => seq_size(v@),
        Node::For { iterator, iteratee, body } => size(*iterator) + size(*iteratee) + opt_size(body),
        Node::Hash(v) => seq_size(v@),
        Node::HashPattern(v) => seq_size(v@),
        Node::If { cond, if_true, if_false } => size(*cond) + opt_size(if_true) + opt_size(if_false),
        Node::IfGuard(b) => size(*b),
        Node::IFlipFlop { left, right } => opt_size(left) + opt_size(right),
        Node::IfMod { cond, if_true, if_false } => size(*cond) + opt_size(if_true) + opt_size(if_false),
        Node::IfTernary { cond, if_true, if_false } => size(*cond) + size(*if_true) + size(*if_false),
        Node::Index { recv, indexes } => size(*recv) + seq_size(indexes@),
        Node::IndexAsgn { recv, indexes, value } => size(*recv) + seq_size(indexes@) + opt_size(value),
        Node::InPattern { pattern, guard, body } => size(*pattern) + opt_size(guard) + opt_size(body),
        Node::Irange { left, right } => opt_size(left) + opt_size(right),
        Node::Ivasgn { value, .. } => opt_size(value),
        Node::Kwargs(v) => seq_size(v@),
        Node::KwBegin(v) => seq_size(v@),
        Node::Kwoptarg { default, .. } => size(*default),
        Node::Kwsplat(b) => size(*b),
        Node::Lvasgn { value, .. } => opt_size(value),
        Node::Masgn { lhs, rhs } => size(*lhs) + size(*rhs),
        Node::MatchAlt { lhs, rhs } => size(*lhs) + size(*rhs),
        Node::MatchAs { value, as_ } => size(*value) + size(*as_),
        Node::MatchPattern { value, pattern } => size(*value) + size(*pattern),
        Node::MatchPatternP { value, pattern } => size(*value) + size(*pattern),
        Node::MatchRest(o) => opt_size(o),
        Node::MatchWithLvasgn { re, value } => size(*re) + size(*value),
        Node::Mlhs(v) => seq_size(v@),
        Node::Module { name, body } => size(*name) + opt_size(body),
        Node::Next(v) => seq_size(v@),
        Node::Numblock { call, body } => size(*call) + size(*body),
        Node::OpAsgn { recv, value } => size(*recv) + size(*value),
        Node::Optarg { default, .. } => size(*default),
        Node::Or { lhs, rhs } => size(*lhs) + size(*rhs),
        Node::OrAsgn { recv, value } => size(*recv) + size(*value),
        Node::Pair { key, value } => size(*key) + size(*value),
        Node::Pin(b) => size(*b),
        Node::Postexe(o) => opt_size(o),
        Node::Preexe(o) => opt_size(o),
        Node::Procarg0(v) => seq_size(v@),
        Node::Regexp { parts, options } => seq_size(parts@) + opt_size(options),
        Node::Rescue { body, rescue_bodies, else_ } => opt_size(body) + seq_size(rescue_bodies@) + opt_size(else_),
        Node::RescueBody { exc_list, exc_var, body } => opt_size(exc_list) + opt_size(exc_var) + opt_size(body),
        Node::Return(v) => seq_size(v@),
        Node::Send { recv, args, .. } => opt_size(recv) + seq_size(args@),
        Node::Splat(o) => opt_size(o),
        Node::Undef(v) => seq_size(v@),
        Node::UnlessGuard(b) => size(*b),
        Node::Until { cond, body } => size(*cond) + opt_size(body),
        Node::UntilPost { cond, body } => size(*cond) + size(*body),
        Node::When { patterns, body } => seq_size(patterns@) + opt_size(body),
        Node::While { cond, body } => size(*cond) + opt_size(body),
        Node::WhilePost { cond, body } => size(*cond) + size(*body),
        Node::Yield(v) => seq_size(v@),
        _ => 0,
    }
}

/// The number of nodes in an optional tree.
pub open spec fn opt_size(o: Option<Box<Node>>) -> nat
    decreases o,
{
    match o {
        Some(b) => size(*b),
        None => 0,
    }
}

/// The number of nodes in a sequence of trees.
pub open spec fn seq_size(s: Seq<Node>) -> nat
    decreases s,
{
    if s.len() == 0 {
        0
    } else {
        size(s[0]) + seq_size(s.subrange(1, s.len() as int))
    }
}

/// The optional tree as a sequence of zero or one trees.
pub open spec fn opt_seq(o: Option<Box<Node>>) -> Seq<Node> {
    match o {
        Some(b) => seq![*b],
        None => Seq::empty(),
    }
}

pub broadcast proof fn lemma_seq_size_append(s: Seq<Node>, t: Seq<Node>)
    ensures
        #[trigger] seq_size(s + t) == seq_size(s) + seq_size(t),
    decreases s.len(),
{
    if s.len() == 0 {
        assert(s + t =~= t);
    } else {
        lemma_seq_size_append(s.subrange(1, s.len() as int), t);
        assert((s + t).subrange(1, (s + t).len() as int) =~= s.subrange(1, s.len() as int) + t);
    }
}

pub broadcast proof fn lemma_opt_seq_size(o: Option<Box<Node>>)
    ensures
        #[trigger] seq_size(opt_seq(o)) == opt_size(o),
{
    if let Some(b) = o {
        lemma_one_size(*b);
    }
}

pub broadcast proof fn lemma_one_size(n: Node)
    ensures
        #[trigger] seq_size(seq![n]) == size(n),
        size(n) >= 1,
{
    let s = seq![n];
    assert(s.subrange(1, 1) =~= Seq::<Node>::empty());
    assert(seq_size(s.subrange(1, 1)) == 0);
    assert(seq_size(s) == size(s[0]) + seq_size(s.subrange(1, 1)));
}

/// Removing the first tree of a non-empty sequence removes its nodes.
pub proof fn lemma_seq_size_first(s: Seq<Node>)
    requires
        s.len() > 0,
    ensures
        seq_size(s) == size(s[0]) + seq_size(s.drop_first()),
        size(s[0]) >= 1,
{
    assert(s.drop_first() =~= s.subrange(1, s.len() as int));
    lemma_one_size(s[0]);
}

pub broadcast group group_size_lemmas {
    lemma_seq_size_append,
    lemma_opt_seq_size,
    lemma_one_size,
}

/// Whether no call named `params`, the request-parameter bag, occurs in the
/// tree.
pub open spec fn no_bag(n: Node) -> bool
    decreases n,
{
    match n {
        Node::Alias { to, from } => no_bag(*to) && no_bag(*from),
        Node::And { lhs, rhs } => no_bag(*lhs) && no_bag(*rhs),
        Node::AndAsgn { recv, value } => no_bag(*recv) && no_bag(*value),
        Node::Array(v) => all_no_bag(v@),
        Node::ArrayPattern(v) => all_no_bag(v@),
        Node::ArrayPatternWithTail(v) => all_no_bag(v@),
        Node::Begin(v) => all_no_bag(v@),
        Node::Block { call, args, body } => no_bag(*call) && opt_no_bag(args) && opt_no_bag(body),
        Node::BlockPass(o) => opt_no_bag(o),
        Node::Casgn { scope, value, .. } => opt_no_bag(scope) && opt_no_bag(value),
        Node::Class { name, superclass, body } => no_bag(*name) && opt_no_bag(superclass) && opt_no_bag(body),
        Node::Const { scope, .. } => opt_no_bag(scope),
        Node::ConstPattern { const_, pattern } => no_bag(*const_) && no_bag(*pattern),
        Node::CSend { recv, args, .. } => no_bag(*recv) && all_no_bag(args@),
        Node::Def { body, .. } => opt_no_bag(body),
        Node::Defined(b) => no_bag(*b),
        Node::Defs { definee, body, .. } => no_bag(*definee) && opt_no_bag(body),
        Node::Dstr(v) => all_no_bag(v@),
        Node::Dsym(v) => all_no_bag(v@),
        Node::EFlipFlop { left, right } => opt_no_bag(left) && opt_no_bag(right),
        Node::Ensure { body, ensure } => opt_no_bag(body) && opt_no_bag(ensure),
        Node::Erange { left, right } => opt_no_bag(left) && opt_no_bag(right),
        Node::FindPattern(v) => all_no_bag(v@),
        Node::For { iterator, iteratee, body } => no_bag(*iterator) && no_bag(*iteratee) && opt_no_bag(body),
        Node::Hash(v) => all_no_bag(v@),
        Node::HashPattern(v) => all_no_bag(v@),
        Node::If { cond, if_true, if_false } => no_bag(*cond) && opt_no_bag(if_true) && opt_no_bag(if_false),
        Node::IfGuard(b) => no_bag(*b),
        Node::IFlipFlop { left, right } => opt_no_bag(left) && opt_no_bag(right),
        Node::IfMod { cond, if_true, if_false } => no_bag(*cond) && opt_no_bag(if_true) && opt_no_bag(if_false),
        Node::IfTernary { cond, if_true, if_false } => no_bag(*cond) && no_bag(*if_true) && no_bag(*if_false),
        Node::Index { recv, indexes } => no_bag(*recv) && all_no_bag(indexes@),
        Node::IndexAsgn { recv, indexes, value } => no_bag(*recv) && all_no_bag(indexes@) && opt_no_bag(value),
        Node::InPattern { pattern, guard, body } => no_bag(*pattern) && opt_no_bag(guard) && opt_no_bag(body),
        Node::Irange { left, right } => opt_no_bag(left) && opt_no_bag(right),
        Node::Ivasgn { value, .. } => opt_no_bag(value),
        Node::Kwargs(v) => all_no_bag(v@),
        Node::KwBegin(v) => all_no_bag(v@),
        Node::Kwoptarg { default, .. } => no_bag(*default),
        Node::Kwsplat(b) => no_bag(*b),
        Node::Lvasgn { value, .. } => opt_no_bag(value),
        Node::Masgn { lhs, rhs } => no_bag(*lhs) && no_bag(*rhs),
        Node::MatchAlt { lhs, rhs } => no_bag(*lhs) && no_bag(*rhs),
        Node::MatchAs { value, as_ } => no_bag(*value) && no_bag(*as_),
        Node::MatchPattern { value, pattern } => no_bag(*value) && no_bag(*pattern),
        Node::MatchPatternP { value, pattern } => no_bag(*value) && no_bag(*pattern),
        Node::MatchRest(o) => opt_no_bag(o),
        Node::MatchWithLvasgn { re, value } => no_bag(*re) && no_bag(*value),
        Node::Mlhs(v) => all_no_bag(v@),
        Node::Module { name, body } => no_bag(*name) && opt_no_bag(body),
        Node::Next(v) => all_no_bag(v@),
        Node::Numblock { call, body } => no_bag(*call) && no_bag(*body),
        Node::OpAsgn { recv, value } => no_bag(*recv) && no_bag(*value),
        Node::Optarg { default, .. } => no_bag(*default),
        Node::Or { lhs, rhs } => no_bag(*lhs) && no_bag(*rhs),
        Node::OrAsgn { recv, value } => no_bag(*recv) && no_bag(*value),
        Node::Pair { key, value } => no_bag(*key) && no_bag(*value),
        Node::Pin(b) => no_bag(*b),
        Node::Postexe(o) => opt_no_bag(o),
        Node::Preexe(o) => opt_no_bag(o),
        Node::Procarg0(v) => all_no_bag(v@),
        Node::Regexp { parts, options } => all_no_bag(parts@) && opt_no_bag(options),
        Node::Rescue { body, rescue_bodies, else_ } => opt_no_bag(body) && all_no_bag(rescue_bodies@) && opt_no_bag(else_),
        Node::RescueBody { exc_list, exc_var, body } => opt_no_bag(exc_list) && opt_no_bag(exc_var) && opt_no_bag(body),
        Node::Return(v) => all_no_bag(v@),
        Node::Send { recv, method_name, args } => method_name@ != "params"@ && opt_no_bag(recv) && all_no_bag(args@),
        Node::Splat(o) => opt_no_bag(o),
        Node::Undef(v) => all_no_bag(v@),
        Node::UnlessGuard(b) => no_bag(*b),
        Node::Until { cond, body } => no_bag(*cond) && opt_no_bag(body),
        Node::UntilPost { cond, body } => no_bag(*cond) && no_bag(*body),
        Node::When { patterns, body } => all_no_bag(patterns@) && opt_no_bag(body),
        Node::While { cond, body } => no_bag(*cond) && opt_no_bag(body),
        Node::WhilePost { cond, body } => no_bag(*cond) && no_bag(*body),
        Node::Yield(v) => all_no_bag(v@),
        _ => true,
    }
}

/// Whether no call of the parameter bag occurs in an optional tree.
pub open spec fn opt_no_bag(o: Option<Box<Node>>) -> bool
    decreases o,
{
    match o {
        Some(b) => no_bag(*b),
        None => true,
    }
}

/// Whether no call of the parameter bag occurs in a sequence of trees.
pub open spec fn all_no_bag(s: Seq<Node>) -> bool
    decreases s,
{
    if s.len() == 0 {
        true
    } else {
        no_bag(s[0]) && all_no_bag(s.subrange(1, s.len() as int))
    }
}

pub broadcast proof fn lemma_all_no_bag_append(s: Seq<Node>, t: Seq<Node>)
    ensures
        #[trigger] all_no_bag(s + t) == (all_no_bag(s) && all_no_bag(t)),
    decreases s.len(),
{
    if s.len() == 0 {
        assert(s + t =~= t);
    } else {
        lemma_all_no_bag_append(s.subrange(1, s.len() as int), t);
        assert((s + t).subrange(1, (s + t).len() as int) =~= s.subrange(1, s.len() as int) + t);
    }
}

pub broadcast proof fn lemma_all_no_bag_one(n: Node)
    ensures
        #[trigger] all_no_bag(seq![n]) == no_bag(n),
{
    let s = seq![n];
    assert(s.subrange(1, 1) =~= Seq::<Node>::empty());
    assert(all_no_bag(s.subrange(1, 1)));
}

pub broadcast proof fn lemma_all_no_bag_opt(o: Option<Box<Node>>)
    ensures
        #[trigger] all_no_bag(opt_seq(o)) == opt_no_bag(o),
{
    if let Some(b) = o {
        lemma_all_no_bag_one(*b);
    }
}

pub proof fn lemma_all_no_bag_first(s: Seq<Node>)
    requires
        s.len() > 0,
    ensures
        all_no_bag(s) == (no_bag(s[0]) && all_no_bag(s.drop_first())),
{
    assert(s.drop_first() =~= s.subrange(1, s.len() as int));
}

pub broadcast group group_no_bag_lemmas {
    lemma_all_no_bag_append,
    lemma_all_no_bag_one,
    lemma_all_no_bag_opt,
}

/// The trees that a work queue of references stands for.
pub open spec fn deref_all(s: Seq<&Node>) -> Seq<Node> {
    s.map_values(|r: &Node| *r)
}

/// Appends a reference to each tree of `v` to the back of the queue.
pub fn push_all<'a>(queue: &mut VecDeque<&'a Node>, v: &'a Vec<Node>)
    ensures
        deref_all(final(queue)@) == deref_all(old(queue)@) + v@,
{
    let mut i: usize = 0;
    while i < v.len()
        invariant
            i <= v.len(),
            deref_all(queue@) == deref_all(old(queue)@) + v@.subrange(0, i as int),
        decreases v.len() - i,
    {
        let ghost prev = queue@;
        let item = &v[i];
        queue.push_back(item);
        assert(deref_all(queue@) =~= deref_all(prev).push(v@[i as int]));
        assert(v@.subrange(0, i + 1) =~= v@.subrange(0, i as int).push(v@[i as int]));
        i = i + 1;
    }
    assert(v@.subrange(0, i as int) =~= v@);
}

/// Appends a reference to the tree, if there is one, to the back of the queue.
pub fn push_opt<'a>(queue: &mut VecDeque<&'a Node>, o: &'a Option<Box<Node>>)
    ensures
        deref_all(final(queue)@) == deref_all(old(queue)@) + opt_seq(*o),
{
    let ghost prev = queue@;
    if let Some(b) = o {
        queue.push_back(&**b);
        assert(deref_all(queue@) =~= deref_all(prev) + opt_seq(*o));
    } else {
        assert(deref_all(queue@) =~= deref_all(prev) + opt_seq(*o));
    }
}

/// Appends a reference to the tree to the back of the queue.
pub fn push_one<'a>(queue: &mut VecDeque<&'a Node>, b: &'a Box<Node>)
    ensures
        deref_all(final(queue)@) == deref_all(old(queue)@) + seq![**b],
{
    let ghost prev = queue@;
    queue.push_back(&**b);
    assert(deref_all(queue@) =~= deref_all(prev) + seq![**b]);
}

/// Takes the front of a non-empty queue.
pub fn pop_front<'a>(queue: &mut VecDeque<&'a Node>) -> (r: &'a Node)
    requires
        old(queue)@.len() > 0,
    ensures
        *r == deref_all(old(queue)@)[0],
        deref_all(final(queue)@) == deref_all(old(queue)@).drop_first(),
{
    let ghost prev = queue@;
    let r = queue.pop_front().unwrap();
    assert(deref_all(queue@) =~= deref_all(prev).drop_first());
    r
}

} // verus!
