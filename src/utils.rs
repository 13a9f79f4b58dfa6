//! Textual forms of literal nodes and the string helpers they are built with.
use crate::syntax::Node;
use vstd::prelude::*;

verus! {

/// The views of a sequence of strings.
pub open spec fn views(s: Seq<String>) -> Seq<Seq<char>> {
    s.map_values(|x: String| x@)
}

/// The parts with `sep` between each two neighbours.
pub open spec fn join(parts: Seq<Seq<char>>, sep: Seq<char>) -> Seq<char>
    decreases parts.len(),
{
    if parts.len() == 0 {
        Seq::empty()
    } else if parts.len() == 1 {
        parts[0]
    } else {
        join(parts.drop_last(), sep) + sep + parts.last()
    }
}

/// The token that stands for a form that has no textual rendering.
pub open spec fn unknown() -> Seq<char> {
    "unknown"@
}

/// The `::`-separated path of a constant reference whose every scope is a
/// constant too; `None` for any other node.
pub open spec fn const_path(n: Node) -> Option<Seq<char>>
    decreases n,
{
    match n {
        Node::Const { scope, name } => match scope {
            Some(s) => match const_path(*s) {
                Some(p) => Some(p + "::"@ + name@),
                None => None,
            },
            None => Some(name@),
        },
        _ => None,
    }
}

/// The textual form of a literal-like node.
pub open spec fn node_str(n: Node) -> Seq<char>
    decreases n,
{
    match n {
        Node::Send { recv, method_name, args } => if recv is None && args@.len() == 0 {
            method_name@
        } else {
            unknown()
        },
        Node::Sym(s) => s@,
        Node::Ivar(s) => s@,
        Node::Str(s) => s@,
        Node::Int(s) => s@,
        Node::Lvar(s) => s@,
        Node::Array(v) => "["@ + join(node_strs(v@), ","@) + "]"@,
        Node::Hash(v) => "{"@ + join(node_strs(v@), ","@) + "}"@,
        Node::Nil => "nil"@,
        Node::Kwargs(v) => join(node_strs(v@), ","@),
        Node::Const { .. } => match const_path(n) {
            Some(p) => p,
            None => unknown(),
        },
        Node::Pair { key, value } => node_str(*key) + "=>"@ + node_str(*value),
        Node::Or { lhs, rhs } => node_str(*lhs) + " or "@ + node_str(*rhs),
        Node::True => "true"@,
        Node::False => "false"@,
        Node::Index { recv, indexes } => node_str(*recv) + "["@ + join(node_strs(indexes@), ","@)
            + "]"@,
        _ => unknown(),
    }
}

/// The textual forms of a sequence of nodes.
pub open spec fn node_strs(s: Seq<Node>) -> Seq<Seq<char>>
    decreases s,
{
    if s.len() == 0 {
        Seq::empty()
    } else {
        seq![node_str(s[0])] + node_strs(s.subrange(1, s.len() as int))
    }
}

pub proof fn lemma_node_strs_push(s: Seq<Node>, n: Node)
    ensures
        node_strs(s.push(n)) == node_strs(s).push(node_str(n)),
    decreases s.len(),
{
    if s.len() == 0 {
        assert(s.push(n).subrange(1, 1) =~= Seq::<Node>::empty());
        assert(node_strs(Seq::<Node>::empty()) =~= Seq::empty());
        assert(s =~= Seq::<Node>::empty());
        assert(node_strs(s.push(n)) =~= seq![node_str(n)] + node_strs(Seq::<Node>::empty()));
        assert(node_strs(s.push(n)) =~= seq![node_str(n)]);
    } else {
        lemma_node_strs_push(s.subrange(1, s.len() as int), n);
        assert(s.push(n).subrange(1, s.len() as int + 1) =~= s.subrange(1, s.len() as int).push(n));
        assert(node_strs(s.push(n)) =~= node_strs(s).push(node_str(n)));
    }
}

/// Copies each string.
pub fn clone_strings(v: &Vec<String>) -> (r: Vec<String>)
    ensures
        views(r@) == views(v@),
{
    let mut r: Vec<String> = Vec::new();
    let mut i: usize = 0;
    while i < v.len()
        invariant
            i <= v.len(),
            views(r@) =~= views(v@).subrange(0, i as int),
        decreases v.len() - i,
    {
        let ghost before = views(r@);
        r.push(v[i].clone());
        assert(views(r@) =~= before.push(v@[i as int]@));
        i = i + 1;
    }
    r
}

/// Whether two strings hold the same characters.
pub fn str_eq(a: &str, b: &str) -> (r: bool)
    ensures
        r == (a@ == b@),
{
    a.to_owned() == b.to_owned()
}

/// Joins the strings with `sep` between each two neighbours.
pub fn join_strings(parts: &Vec<String>, sep: &str) -> (r: String)
    ensures
        r@ == join(views(parts@), sep@),
{
    let ghost pv = views(parts@);
    if parts.len() == 0 {
        return String::new();
    }
    let mut r = parts[0].clone();
    let mut i: usize = 1;
    assert(pv.subrange(0, 1).drop_last() =~= Seq::<Seq<char>>::empty());
    while i < parts.len()
        invariant
            1 <= i <= parts.len(),
            pv == views(parts@),
            r@ == join(pv.subrange(0, i as int), sep@),
        decreases parts.len() - i,
    {
        r.append(sep);
        r.append(parts[i].as_str());
        assert(pv.subrange(0, i + 1).drop_last() =~= pv.subrange(0, i as int));
        i = i + 1;
    }
    assert(pv.subrange(0, i as int) =~= pv);
    r
}

/// Concatenates two strings.
pub fn concat(a: &str, b: &str) -> (r: String)
    ensures
        r@ == a@ + b@,
{
    let mut r = a.to_owned();
    r.append(b);
    r
}

/// The `::`-separated path of a constant reference.
pub fn get_node_name(name: &Node) -> (r: Result<String, String>)
    ensures
        match const_path(*name) {
            Some(p) => r is Ok && r->Ok_0@ == p,
            None => r is Err && r->Err_0@ == "could not get name"@,
        },
    decreases name,
{
    match name {
        Node::Const { scope, name: const_name } => match scope {
            Some(s) => match get_node_name(s) {
                Ok(p) => {
                    let mut r = p;
                    r.append("::");
                    r.append(const_name.as_str());
                    Ok(r)
                },
                Err(e) => Err(e),
            },
            None => Ok(const_name.clone()),
        },
        _ => Err("could not get name".to_owned()),
    }
}

/// The textual form of a literal-like node: the name of a bare call, a
/// symbol, string, number or variable name, arrays, hashes, pairs and indexing
/// rendered element by element, and `unknown` for any other form.
pub fn parse_node_str(node: &Node) -> (r: String)
    ensures
        r@ == node_str(*node),
    decreases node,
{
    match node {
        Node::Send { recv, method_name, args } => {
            if recv.is_none() && args.len() == 0 {
                method_name.clone()
            } else {
                "unknown".to_owned()
            }
        },
        Node::Sym(s) => s.clone(),
        Node::Ivar(s) => s.clone(),
        Node::Str(s) => s.clone(),
        Node::Int(s) => s.clone(),
        Node::Lvar(s) => s.clone(),
        Node::Array(v) => {
            let inner = join_strings(&parse_node_strs(v), ",");
            let mut r = "[".to_owned();
            r.append(inner.as_str());
            r.append("]");
            r
        },
        Node::Hash(v) => {
            let inner = join_strings(&parse_node_strs(v), ",");
            let mut r = "{".to_owned();
            r.append(inner.as_str());
            r.append("}");
            r
        },
        Node::Nil => "nil".to_owned(),
        Node::Kwargs(v) => join_strings(&parse_node_strs(v), ","),
        Node::Const { .. } => match get_node_name(node) {
            Ok(p) => p,
            Err(_) => "unknown".to_owned(),
        },
        Node::Pair { key, value } => {
            let mut r = parse_node_str(key);
            r.append("=>");
            r.append(parse_node_str(value).as_str());
            r
        },
        Node::Or { lhs, rhs } => {
            let mut r = parse_node_str(lhs);
            r.append(" or ");
            r.append(parse_node_str(rhs).as_str());
            r
        },
        Node::True => "true".to_owned(),
        Node::False => "false".to_owned(),
        Node::Index { recv, indexes } => {
            let mut r = parse_node_str(recv);
            r.append("[");
            r.append(join_strings(&parse_node_strs(indexes), ",").as_str());
            r.append("]");
            r
        },
        _ => "unknown".to_owned(),
    }
}

/// The textual forms of each node, in order.
pub fn parse_node_strs(v: &Vec<Node>) -> (r: Vec<String>)
    ensures
        views(r@) == node_strs(v@),
    decreases v,
{
    let mut r: Vec<String> = Vec::new();
    let mut i: usize = 0;
    while i < v.len()
        invariant
            i <= v.len(),
            views(r@) == node_strs(v@.subrange(0, i as int)),
        decreases v.len() - i,
    {
        let s = parse_node_str(&v[i]);
        proof {
            lemma_node_strs_push(v@.subrange(0, i as int), v@[i as int]);
            assert(v@.subrange(0, i + 1) =~= v@.subrange(0, i as int).push(v@[i as int]));
        }
        r.push(s);
        assert(views(r@) =~= node_strs(v@.subrange(0, i as int)).push(node_str(v@[i as int])));
        i = i + 1;
    }
    assert(v@.subrange(0, i as int) =~= v@);
    r
}

/// The textual form of a node.
pub fn parse_name(node: &Node) -> (r: String)
    ensures
        r@ == node_str(*node),
{
    parse_node_str(node)
}

/// The textual form of an optional node; empty where there is none.
pub fn parse_optional_name(node: &Option<Box<Node>>) -> (r: String)
    ensures
        r@ == match *node {
            Some(n) => node_str(*n),
            None => Seq::empty(),
        },
{
    match node {
        Some(n) => parse_name(n),
        None => String::new(),
    }
}

/// The textual form of a class's declared ancestor; empty where it declares
/// none.
pub fn parse_superclass(node: &Option<Box<Node>>) -> (r: String)
    ensures
        r@ == match *node {
            Some(n) => node_str(*n),
            None => Seq::empty(),
        },
{
    parse_optional_name(node)
}

} // verus!
