//! Response templates: the fields that a JSON builder template renders.
use crate::syntax::{
    deref_all, group_size_lemmas, lemma_seq_size_append, lemma_seq_size_first, opt_seq, pop_front,
    opt_size, push_all, push_one, push_opt, seq_size, size, Node,
};
use crate::types::{ResponseView, ViewType};
use crate::utils::{concat, node_str, parse_node_str, str_eq, unknown, views};
use std::collections::VecDeque;
use vstd::prelude::*;

verus! {

/// Whether `s` ends with `suffix`.
pub open spec fn ends_with(s: Seq<char>, suffix: Seq<char>) -> bool {
    suffix.len() <= s.len() && s.subrange(s.len() - suffix.len(), s.len() as int) == suffix
}

/// A rendered field under `parent`, marked `?` where it is rendered only
/// under a condition.
pub open spec fn field(parent: Seq<char>, optional: bool, name: Seq<char>) -> Seq<char> {
    let mark = if optional { "?"@ } else { Seq::empty() };
    if parent.len() == 0 {
        mark + name
    } else {
        parent + "."@ + mark + name
    }
}

/// The fields named by the arguments of a builder call: each argument that
/// renders, but instance variables, names a field.
pub open spec fn arg_fields(args: Seq<Node>, optional: bool, parent: Seq<char>) -> Seq<Seq<char>>
    decreases args.len(),
{
    if args.len() == 0 {
        Seq::empty()
    } else {
        let first = if args[0] is Ivar || node_str(args[0]) == unknown() {
            Seq::empty()
        } else {
            seq![field(parent, optional, node_str(args[0]))]
        };
        first + arg_fields(args.drop_first(), optional, parent)
    }
}

/// The arguments of a builder call that do not render, to be walked.
pub open spec fn arg_rest(args: Seq<Node>) -> Seq<Node>
    decreases args.len(),
{
    if args.len() == 0 {
        Seq::empty()
    } else {
        let first = if !(args[0] is Ivar) && node_str(args[0]) == unknown() {
            seq![args[0]]
        } else {
            Seq::empty()
        };
        first + arg_rest(args.drop_first())
    }
}

/// The field named by the method of a call on the builder itself, but for
/// the bare call form.
pub open spec fn call_field(recv: Option<Box<Node>>, method_name: Seq<char>, optional: bool, parent: Seq<char>) -> Seq<Seq<char>> {
    match recv {
        Some(r) => match *r {
            Node::Send { method_name: m, .. } => if m@ == "json"@ && method_name != "call"@ {
                seq![field(parent, optional, method_name)]
            } else {
                Seq::empty()
            },
            _ => Seq::empty(),
        },
        None => Seq::empty(),
    }
}

pub proof fn lemma_arg_rest_size(args: Seq<Node>)
    ensures
        seq_size(arg_rest(args)) <= seq_size(args),
    decreases args.len(),
{
    broadcast use group_size_lemmas;

    if args.len() > 0 {
        lemma_seq_size_first(args);
        lemma_arg_rest_size(args.drop_first());
    }
}

/// Breadth-first walk of a template: the fields rendered by the queued
/// nodes, after `out`. A block whose call is not the last step of `parent`
/// is walked on its own under `parent` extended by the call's name; each
/// branch of a condition is walked on its own, the taken branch marking its
/// fields optional.
pub open spec fn template_walk(queue: Seq<Node>, optional: bool, parent: Seq<char>, out: Seq<Seq<char>>) -> Seq<
    Seq<char>,
>
    decreases seq_size(queue),
{
    if queue.len() == 0 {
        out
    } else {
        let n = queue[0];
        let rest = queue.drop_first();
        proof {
            broadcast use group_size_lemmas;

            lemma_seq_size_first(queue);
        }
        match n {
            Node::Begin(v) => {
                proof {
                    lemma_seq_size_append(rest, v@);
                }
                template_walk(rest + v@, optional, parent, out)
            },
            Node::Block { call, args, body } => {
                proof {
                    broadcast use group_size_lemmas;

                    lemma_seq_size_append(opt_seq(args), opt_seq(body));
                    lemma_seq_size_append(rest, opt_seq(args) + opt_seq(body));
                    lemma_seq_size_append(rest + seq![*call], opt_seq(args));
                    lemma_seq_size_append(rest + seq![*call] + opt_seq(args), opt_seq(body));
                }
                match *call {
                    Node::Send { method_name, .. } => if method_name@.len() > 0 && ends_with(
                        parent,
                        method_name@,
                    ) {
                        template_walk(rest + (opt_seq(args) + opt_seq(body)), optional, parent, out)
                    } else {
                        let inner = template_walk(
                            opt_seq(args) + opt_seq(body),
                            optional,
                            parent + method_name@,
                            Seq::empty(),
                        );
                        template_walk(rest, optional, parent, out + inner)
                    },
                    _ => template_walk(rest + seq![*call] + opt_seq(args) + opt_seq(body), optional, parent, out),
                }
            },
            Node::If { if_true, if_false, .. } => {
                let t = template_walk(opt_seq(if_true), true, parent, Seq::empty());
                let f = template_walk(opt_seq(if_false), false, parent, Seq::empty());
                template_walk(rest, optional, parent, out + t + f)
            },
            Node::Send { recv, method_name, args } => {
                proof {
                    broadcast use group_size_lemmas;

                    lemma_arg_rest_size(args@);
                    lemma_seq_size_append(rest, arg_rest(args@));
                }
                template_walk(
                    rest + arg_rest(args@),
                    optional,
                    parent,
                    out + arg_fields(args@, optional, parent) + call_field(recv, method_name@, optional, parent),
                )
            },
            _ => template_walk(rest, optional, parent, out),
        }
    }
}

fn make_field(parent: &String, optional: bool, name: &String) -> (r: String)
    ensures
        r@ == field(parent@, optional, name@),
{
    let mut r = if parent.as_str().is_empty() {
        String::new()
    } else {
        concat(parent.as_str(), ".")
    };
    if optional {
        r.append("?");
    }
    r.append(name.as_str());
    proof {
        if !optional {
            assert(parent@ + "."@ + Seq::<char>::empty() =~= parent@ + "."@);
            assert(Seq::<char>::empty() + name@ =~= name@);
        }
    }
    r
}

fn ends_with_str(s: &String, suffix: &String) -> (r: bool)
    ensures
        r == ends_with(s@, suffix@),
{
    let sl = s.as_str().unicode_len();
    let kl = suffix.as_str().unicode_len();
    if kl > sl {
        return false;
    }
    str_eq(s.as_str().substring_char(sl - kl, sl), suffix.as_str())
}

/// Records the fields named by a builder call's arguments and queues the
/// arguments that do not render.
fn send_fields<'a>(
    args: &'a Vec<Node>,
    optional: bool,
    parent: &String,
    out: &mut Vec<String>,
    queue: &mut VecDeque<&'a Node>,
)
    ensures
        views(final(out)@) == views(old(out)@) + arg_fields(args@, optional, parent@),
        deref_all(final(queue)@) == deref_all(old(queue)@) + arg_rest(args@),
{
    let ghost av = args@;
    let mut i: usize = 0;
    assert(av.subrange(0, av.len() as int) =~= av);
    while i < args.len()
        invariant
            i <= args.len(),
            av == args@,
            views(out@) + arg_fields(av.subrange(i as int, av.len() as int), optional, parent@)
                == views(old(out)@) + arg_fields(av, optional, parent@),
            deref_all(queue@) + arg_rest(av.subrange(i as int, av.len() as int)) == deref_all(
                old(queue)@,
            ) + arg_rest(av),
        decreases args.len() - i,
    {
        let ghost part = av.subrange(i as int, av.len() as int);
        assert(part.drop_first() =~= av.subrange(i + 1, av.len() as int));
        assert(part[0] == av[i as int]);
        let ghost out0 = views(out@);
        let ghost q0 = deref_all(queue@);
        let arg = &args[i];
        let is_ivar = match arg {
            Node::Ivar(_) => true,
            _ => false,
        };
        let text = parse_node_str(arg);
        let renders = !str_eq(text.as_str(), "unknown");
        if !is_ivar && renders {
            out.push(make_field(parent, optional, &text));
            assert(views(out@) =~= out0.push(field(parent@, optional, node_str(*arg))));
            assert(out0 + arg_fields(part, optional, parent@) =~= views(out@) + arg_fields(
                part.drop_first(),
                optional,
                parent@,
            ));
        } else {
            assert(arg_fields(part, optional, parent@) =~= arg_fields(part.drop_first(), optional, parent@));
        }
        if !is_ivar && !renders {
            queue.push_back(arg);
            assert(deref_all(queue@) =~= q0.push(*arg));
            assert(q0 + arg_rest(part) =~= deref_all(queue@) + arg_rest(part.drop_first()));
        } else {
            assert(arg_rest(part) =~= arg_rest(part.drop_first()));
        }
        i = i + 1;
    }
    assert(av.subrange(i as int, av.len() as int) =~= Seq::<Node>::empty());
    assert(views(out@) =~= views(out@) + arg_fields(Seq::<Node>::empty(), optional, parent@));
    assert(deref_all(queue@) =~= deref_all(queue@) + arg_rest(Seq::<Node>::empty()));
}

/// Walks the queued template nodes; see `template_walk`.
fn walk_template<'a>(start: VecDeque<&'a Node>, optional: bool, parent: &String) -> (r: Vec<String>)
    ensures
        views(r@) == template_walk(deref_all(start@), optional, parent@, Seq::empty()),
    decreases seq_size(deref_all(start@)),
{
    let ghost s0 = deref_all(start@);
    let mut queue = start;
    let mut out: Vec<String> = Vec::new();
    assert(views(out@) =~= Seq::<Seq<char>>::empty());
    #[verifier::loop_isolation(false)]
    while queue.len() > 0
        invariant
            template_walk(deref_all(queue@), optional, parent@, views(out@)) == template_walk(
                s0,
                optional,
                parent@,
                Seq::empty(),
            ),
            seq_size(deref_all(queue@)) <= seq_size(s0),
        decreases seq_size(deref_all(queue@)),
    {
        let ghost q = deref_all(queue@);
        let ghost out0 = views(out@);
        proof {
            broadcast use group_size_lemmas;

            lemma_seq_size_first(q);
        }
        let n = pop_front(&mut queue);
        let ghost rest = deref_all(queue@);
        match n {
            Node::Begin(v) => {
                push_all(&mut queue, v);
                proof {
                    lemma_seq_size_append(rest, v@);
                }
            },
            Node::Block { call, args, body } => {
                proof {
                    broadcast use group_size_lemmas;

                    lemma_seq_size_append(opt_seq(*args), opt_seq(*body));
                    lemma_seq_size_append(rest, opt_seq(*args) + opt_seq(*body));
                    lemma_seq_size_append(rest + seq![**call], opt_seq(*args));
                    lemma_seq_size_append(rest + seq![**call] + opt_seq(*args), opt_seq(*body));
                }
                match &**call {
                    Node::Send { method_name, .. } => {
                        if !method_name.as_str().is_empty() && ends_with_str(parent, method_name) {
                            push_opt(&mut queue, args);
                            push_opt(&mut queue, body);
                            assert(deref_all(queue@) =~= rest + (opt_seq(*args) + opt_seq(*body)));
                        } else {
                            assert(size(*n) == 1 + size(**call) + opt_size(*args) + opt_size(*body));
                            assert(seq_size(opt_seq(*args) + opt_seq(*body)) < seq_size(s0));
                            let mut inner_queue: VecDeque<&Node> = VecDeque::new();
                            assert(deref_all(inner_queue@) =~= Seq::<Node>::empty());
                            push_opt(&mut inner_queue, args);
                            push_opt(&mut inner_queue, body);
                            assert(deref_all(inner_queue@) =~= opt_seq(*args) + opt_seq(*body));
                            let inner_parent = concat(parent.as_str(), method_name.as_str());
                            let mut inner = walk_template(inner_queue, optional, &inner_parent);
                            let ghost iv = views(inner@);
                            out.append(&mut inner);
                            assert(views(out@) =~= out0 + iv);
                        }
                    },
                    _ => {
                        push_one(&mut queue, call);
                        push_opt(&mut queue, args);
                        push_opt(&mut queue, body);
                        assert(deref_all(queue@) =~= rest + seq![**call] + opt_seq(*args) + opt_seq(*body));
                    },
                }
            },
            Node::If { if_true, if_false, .. } => {
                proof {
                    broadcast use group_size_lemmas;

                    assert(size(*n) == 1 + size(*n->If_cond) + opt_size(*if_true) + opt_size(*if_false));
                    assert(seq_size(opt_seq(*if_true)) < seq_size(s0));
                    assert(seq_size(opt_seq(*if_false)) < seq_size(s0));
                }
                let mut tq: VecDeque<&Node> = VecDeque::new();
                assert(deref_all(tq@) =~= Seq::<Node>::empty());
                push_opt(&mut tq, if_true);
                assert(deref_all(tq@) =~= opt_seq(*if_true));
                let mut t = walk_template(tq, true, parent);
                let mut fq: VecDeque<&Node> = VecDeque::new();
                assert(deref_all(fq@) =~= Seq::<Node>::empty());
                push_opt(&mut fq, if_false);
                assert(deref_all(fq@) =~= opt_seq(*if_false));
                let mut f = walk_template(fq, false, parent);
                let ghost tv = views(t@);
                let ghost fv = views(f@);
                out.append(&mut t);
                out.append(&mut f);
                assert(views(out@) =~= out0 + tv + fv);
            },
            Node::Send { recv, method_name, args } => {
                proof {
                    broadcast use group_size_lemmas;

                    lemma_arg_rest_size(args@);
                    lemma_seq_size_append(rest, arg_rest(args@));
                }
                send_fields(args, optional, parent, &mut out, &mut queue);
                let ghost out1 = views(out@);
                if let Some(r) = recv {
                    if let Node::Send { method_name: m, .. } = &**r {
                        if str_eq(m.as_str(), "json") && !str_eq(method_name.as_str(), "call") {
                            out.push(make_field(parent, optional, method_name));
                            assert(views(out@) =~= out1.push(field(parent@, optional, method_name@)));
                        }
                    }
                }
                assert(views(out@) =~= out0 + arg_fields(args@, optional, parent@) + call_field(
                    *recv,
                    method_name@,
                    optional,
                    parent@,
                ));
            },
            _ => {},
        }
    }
    out
}

/// The fields that a template tree renders, in the order of the walk, each
/// prefixed by `parent` and its block names (see `template_walk`).
pub fn parse_jbuilder_nodes(node: &Node, optional: bool, parent: &str) -> (r: Vec<String>)
    ensures
        views(r@) == template_walk(seq![*node], optional, parent@, Seq::empty()),
{
    let mut queue: VecDeque<&Node> = VecDeque::new();
    queue.push_back(node);
    assert(deref_all(queue@) =~= seq![*node]);
    walk_template(queue, optional, &parent.to_owned())
}

/// The response view of a builder template for one action; fails where the
/// template holds no syntax tree.
pub fn parse_jbuilder(ast: Option<&Node>, action: String, controller: String) -> (r: Result<
    ResponseView,
    String,
>)
    ensures
        match ast {
            Some(n) => r is Ok && r->Ok_0.controller == controller && r->Ok_0.method == action
                && r->Ok_0.view_type == ViewType::Jbuilder && views(r->Ok_0.response@)
                == template_walk(seq![*n], false, Seq::empty(), Seq::empty()),
            None => r is Err && r->Err_0@ == "empty view"@,
        },
{
    match ast {
        Some(n) => Ok(
            ResponseView {
                controller,
                method: action,
                response: parse_jbuilder_nodes(n, false, String::new().as_str()),
                view_type: ViewType::Jbuilder,
            },
        ),
        None => Err("empty view".to_owned()),
    }
}

} // verus!
