//! Classification of a parsed source unit into controllers, concerns and
//! helper modules.
use crate::params::{
    call_views, count_views, create_method_details, method_views, no_facts, pair_views, profile,
    MethodDetails, MethodView,
};
use crate::syntax::{
    group_size_lemmas, lemma_seq_size_first, opt_size, seq_size, size, Node,
};
use crate::types::{ActionKinds, Concern, Controller, HelperModule};
use crate::utils::{clone_strings, concat, node_str, parse_node_str, parse_name, parse_superclass, str_eq, unknown, views};
use std::collections::VecDeque;
use vstd::prelude::*;

verus! {

/// One declaration found in a source unit.
pub enum Declaration {
    Controller(Controller),
    Module(HelperModule),
    Concern(Concern),
}

/// Why a source unit could not be classified.
#[derive(Debug)]
pub enum ClassifyError {
    /// A class declares no ancestor; carries the class name.
    NoAncestor(String),
    /// A call that has no meaning where it stands; carries its name.
    UnexpectedCall(String),
    /// A statement of a kind that has no meaning where it stands.
    UnexpectedStatement,
    /// `extend` of something other than the concern marker; carries its
    /// rendered target.
    UnsupportedExtend(String),
    /// A top-level form that is neither a module, a class, a method nor a
    /// sequence of them.
    UnknownSyntax,
}

/// The abstract form of a classification error.
pub enum ErrorView {
    NoAncestor(Seq<char>),
    UnexpectedCall(Seq<char>),
    UnexpectedStatement,
    UnsupportedExtend(Seq<char>),
    UnknownSyntax,
}

impl View for ClassifyError {
    type V = ErrorView;

    open spec fn view(&self) -> ErrorView {
        match self {
            ClassifyError::NoAncestor(s) => ErrorView::NoAncestor(s@),
            ClassifyError::UnexpectedCall(s) => ErrorView::UnexpectedCall(s@),
            ClassifyError::UnexpectedStatement => ErrorView::UnexpectedStatement,
            ClassifyError::UnsupportedExtend(s) => ErrorView::UnsupportedExtend(s@),
            ClassifyError::UnknownSyntax => ErrorView::UnknownSyntax,
        }
    }
}

pub enum DeclKind {
    Controller,
    Helper,
    Concern,
}

/// The abstract form of a declaration; fields that a kind lacks are empty.
pub struct DeclView {
    pub kind: DeclKind,
    pub name: Seq<char>,
    pub parent: Seq<char>,
    pub methods: Seq<MethodView>,
    pub actions: Seq<(ActionKinds, Seq<char>)>,
    pub includes: Seq<Seq<char>>,
    pub module: Option<Seq<char>>,
}

pub open spec fn action_views(s: Seq<(ActionKinds, String)>) -> Seq<(ActionKinds, Seq<char>)> {
    s.map_values(|p: (ActionKinds, String)| (p.0, p.1@))
}

impl View for Declaration {
    type V = DeclView;

    open spec fn view(&self) -> DeclView {
        match self {
            Declaration::Controller(c) => DeclView {
                kind: DeclKind::Controller,
                name: c.name@,
                parent: c.parent@,
                methods: method_views(c.methods@),
                actions: action_views(c.actions@),
                includes: views(c.includes@),
                module: match c.module {
                    Some(m) => Some(m@),
                    None => None,
                },
            },
            Declaration::Module(h) => helper_view(h.name@, method_views(h.methods@)),
            Declaration::Concern(c) => concern_view(
                c.name@,
                method_views(c.methods@),
                action_views(c.actions@),
            ),
        }
    }
}

pub open spec fn decl_views(s: Seq<Declaration>) -> Seq<DeclView> {
    s.map_values(|d: Declaration| d@)
}

pub open spec fn helper_view(name: Seq<char>, methods: Seq<MethodView>) -> DeclView {
    DeclView {
        kind: DeclKind::Helper,
        name,
        parent: Seq::empty(),
        methods,
        actions: Seq::empty(),
        includes: Seq::empty(),
        module: None,
    }
}

pub open spec fn concern_view(
    name: Seq<char>,
    methods: Seq<MethodView>,
    actions: Seq<(ActionKinds, Seq<char>)>,
) -> DeclView {
    DeclView {
        kind: DeclKind::Concern,
        name,
        parent: Seq::empty(),
        methods,
        actions,
        includes: Seq::empty(),
        module: None,
    }
}

// ---------------------------------------------------------------------------
// Names with a meaning to the classification.

/// The name of Ruby's module-mixin call.
pub open spec fn mixin_call() -> Seq<char> {
    "inc"@ + "lude"@
}

/// The ancestor of error classes, which serve no requests.
pub open spec fn error_base() -> Seq<char> {
    "StandardError"@
}

/// The marker that a module is a concern.
pub open spec fn concern_marker() -> Seq<char> {
    "ActiveSupport::Concern"@
}

/// A framework mixin that contributes nothing to resolution.
pub open spec fn framework_mixin() -> Seq<char> {
    "ActionController::MimeResponds"@
}

/// The hook kind that a call registers, if it is a hook call.
pub open spec fn hook_kind(name: Seq<char>) -> Option<ActionKinds> {
    if name == "before_action"@ {
        Some(ActionKinds::BeforeAction)
    } else if name == "around_action"@ {
        Some(ActionKinds::AroundAction)
    } else if name == "rescue_from"@ {
        Some(ActionKinds::RescueFrom)
    } else {
        None
    }
}

/// Calls in a class body that have no effect on the model.
pub open spec fn ignored_in_class(name: Seq<char>) -> bool {
    name == "require"@ || name == "private"@ || name == "protected"@ || name
        == "skip_before_action"@ || name == "skip_auth_methods"@
}

/// Calls at the top level of a unit that have no effect on the model.
pub open spec fn ignored_at_top(name: Seq<char>) -> bool {
    name == "require"@ || name == "private"@ || name == "private_class_method"@
}

/// A hook of `kind` for each symbol argument.
pub open spec fn hook_targets(kind: ActionKinds, args: Seq<Node>) -> Seq<(ActionKinds, Seq<char>)>
    decreases args.len(),
{
    if args.len() == 0 {
        Seq::empty()
    } else {
        let first = match args[0] {
            Node::Sym(s) => seq![(kind, s@)],
            _ => Seq::empty(),
        };
        first + hook_targets(kind, args.drop_first())
    }
}

/// The mixin names of the arguments of a mixin call, leaving out forms that
/// do not render and the framework mixin.
pub open spec fn mixin_names(args: Seq<Node>) -> Seq<Seq<char>>
    decreases args.len(),
{
    if args.len() == 0 {
        Seq::empty()
    } else {
        let s = node_str(args[0]);
        let first = if s == unknown() || s == framework_mixin() {
            Seq::empty()
        } else {
            seq![s]
        };
        first + mixin_names(args.drop_first())
    }
}

/// The statements of an optional body: those of a sequence, else the one.
pub open spec fn statements(body: Option<Box<Node>>) -> Seq<Node> {
    match body {
        Some(b) => match *b {
            Node::Begin(v) => v@,
            other => seq![other],
        },
        None => Seq::empty(),
    }
}

/// The hooks that one statement of an `included` callback registers.
pub open spec fn stmt_hooks(stmt: Node) -> Seq<(ActionKinds, Seq<char>)> {
    match stmt {
        Node::Send { method_name, args, .. } => match hook_kind(method_name@) {
            Some(k) => hook_targets(k, args@),
            None => Seq::empty(),
        },
        _ => Seq::empty(),
    }
}

/// The hooks registered by the statements of an `included` callback.
pub open spec fn callback_hooks(stmts: Seq<Node>) -> Seq<(ActionKinds, Seq<char>)>
    decreases stmts.len(),
{
    if stmts.len() == 0 {
        Seq::empty()
    } else {
        stmt_hooks(stmts[0]) + callback_hooks(stmts.drop_first())
    }
}

// ---------------------------------------------------------------------------
// Class bodies.

/// What the statements of a class body have shown so far.
pub struct ClassAcc {
    pub methods: Seq<MethodView>,
    pub actions: Seq<(ActionKinds, Seq<char>)>,
    pub includes: Seq<Seq<char>>,
}

/// One statement of a class body.
pub open spec fn class_step(stmt: Node, acc: ClassAcc) -> Result<ClassAcc, ErrorView> {
    match stmt {
        Node::Send { method_name, args, .. } => match hook_kind(method_name@) {
            Some(k) => Ok(ClassAcc { actions: acc.actions + hook_targets(k, args@), ..acc }),
            None => if method_name@ == mixin_call() {
                Ok(ClassAcc { includes: acc.includes + mixin_names(args@), ..acc })
            } else if ignored_in_class(method_name@) {
                Ok(acc)
            } else {
                Err(ErrorView::UnexpectedCall(method_name@))
            },
        },
        Node::Def { name, args, body } => Ok(
            ClassAcc { methods: acc.methods.push(profile(body, name@, views(args@))), ..acc },
        ),
        Node::Defs { name, args, body, .. } => Ok(
            ClassAcc { methods: acc.methods.push(profile(body, name@, views(args@))), ..acc },
        ),
        Node::Casgn { .. } => Ok(acc),
        _ => Err(ErrorView::UnexpectedStatement),
    }
}

/// The statements of a class body, in order, stopping at the first error.
pub open spec fn class_scan(stmts: Seq<Node>, acc: ClassAcc) -> Result<ClassAcc, ErrorView>
    decreases stmts.len(),
{
    if stmts.len() == 0 {
        Ok(acc)
    } else {
        match class_step(stmts[0], acc) {
            Ok(a) => class_scan(stmts.drop_first(), a),
            Err(e) => Err(e),
        }
    }
}

/// The declaration of a class node inside the module path `prefix`: none for
/// an error class, a failure for a class without an ancestor or with a body
/// statement that has no meaning there.
pub open spec fn class_decl(n: Node, prefix: Seq<char>) -> Result<Option<DeclView>, ErrorView> {
    match n {
        Node::Class { name, superclass, body } => {
            let cname = node_str(*name);
            let parent = match superclass {
                Some(b) => node_str(*b),
                None => Seq::empty(),
            };
            if parent.len() == 0 {
                Err(ErrorView::NoAncestor(cname))
            } else if parent == error_base() {
                Ok(None)
            } else {
                match class_scan(
                    statements(body),
                    ClassAcc { methods: Seq::empty(), actions: Seq::empty(), includes: Seq::empty() },
                ) {
                    Ok(acc) => Ok(
                        Some(
                            DeclView {
                                kind: DeclKind::Controller,
                                name: cname,
                                parent,
                                methods: acc.methods,
                                actions: acc.actions,
                                includes: acc.includes,
                                module: if prefix.len() == 0 {
                                    None
                                } else {
                                    Some(prefix)
                                },
                            },
                        ),
                    ),
                    Err(e) => Err(e),
                }
            }
        },
        _ => Err(ErrorView::UnknownSyntax),
    }
}

/// The exact hook kind of a call name.
fn hook_kind_of(name: &String) -> (r: Option<ActionKinds>)
    ensures
        r == hook_kind(name@),
{
    if str_eq(name.as_str(), "before_action") {
        Some(ActionKinds::BeforeAction)
    } else if str_eq(name.as_str(), "around_action") {
        Some(ActionKinds::AroundAction)
    } else if str_eq(name.as_str(), "rescue_from") {
        Some(ActionKinds::RescueFrom)
    } else {
        None
    }
}

fn copy_kind(k: &ActionKinds) -> (r: ActionKinds)
    requires
        !(k is Custom),
    ensures
        r == *k,
{
    match k {
        ActionKinds::BeforeAction => ActionKinds::BeforeAction,
        ActionKinds::AroundAction => ActionKinds::AroundAction,
        _ => ActionKinds::RescueFrom,
    }
}

/// Appends a hook of `kind` for each symbol argument.
fn push_hooks(actions: &mut Vec<(ActionKinds, String)>, kind: &ActionKinds, args: &Vec<Node>)
    requires
        !(kind is Custom),
    ensures
        action_views(final(actions)@) == action_views(old(actions)@) + hook_targets(*kind, args@),
{
    let ghost av = args@;
    let mut i: usize = 0;
    assert(av.subrange(0, av.len() as int) =~= av);
    while i < args.len()
        invariant
            i <= args.len(),
            av == args@,
            !(kind is Custom),
            action_views(actions@) + hook_targets(*kind, av.subrange(i as int, av.len() as int))
                == action_views(old(actions)@) + hook_targets(*kind, av),
        decreases args.len() - i,
    {
        let ghost before = action_views(actions@);
        let ghost rest = av.subrange(i as int, av.len() as int);
        assert(rest.drop_first() =~= av.subrange(i + 1, av.len() as int));
        if let Node::Sym(s) = &args[i] {
            actions.push((copy_kind(kind), s.clone()));
            assert(action_views(actions@) =~= before.push((*kind, s@)));
            assert(before + hook_targets(*kind, rest) =~= action_views(actions@) + hook_targets(
                *kind,
                rest.drop_first(),
            ));
        } else {
            assert(hook_targets(*kind, rest) =~= hook_targets(*kind, rest.drop_first()));
        }
        i = i + 1;
    }
    assert(av.subrange(i as int, av.len() as int) =~= Seq::<Node>::empty());
    assert(action_views(actions@) =~= action_views(actions@) + hook_targets(*kind, Seq::<Node>::empty()));
}

/// Appends the mixin names of the arguments of a mixin call.
fn push_mixins(names: &mut Vec<String>, args: &Vec<Node>)
    ensures
        views(final(names)@) == views(old(names)@) + mixin_names(args@),
{
    let ghost av = args@;
    let mut i: usize = 0;
    assert(av.subrange(0, av.len() as int) =~= av);
    while i < args.len()
        invariant
            i <= args.len(),
            av == args@,
            views(names@) + mixin_names(av.subrange(i as int, av.len() as int)) == views(old(names)@)
                + mixin_names(av),
        decreases args.len() - i,
    {
        let ghost before = views(names@);
        let ghost rest = av.subrange(i as int, av.len() as int);
        assert(rest.drop_first() =~= av.subrange(i + 1, av.len() as int));
        let s = parse_node_str(&args[i]);
        if !str_eq(s.as_str(), "unknown") && !str_eq(s.as_str(), "ActionController::MimeResponds") {
            names.push(s);
            assert(views(names@) =~= before.push(node_str(av[i as int])));
            assert(before + mixin_names(rest) =~= views(names@) + mixin_names(rest.drop_first()));
        } else {
            assert(mixin_names(rest) =~= mixin_names(rest.drop_first()));
        }
        i = i + 1;
    }
    assert(av.subrange(i as int, av.len() as int) =~= Seq::<Node>::empty());
    assert(views(names@) =~= views(names@) + mixin_names(Seq::<Node>::empty()));
}

/// Profiles a method definition and appends the profile; a definition
/// without a body gets a profile without facts.
pub fn get_method_details_from_optional(
    body: &Option<Box<Node>>,
    name: &String,
    args: &Vec<String>,
    methods: &mut Vec<MethodDetails>,
)
    ensures
        method_views(final(methods)@) == method_views(old(methods)@).push(
            profile(*body, name@, views(args@)),
        ),
{
    let ghost before = method_views(methods@);
    let d = match body {
        Some(b) => create_method_details(b, name.clone(), clone_strings(args)),
        None => {
            let d = MethodDetails {
                name: name.clone(),
                args: clone_strings(args),
                params: Vec::new(),
                headers: Vec::new(),
                instance_variables: Vec::new(),
                local_variables: Vec::new(),
                method_calls: Vec::new(),
                renders: Vec::new(),
            };
            assert(d.facts() == no_facts()) by {
                assert(views(d.params@) =~= Seq::<Seq<char>>::empty());
                assert(pair_views(d.headers@) =~= Seq::<(Seq<char>, Seq<char>)>::empty());
                assert(views(d.instance_variables@) =~= Seq::<Seq<char>>::empty());
                assert(count_views(d.local_variables@) =~= Seq::<(Seq<char>, usize)>::empty());
                assert(call_views(d.method_calls@) =~= Seq::<(Seq<char>, Seq<Seq<char>>)>::empty());
            }
            d
        },
    };
    assert(views(d.renders@) =~= Seq::<Seq<char>>::empty());
    assert(d@ == profile(*body, name@, views(args@)));
    methods.push(d);
    assert(method_views(methods@) =~= before.push(profile(*body, name@, views(args@))));
}

struct ClassState {
    methods: Vec<MethodDetails>,
    actions: Vec<(ActionKinds, String)>,
    includes: Vec<String>,
}

impl View for ClassState {
    type V = ClassAcc;

    closed spec fn view(&self) -> ClassAcc {
        ClassAcc {
            methods: method_views(self.methods@),
            actions: action_views(self.actions@),
            includes: views(self.includes@),
        }
    }
}

fn class_step_exec(stmt: &Node, acc: &mut ClassState) -> (r: Result<(), ClassifyError>)
    ensures
        match class_step(*stmt, old(acc)@) {
            Ok(a) => r is Ok && final(acc)@ == a,
            Err(e) => r is Err && r->Err_0@ == e,
        },
{
    match stmt {
        Node::Send { method_name, args, .. } => match hook_kind_of(method_name) {
            Some(k) => {
                push_hooks(&mut acc.actions, &k, args);
                Ok(())
            },
            None => {
                let mixin = concat("inc", "lude");
                if str_eq(method_name.as_str(), mixin.as_str()) {
                    push_mixins(&mut acc.includes, args);
                    Ok(())
                } else if str_eq(method_name.as_str(), "require") || str_eq(method_name.as_str(), "private")
                    || str_eq(method_name.as_str(), "protected") || str_eq(
                    method_name.as_str(),
                    "skip_before_action",
                ) || str_eq(method_name.as_str(), "skip_auth_methods") {
                    Ok(())
                } else {
                    Err(ClassifyError::UnexpectedCall(method_name.clone()))
                }
            },
        },
        Node::Def { name, args, body } => {
            get_method_details_from_optional(body, name, args, &mut acc.methods);
            Ok(())
        },
        Node::Defs { name, args, body, .. } => {
            get_method_details_from_optional(body, name, args, &mut acc.methods);
            Ok(())
        },
        Node::Casgn { .. } => Ok(()),
        _ => Err(ClassifyError::UnexpectedStatement),
    }
}

/// Classifies a class node found inside the module path `module`: a
/// controller with its methods, hooks and mixins; nothing for an error class;
/// a failure for a class without an ancestor or with a body statement that
/// has no meaning there.
pub fn parse_class(class: &Node, module: &String) -> (r: Result<Option<Declaration>, ClassifyError>)
    ensures
        match class_decl(*class, module@) {
            Ok(Some(d)) => r is Ok && r->Ok_0 is Some && r->Ok_0->0@ == d,
            Ok(None) => r is Ok && r->Ok_0 is None,
            Err(e) => r is Err && r->Err_0@ == e,
        },
{
    match class {
        Node::Class { name, superclass, body } => {
            let cname = parse_name(name);
            let parent = parse_superclass(superclass);
            if parent.as_str().is_empty() {
                return Err(ClassifyError::NoAncestor(cname));
            }
            if str_eq(parent.as_str(), "StandardError") {
                return Ok(None);
            }
            let mut acc = ClassState { methods: Vec::new(), actions: Vec::new(), includes: Vec::new() };
            let ghost init = acc@;
            assert(init =~= ClassAcc { methods: Seq::empty(), actions: Seq::empty(), includes: Seq::empty() }) by {
                assert(method_views(acc.methods@) =~= Seq::<MethodView>::empty());
                assert(action_views(acc.actions@) =~= Seq::<(ActionKinds, Seq<char>)>::empty());
                assert(views(acc.includes@) =~= Seq::<Seq<char>>::empty());
            }
            let ghost stmts = statements(*body);
            match body {
                Some(b) => match &**b {
                    Node::Begin(v) => {
                        let mut i: usize = 0;
                        assert(v@.subrange(0, v@.len() as int) =~= v@);
                        #[verifier::loop_isolation(false)]
                        while i < v.len()
                            invariant
                                i <= v.len(),
                                stmts == v@,
                                class_scan(v@.subrange(i as int, v@.len() as int), acc@) == class_scan(stmts, init),
                            decreases v.len() - i,
                        {
                            let ghost rest = v@.subrange(i as int, v@.len() as int);
                            assert(rest.drop_first() =~= v@.subrange(i + 1, v@.len() as int));
                            assert(rest[0] == v@[i as int]);
                            let ghost before = acc@;
                            let step = class_step_exec(&v[i], &mut acc);
                            if let Err(e) = step {
                                assert(class_scan(rest, before) == Err::<ClassAcc, ErrorView>(e@));
                                return Err(e);
                            }
                            i = i + 1;
                        }
                        assert(v@.subrange(i as int, v@.len() as int) =~= Seq::<Node>::empty());
                        assert(class_scan(stmts, init) == Ok::<ClassAcc, ErrorView>(acc@));
                    },
                    other => {
                        assert(stmts == seq![*other]);
                        assert(stmts.drop_first() =~= Seq::<Node>::empty());
                        let step = class_step_exec(other, &mut acc);
                        if let Err(e) = step {
                            return Err(e);
                        }
                        assert(class_scan(Seq::<Node>::empty(), acc@) == Ok::<ClassAcc, ErrorView>(acc@));
                        assert(class_scan(stmts, init) == Ok::<ClassAcc, ErrorView>(acc@));
                    },
                },
                None => {
                    assert(class_scan(stmts, init) == Ok::<ClassAcc, ErrorView>(acc@));
                },
            }
            let module_name = if module.as_str().is_empty() {
                None
            } else {
                Some(module.clone())
            };
            Ok(
                Some(
                    Declaration::Controller(
                        Controller {
                            name: cname,
                            parent,
                            methods: acc.methods,
                            actions: acc.actions,
                            includes: acc.includes,
                            module: module_name,
                        },
                    ),
                ),
            )
        },
        _ => Err(ClassifyError::UnknownSyntax),
    }
}

// ---------------------------------------------------------------------------
// Source units.

/// What the statements of a top-level sequence have shown so far: module
/// bodies still to classify with their module paths, declarations of
/// classes, method profiles, hooks of an `included` callback, and whether
/// the concern marker was seen.
pub struct UnitAcc {
    pub modules: Seq<(Node, Seq<char>)>,
    pub decls: Seq<DeclView>,
    pub methods: Seq<MethodView>,
    pub actions: Seq<(ActionKinds, Seq<char>)>,
    pub concern: bool,
}

pub open spec fn empty_unit() -> UnitAcc {
    UnitAcc {
        modules: Seq::empty(),
        decls: Seq::empty(),
        methods: Seq::empty(),
        actions: Seq::empty(),
        concern: false,
    }
}

/// The body of a module, if any, with its module path.
pub open spec fn module_item(body: Option<Box<Node>>, path: Seq<char>) -> Seq<(Node, Seq<char>)> {
    match body {
        Some(b) => seq![(*b, path)],
        None => Seq::empty(),
    }
}

/// Whether a node is the constant that marks a concern.
pub open spec fn is_concern_marker(n: Node) -> bool {
    n is Const && node_str(n) == concern_marker()
}

/// One statement of a top-level sequence inside the module path `prefix`.
pub open spec fn unit_step(stmt: Node, prefix: Seq<char>, acc: UnitAcc) -> Result<UnitAcc, ErrorView> {
    match stmt {
        Node::Module { name, body } => Ok(
            UnitAcc { modules: acc.modules + module_item(body, prefix + node_str(*name)), ..acc },
        ),
        Node::Class { .. } => match class_decl(stmt, prefix) {
            Ok(Some(d)) => Ok(UnitAcc { decls: acc.decls.push(d), ..acc }),
            Ok(None) => Ok(acc),
            Err(e) => Err(e),
        },
        Node::Send { method_name, args, .. } => if ignored_at_top(method_name@) {
            Ok(acc)
        } else if method_name@ == "extend"@ {
            if args@.len() == 0 {
                Ok(acc)
            } else if is_concern_marker(args@[0]) {
                Ok(UnitAcc { concern: true, ..acc })
            } else {
                Err(ErrorView::UnsupportedExtend(node_str(args@[0])))
            }
        } else {
            Err(ErrorView::UnexpectedCall(method_name@))
        },
        Node::Block { call, body, .. } => match *call {
            Node::Send { recv: None, method_name, .. } => if method_name@ == "included"@ {
                Ok(UnitAcc { actions: acc.actions + callback_hooks(statements(body)), ..acc })
            } else {
                Err(ErrorView::UnexpectedStatement)
            },
            _ => Err(ErrorView::UnexpectedStatement),
        },
        Node::Casgn { .. } => Ok(acc),
        Node::Def { name, args, body } => Ok(
            UnitAcc { methods: acc.methods.push(profile(body, name@, views(args@))), ..acc },
        ),
        Node::Defs { name, args, body, .. } => Ok(
            UnitAcc { methods: acc.methods.push(profile(body, name@, views(args@))), ..acc },
        ),
        _ => Err(ErrorView::UnexpectedStatement),
    }
}

/// The statements of a top-level sequence, in order, stopping at the first
/// error.
pub open spec fn unit_scan(stmts: Seq<Node>, prefix: Seq<char>, acc: UnitAcc) -> Result<UnitAcc, ErrorView>
    decreases stmts.len(),
{
    if stmts.len() == 0 {
        Ok(acc)
    } else {
        match unit_step(stmts[0], prefix, acc) {
            Ok(a) => unit_scan(stmts.drop_first(), prefix, a),
            Err(e) => Err(e),
        }
    }
}

/// The declarations of a scanned sequence: its classes, then a concern if
/// the marker was seen, else a helper module if it defines methods.
pub open spec fn unit_decls(acc: UnitAcc, prefix: Seq<char>) -> Seq<DeclView> {
    if acc.concern {
        acc.decls.push(concern_view(prefix, acc.methods, acc.actions))
    } else if acc.methods.len() > 0 {
        acc.decls.push(helper_view(prefix, acc.methods))
    } else {
        acc.decls
    }
}

pub open spec fn item_nodes(q: Seq<(Node, Seq<char>)>) -> Seq<Node> {
    q.map_values(|p: (Node, Seq<char>)| p.0)
}

pub proof fn lemma_item_nodes_append(a: Seq<(Node, Seq<char>)>, b: Seq<(Node, Seq<char>)>)
    ensures
        item_nodes(a + b) == item_nodes(a) + item_nodes(b),
{
    assert(item_nodes(a + b) =~= item_nodes(a) + item_nodes(b));
}

/// The module bodies queued by a scan hold no more nodes than its
/// statements.
pub proof fn lemma_unit_scan_size(stmts: Seq<Node>, prefix: Seq<char>, acc: UnitAcc)
    ensures
        unit_scan(stmts, prefix, acc) is Ok ==> seq_size(item_nodes(unit_scan(stmts, prefix, acc)->Ok_0.modules))
            <= seq_size(item_nodes(acc.modules)) + seq_size(stmts),
    decreases stmts.len(),
{
    broadcast use group_size_lemmas;

    if stmts.len() > 0 {
        lemma_seq_size_first(stmts);
        if let Ok(a) = unit_step(stmts[0], prefix, acc) {
            lemma_unit_scan_size(stmts.drop_first(), prefix, a);
            if let Node::Module { name, body } = stmts[0] {
                let item = module_item(body, prefix + node_str(*name));
                lemma_item_nodes_append(acc.modules, item);
                assert(size(stmts[0]) == 1 + size(*name) + opt_size(body));
                if let Some(b) = body {
                    assert(item_nodes(item) =~= seq![*b]);
                    assert(seq_size(item_nodes(item)) == size(*b));
                }
                else {
                    assert(item_nodes(item) =~= Seq::<Node>::empty());
                }
            }
        }
    }
}

/// Breadth-first classification of queued units, each with its module path.
pub open spec fn unit_walk(queue: Seq<(Node, Seq<char>)>, out: Seq<DeclView>) -> Result<Seq<DeclView>, ErrorView>
    decreases seq_size(item_nodes(queue)),
{
    if queue.len() == 0 {
        Ok(out)
    } else {
        let (n, prefix) = queue[0];
        let rest = queue.drop_first();
        proof {
            broadcast use group_size_lemmas;

            assert(item_nodes(queue).drop_first() =~= item_nodes(rest));
            lemma_seq_size_first(item_nodes(queue));
        }
        match n {
            Node::Module { name, body } => {
                proof {
                    broadcast use group_size_lemmas;

                    let item = module_item(body, prefix + node_str(*name));
                    lemma_item_nodes_append(rest, item);
                    assert(item_nodes(queue)[0] == n);
                    assert(size(n) == 1 + size(*name) + opt_size(body));
                    if let Some(b) = body {
                        assert(item_nodes(item) =~= seq![*b]);
                        assert(seq_size(item_nodes(item)) == size(*b));
                    }
                    else {
                        assert(item_nodes(item) =~= Seq::<Node>::empty());
                    }
                }
                unit_walk(rest + module_item(body, prefix + node_str(*name)), out)
            },
            Node::Def { name, args, body } => unit_walk(
                rest,
                out.push(helper_view(prefix, seq![profile(body, name@, views(args@))])),
            ),
            Node::Defs { name, args, body, .. } => unit_walk(
                rest,
                out.push(helper_view(prefix, seq![profile(body, name@, views(args@))])),
            ),
            Node::Class { .. } => match class_decl(n, prefix) {
                Ok(Some(d)) => unit_walk(rest, out.push(d)),
                Ok(None) => unit_walk(rest, out),
                Err(e) => Err(e),
            },
            Node::Begin(stmts) => match unit_scan(stmts@, prefix, empty_unit()) {
                Ok(acc) => {
                    proof {
                        lemma_unit_scan_size(stmts@, prefix, empty_unit());
                        lemma_item_nodes_append(rest, acc.modules);
                        assert(item_nodes(empty_unit().modules) =~= Seq::<Node>::empty());
                    }
                    unit_walk(rest + acc.modules, out + unit_decls(acc, prefix))
                },
                Err(e) => Err(e),
            },
            _ => Err(ErrorView::UnknownSyntax),
        }
    }
}

/// The declarations of a source unit, or why it cannot be classified.
pub open spec fn classify(root: Node) -> Result<Seq<DeclView>, ErrorView> {
    unit_walk(seq![(root, Seq::empty())], Seq::empty())
}

pub open spec fn items(q: Seq<(&Node, String)>) -> Seq<(Node, Seq<char>)> {
    q.map_values(|p: (&Node, String)| (*p.0, p.1@))
}

struct UnitState<'a> {
    modules: Vec<(&'a Node, String)>,
    decls: Vec<Declaration>,
    methods: Vec<MethodDetails>,
    actions: Vec<(ActionKinds, String)>,
    concern: bool,
}

impl<'a> View for UnitState<'a> {
    type V = UnitAcc;

    closed spec fn view(&self) -> UnitAcc {
        UnitAcc {
            modules: items(self.modules@),
            decls: decl_views(self.decls@),
            methods: method_views(self.methods@),
            actions: action_views(self.actions@),
            concern: self.concern,
        }
    }
}

/// Appends the hooks registered by the statements of an `included` callback.
fn push_callback_hooks(actions: &mut Vec<(ActionKinds, String)>, body: &Option<Box<Node>>)
    ensures
        action_views(final(actions)@) == action_views(old(actions)@) + callback_hooks(statements(*body)),
{
    match body {
        Some(b) => match &**b {
            Node::Begin(v) => {
                let ghost sv = v@;
                let mut i: usize = 0;
                assert(sv.subrange(0, sv.len() as int) =~= sv);
                while i < v.len()
                    invariant
                        i <= v.len(),
                        sv == v@,
                        sv == statements(*body),
                        action_views(actions@) + callback_hooks(sv.subrange(i as int, sv.len() as int))
                            == action_views(old(actions)@) + callback_hooks(sv),
                    decreases v.len() - i,
                {
                    let ghost before = action_views(actions@);
                    let ghost rest = sv.subrange(i as int, sv.len() as int);
                    assert(rest.drop_first() =~= sv.subrange(i + 1, sv.len() as int));
                    assert(rest[0] == sv[i as int]);
                    push_statement_hooks(actions, &v[i]);
                    assert(before + callback_hooks(rest) =~= action_views(actions@) + callback_hooks(
                        rest.drop_first(),
                    ));
                    i = i + 1;
                }
                assert(sv.subrange(i as int, sv.len() as int) =~= Seq::<Node>::empty());
                assert(action_views(actions@) =~= action_views(actions@) + callback_hooks(Seq::<Node>::empty()));
            },
            other => {
                let ghost before = action_views(actions@);
                assert(statements(*body) == seq![*other]);
                assert(seq![*other].drop_first() =~= Seq::<Node>::empty());
                push_statement_hooks(actions, other);
                assert(seq![*other][0] == *other);
                assert(callback_hooks(seq![*other]) =~= stmt_hooks(*other) + callback_hooks(Seq::<Node>::empty()));
                assert(action_views(actions@) =~= before + callback_hooks(seq![*other]));
            },
        },
        None => {
            assert(action_views(actions@) =~= action_views(old(actions)@) + callback_hooks(Seq::<Node>::empty()));
        },
    }
}

/// Appends the hooks that one statement of a callback registers.
fn push_statement_hooks(actions: &mut Vec<(ActionKinds, String)>, stmt: &Node)
    ensures
        action_views(final(actions)@) == action_views(old(actions)@) + stmt_hooks(*stmt),
{
    let ghost first = stmt_hooks(*stmt);
    if let Node::Send { method_name, args, .. } = stmt {
        if let Some(k) = hook_kind_of(method_name) {
            push_hooks(actions, &k, args);
            return;
        }
    }
    assert(action_views(actions@) =~= action_views(old(actions)@) + first);
}

fn unit_step_exec<'a>(stmt: &'a Node, prefix: &String, acc: &mut UnitState<'a>) -> (r: Result<
    (),
    ClassifyError,
>)
    ensures
        match unit_step(*stmt, prefix@, old(acc)@) {
            Ok(a) => r is Ok && final(acc)@ == a,
            Err(e) => r is Err && r->Err_0@ == e,
        },
{
    let ghost before = acc@;
    match stmt {
        Node::Module { name, body } => {
            let path = concat(prefix.as_str(), parse_node_str(name).as_str());
            if let Some(b) = body {
                acc.modules.push((&**b, path));
            }
            assert(acc@.modules =~= before.modules + module_item(*body, prefix@ + node_str(**name)));
            Ok(())
        },
        Node::Class { .. } => match parse_class(stmt, prefix) {
            Ok(Some(d)) => {
                acc.decls.push(d);
                assert(acc@.decls =~= before.decls.push(d@));
                Ok(())
            },
            Ok(None) => Ok(()),
            Err(e) => Err(e),
        },
        Node::Send { method_name, args, .. } => {
            if str_eq(method_name.as_str(), "require") || str_eq(method_name.as_str(), "private")
                || str_eq(method_name.as_str(), "private_class_method") {
                Ok(())
            } else if str_eq(method_name.as_str(), "extend") {
                if args.len() == 0 {
                    Ok(())
                } else {
                    let target = parse_node_str(&args[0]);
                    let is_const = match &args[0] {
                        Node::Const { .. } => true,
                        _ => false,
                    };
                    if is_const && str_eq(target.as_str(), "ActiveSupport::Concern") {
                        acc.concern = true;
                        Ok(())
                    } else {
                        Err(ClassifyError::UnsupportedExtend(target))
                    }
                }
            } else {
                Err(ClassifyError::UnexpectedCall(method_name.clone()))
            }
        },
        Node::Block { call, body, .. } => match &**call {
            Node::Send { recv: None, method_name, .. } => {
                if str_eq(method_name.as_str(), "included") {
                    push_callback_hooks(&mut acc.actions, body);
                    Ok(())
                } else {
                    Err(ClassifyError::UnexpectedStatement)
                }
            },
            _ => Err(ClassifyError::UnexpectedStatement),
        },
        Node::Casgn { .. } => Ok(()),
        Node::Def { name, args, body } => {
            get_method_details_from_optional(body, name, args, &mut acc.methods);
            Ok(())
        },
        Node::Defs { name, args, body, .. } => {
            get_method_details_from_optional(body, name, args, &mut acc.methods);
            Ok(())
        },
        _ => Err(ClassifyError::UnexpectedStatement),
    }
}

/// Classifies a parsed source unit into declarations: breadth first from
/// the root, with module bodies queued under their module path (the module
/// names concatenated, outermost first). A top-level method makes a helper
/// module; a class a controller (see `parse_class`); a sequence of
/// statements its classes, then a concern where it extends the concern
/// marker, else a helper module where it defines methods. Any other form, or
/// a statement with no meaning where it stands, fails the whole unit.
pub fn parse_file(node: &Node) -> (r: Result<Vec<Declaration>, ClassifyError>)
    ensures
        match classify(*node) {
            Ok(ds) => r is Ok && decl_views(r->Ok_0@) == ds,
            Err(e) => r is Err && r->Err_0@ == e,
        },
{
    let mut out: Vec<Declaration> = Vec::new();
    let mut queue: VecDeque<(&Node, String)> = VecDeque::new();
    queue.push_back((node, String::new()));
    assert(items(queue@) =~= seq![(*node, Seq::<char>::empty())]);
    assert(decl_views(out@) =~= Seq::<DeclView>::empty());
    while queue.len() > 0
        invariant
            unit_walk(items(queue@), decl_views(out@)) == classify(*node),
        decreases seq_size(item_nodes(items(queue@))),
    {
        let ghost q = items(queue@);
        let ghost out0 = decl_views(out@);
        let (n, prefix) = queue.pop_front().unwrap();
        let ghost rest = items(queue@);
        assert(rest =~= q.drop_first());
        assert(q[0] == (*n, prefix@));
        proof {
            broadcast use group_size_lemmas;

            assert(item_nodes(q).drop_first() =~= item_nodes(rest));
            lemma_seq_size_first(item_nodes(q));
        }
        match n {
            Node::Module { name, body } => {
                let path = concat(prefix.as_str(), parse_node_str(name).as_str());
                if let Some(b) = body {
                    queue.push_back((&**b, path));
                }
                assert(items(queue@) =~= rest + module_item(*body, prefix@ + node_str(**name)));
                proof {
                    broadcast use group_size_lemmas;

                    let item = module_item(*body, prefix@ + node_str(**name));
                    lemma_item_nodes_append(rest, item);
                    assert(size(*n) == 1 + size(**name) + opt_size(*body));
                    if body.is_some() {
                        let b = body->0;
                        assert(item_nodes(item) =~= seq![*b]);
                        assert(seq_size(item_nodes(item)) == size(*b));
                    } else {
                        assert(item_nodes(item) =~= Seq::<Node>::empty());
                    }
                }
            },
            Node::Def { name, args, body } => {
                let mut methods: Vec<MethodDetails> = Vec::new();
                assert(method_views(methods@) =~= Seq::<MethodView>::empty());
                get_method_details_from_optional(body, name, args, &mut methods);
                let d = Declaration::Module(HelperModule { name: prefix, methods });
                out.push(d);
                assert(decl_views(out@) =~= out0.push(d@));
            },
            Node::Defs { name, args, body, .. } => {
                let mut methods: Vec<MethodDetails> = Vec::new();
                assert(method_views(methods@) =~= Seq::<MethodView>::empty());
                get_method_details_from_optional(body, name, args, &mut methods);
                let d = Declaration::Module(HelperModule { name: prefix, methods });
                out.push(d);
                assert(decl_views(out@) =~= out0.push(d@));
            },
            Node::Class { .. } => match parse_class(n, &prefix) {
                Ok(Some(d)) => {
                    out.push(d);
                    assert(decl_views(out@) =~= out0.push(d@));
                },
                Ok(None) => {},
                Err(e) => return Err(e),
            },
            Node::Begin(stmts) => {
                let mut acc = UnitState {
                    modules: Vec::new(),
                    decls: Vec::new(),
                    methods: Vec::new(),
                    actions: Vec::new(),
                    concern: false,
                };
                assert(acc@ == empty_unit()) by {
                    assert(items(acc.modules@) =~= Seq::<(Node, Seq<char>)>::empty());
                    assert(decl_views(acc.decls@) =~= Seq::<DeclView>::empty());
                    assert(method_views(acc.methods@) =~= Seq::<MethodView>::empty());
                    assert(action_views(acc.actions@) =~= Seq::<(ActionKinds, Seq<char>)>::empty());
                }
                let ghost sv = stmts@;
                let mut i: usize = 0;
                assert(sv.subrange(0, sv.len() as int) =~= sv);
                #[verifier::loop_isolation(false)]
                while i < stmts.len()
                    invariant
                        i <= stmts.len(),
                        sv == stmts@,
                        unit_scan(sv.subrange(i as int, sv.len() as int), prefix@, acc@) == unit_scan(
                            sv,
                            prefix@,
                            empty_unit(),
                        ),
                    decreases stmts.len() - i,
                {
                    let ghost part = sv.subrange(i as int, sv.len() as int);
                    assert(part.drop_first() =~= sv.subrange(i + 1, sv.len() as int));
                    assert(part[0] == sv[i as int]);
                    let ghost before = acc@;
                    let step = unit_step_exec(&stmts[i], &prefix, &mut acc);
                    if let Err(e) = step {
                        assert(unit_scan(part, prefix@, before) == Err::<UnitAcc, ErrorView>(e@));
                        return Err(e);
                    }
                    i = i + 1;
                }
                assert(sv.subrange(i as int, sv.len() as int) =~= Seq::<Node>::empty());
                let ghost scanned = acc@;
                assert(unit_scan(sv, prefix@, empty_unit()) == Ok::<UnitAcc, ErrorView>(scanned));
                proof {
                    lemma_unit_scan_size(sv, prefix@, empty_unit());
                    lemma_item_nodes_append(rest, scanned.modules);
                    assert(item_nodes(empty_unit().modules) =~= Seq::<Node>::empty());
                }
                let mut k: usize = 0;
                while k < acc.modules.len()
                    invariant
                        k <= acc.modules.len(),
                        acc@ == scanned,
                        items(queue@) =~= rest + scanned.modules.subrange(0, k as int),
                    decreases acc.modules.len() - k,
                {
                    let ghost qb = items(queue@);
                    queue.push_back((acc.modules[k].0, acc.modules[k].1.clone()));
                    assert(items(queue@) =~= qb.push(scanned.modules[k as int]));
                    k = k + 1;
                }
                assert(scanned.modules.subrange(0, k as int) =~= scanned.modules);
                let UnitState { modules: _, decls, methods, actions, concern } = acc;
                let mut decls = decls;
                out.append(&mut decls);
                if concern {
                    out.push(Declaration::Concern(Concern { name: prefix, methods, actions }));
                } else if methods.len() > 0 {
                    out.push(Declaration::Module(HelperModule { name: prefix, methods }));
                }
                assert(decl_views(out@) =~= out0 + unit_decls(scanned, prefix@));
            },
            _ => return Err(ClassifyError::UnknownSyntax),
        }
    }
    assert(unit_walk(items(queue@), decl_views(out@)) == Ok::<Seq<DeclView>, ErrorView>(decl_views(out@)));
    Ok(out)
}

/// Classification depends on the tree alone: classifying the same tree
/// twice gives equal declarations.
pub proof fn lemma_classification_repeatable(t1: Node, t2: Node)
    requires
        t1 == t2,
    ensures
        classify(t1) == classify(t2),
{
}

} // verus!
