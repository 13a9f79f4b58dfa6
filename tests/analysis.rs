use lib_ruby_parser::Parser;
use rts::routes::trim_end_matches;
use rts::types::not_found_message;
use rts::{parse_jbuilder, parse_jbuilder_nodes, ResponseView, ViewType};
use rts::StringHashMap;
use rts::{
    create_method_details, parse_class, parse_file, parse_routes, parse_node_str, parse_send, ActionKinds, AppData,
    ClassifyError, Declaration, MethodDetails, Node, Request, RequestMethod, SendTypes,
};

use lib_ruby_parser::Node as P;

fn one(n: &P) -> Box<Node> {
    Box::new(convert(n))
}

fn opt(n: &Option<Box<P>>) -> Option<Box<Node>> {
    n.as_ref().map(|x| one(x))
}

fn all(v: &[P]) -> Vec<Node> {
    v.iter().map(convert).collect()
}

/// The names of the parameters that a method definition declares.
pub fn arg_names(args: &Option<Box<P>>) -> Vec<String> {
    let mut names = Vec::new();
    if let Some(a) = args {
        if let P::Args(a) = &**a {
            for arg in &a.args {
                match arg {
                    P::Arg(x) => names.push(x.name.clone()),
                    P::Optarg(x) => names.push(x.name.clone()),
                    P::Kwarg(x) => names.push(x.name.clone()),
                    P::Kwoptarg(x) => names.push(x.name.clone()),
                    P::Shadowarg(x) => names.push(x.name.clone()),
                    P::Restarg(x) => names.extend(x.name.clone()),
                    P::Kwrestarg(x) => names.extend(x.name.clone()),
                    P::Blockarg(x) => names.extend(x.name.clone()),
                    _ => {}
                }
            }
        }
    }
    names
}

/// The library's form of a parsed tree.
pub fn convert(n: &P) -> Node {
    match n {
        P::Alias(x) => Node::Alias { to: one(&x.to), from: one(&x.from) },
        P::And(x) => Node::And { lhs: one(&x.lhs), rhs: one(&x.rhs) },
        P::AndAsgn(x) => Node::AndAsgn { recv: one(&x.recv), value: one(&x.value) },
        P::Array(x) => Node::Array(all(&x.elements)),
        P::ArrayPattern(x) => Node::ArrayPattern(all(&x.elements)),
        P::ArrayPatternWithTail(x) => Node::ArrayPatternWithTail(all(&x.elements)),
        P::Begin(x) => Node::Begin(all(&x.statements)),
        P::Block(x) => Node::Block { call: one(&x.call), args: opt(&x.args), body: opt(&x.body) },
        P::BlockPass(x) => Node::BlockPass(opt(&x.value)),
        P::Casgn(x) => Node::Casgn { scope: opt(&x.scope), name: x.name.clone(), value: opt(&x.value) },
        P::Class(x) => Node::Class {
            name: one(&x.name),
            superclass: opt(&x.superclass),
            body: opt(&x.body),
        },
        P::Const(x) => Node::Const { scope: opt(&x.scope), name: x.name.clone() },
        P::ConstPattern(x) => Node::ConstPattern { const_: one(&x.const_), pattern: one(&x.pattern) },
        P::CSend(x) => Node::CSend {
            recv: one(&x.recv),
            method_name: x.method_name.clone(),
            args: all(&x.args),
        },
        P::Def(x) => Node::Def { name: x.name.clone(), args: arg_names(&x.args), body: opt(&x.body) },
        P::Defined(x) => Node::Defined(one(&x.value)),
        P::Defs(x) => Node::Defs {
            definee: one(&x.definee),
            name: x.name.clone(),
            args: arg_names(&x.args),
            body: opt(&x.body),
        },
        P::Dstr(x) => Node::Dstr(all(&x.parts)),
        P::Dsym(x) => Node::Dsym(all(&x.parts)),
        P::EFlipFlop(x) => Node::EFlipFlop { left: opt(&x.left), right: opt(&x.right) },
        P::Ensure(x) => Node::Ensure { body: opt(&x.body), ensure: opt(&x.ensure) },
        P::Erange(x) => Node::Erange { left: opt(&x.left), right: opt(&x.right) },
        P::False(_) => Node::False,
        P::FindPattern(x) => Node::FindPattern(all(&x.elements)),
        P::For(x) => Node::For {
            iterator: one(&x.iterator),
            iteratee: one(&x.iteratee),
            body: opt(&x.body),
        },
        P::Hash(x) => Node::Hash(all(&x.pairs)),
        P::HashPattern(x) => Node::HashPattern(all(&x.elements)),
        P::If(x) => Node::If { cond: one(&x.cond), if_true: opt(&x.if_true), if_false: opt(&x.if_false) },
        P::IfGuard(x) => Node::IfGuard(one(&x.cond)),
        P::IFlipFlop(x) => Node::IFlipFlop { left: opt(&x.left), right: opt(&x.right) },
        P::IfMod(x) => Node::IfMod {
            cond: one(&x.cond),
            if_true: opt(&x.if_true),
            if_false: opt(&x.if_false),
        },
        P::IfTernary(x) => Node::IfTernary {
            cond: one(&x.cond),
            if_true: one(&x.if_true),
            if_false: one(&x.if_false),
        },
        P::Index(x) => Node::Index { recv: one(&x.recv), indexes: all(&x.indexes) },
        P::IndexAsgn(x) => Node::IndexAsgn {
            recv: one(&x.recv),
            indexes: all(&x.indexes),
            value: opt(&x.value),
        },
        P::InPattern(x) => Node::InPattern {
            pattern: one(&x.pattern),
            guard: opt(&x.guard),
            body: opt(&x.body),
        },
        P::Int(x) => Node::Int(x.value.clone()),
        P::Irange(x) => Node::Irange { left: opt(&x.left), right: opt(&x.right) },
        P::Ivar(x) => Node::Ivar(x.name.clone()),
        P::Ivasgn(x) => Node::Ivasgn { name: x.name.clone(), value: opt(&x.value) },
        P::Kwargs(x) => Node::Kwargs(all(&x.pairs)),
        P::KwBegin(x) => Node::KwBegin(all(&x.statements)),
        P::Kwoptarg(x) => Node::Kwoptarg { name: x.name.clone(), default: one(&x.default) },
        P::Kwsplat(x) => Node::Kwsplat(one(&x.value)),
        P::Lvar(x) => Node::Lvar(x.name.clone()),
        P::Lvasgn(x) => Node::Lvasgn { name: x.name.clone(), value: opt(&x.value) },
        P::Masgn(x) => Node::Masgn { lhs: one(&x.lhs), rhs: one(&x.rhs) },
        P::MatchAlt(x) => Node::MatchAlt { lhs: one(&x.lhs), rhs: one(&x.rhs) },
        P::MatchAs(x) => Node::MatchAs { value: one(&x.value), as_: one(&x.as_) },
        P::MatchPattern(x) => Node::MatchPattern { value: one(&x.value), pattern: one(&x.pattern) },
        P::MatchPatternP(x) => Node::MatchPatternP { value: one(&x.value), pattern: one(&x.pattern) },
        P::MatchRest(x) => Node::MatchRest(opt(&x.name)),
        P::MatchWithLvasgn(x) => Node::MatchWithLvasgn { re: one(&x.re), value: one(&x.value) },
        P::Mlhs(x) => Node::Mlhs(all(&x.items)),
        P::Module(x) => Node::Module { name: one(&x.name), body: opt(&x.body) },
        P::Next(x) => Node::Next(all(&x.args)),
        P::Nil(_) => Node::Nil,
        P::Numblock(x) => Node::Numblock { call: one(&x.call), body: one(&x.body) },
        P::OpAsgn(x) => Node::OpAsgn { recv: one(&x.recv), value: one(&x.value) },
        P::Optarg(x) => Node::Optarg { name: x.name.clone(), default: one(&x.default) },
        P::Or(x) => Node::Or { lhs: one(&x.lhs), rhs: one(&x.rhs) },
        P::OrAsgn(x) => Node::OrAsgn { recv: one(&x.recv), value: one(&x.value) },
        P::Pair(x) => Node::Pair { key: one(&x.key), value: one(&x.value) },
        P::Pin(x) => Node::Pin(one(&x.var)),
        P::Postexe(x) => Node::Postexe(opt(&x.body)),
        P::Preexe(x) => Node::Preexe(opt(&x.body)),
        P::Procarg0(x) => Node::Procarg0(all(&x.args)),
        P::Regexp(x) => Node::Regexp { parts: all(&x.parts), options: opt(&x.options) },
        P::Rescue(x) => Node::Rescue {
            body: opt(&x.body),
            rescue_bodies: all(&x.rescue_bodies),
            else_: opt(&x.else_),
        },
        P::RescueBody(x) => Node::RescueBody {
            exc_list: opt(&x.exc_list),
            exc_var: opt(&x.exc_var),
            body: opt(&x.body),
        },
        P::Return(x) => Node::Return(all(&x.args)),
        P::Send(x) => Node::Send {
            recv: opt(&x.recv),
            method_name: x.method_name.clone(),
            args: all(&x.args),
        },
        P::Splat(x) => Node::Splat(opt(&x.value)),
        P::Str(x) => Node::Str(x.value.to_string_lossy()),
        P::Sym(x) => Node::Sym(x.name.to_string_lossy()),
        P::True(_) => Node::True,
        P::Undef(x) => Node::Undef(all(&x.names)),
        P::UnlessGuard(x) => Node::UnlessGuard(one(&x.cond)),
        P::Until(x) => Node::Until { cond: one(&x.cond), body: opt(&x.body) },
        P::UntilPost(x) => Node::UntilPost { cond: one(&x.cond), body: one(&x.body) },
        P::When(x) => Node::When { patterns: all(&x.patterns), body: opt(&x.body) },
        P::While(x) => Node::While { cond: one(&x.cond), body: opt(&x.body) },
        P::WhilePost(x) => Node::WhilePost { cond: one(&x.cond), body: one(&x.body) },
        P::Yield(x) => Node::Yield(all(&x.args)),
        _ => Node::Other,
    }
}

fn tree(input: &str) -> Node {
    let ast = Parser::new(input.as_bytes(), Default::default()).do_parse().ast.unwrap();
    convert(&ast)
}

fn details(input: &str) -> MethodDetails {
    create_method_details(&tree(input), "tasdf".to_string(), Vec::new())
}

fn sorted(mut v: Vec<String>) -> String {
    v.sort();
    v.join(", ")
}

fn expected(list: &str) -> String {
    if list.is_empty() {
        return String::new();
    }
    sorted(list.split(", ").map(|s| s.to_string()).collect())
}

fn param_helper(input: &str) -> String {
    sorted(details(input).params)
}

fn method_call_helper(input: &str) -> String {
    sorted(details(input).method_calls.into_iter().map(|(name, _)| name).collect())
}

fn local_count(d: &MethodDetails, name: &str) -> Option<usize> {
    d.local_variables.iter().find(|(k, _)| k == name).map(|(_, c)| *c)
}

fn send_type(input: &str) -> SendTypes {
    parse_send(&tree(input))
}

#[test]
fn send_method() {
    assert_eq!(param_helper("render 'show'"), "");
}

#[test]
fn params_without_any_index() {
    assert_eq!(param_helper("params"), "");
}

#[test]
fn params_index() {
    assert_eq!(param_helper("params[:id]"), "id");
}

#[test]
fn params_index_string() {
    assert_eq!(param_helper("params['dogs']"), "dogs");
}

#[test]
fn params_index_multiple_string() {
    assert_eq!(param_helper("params['dogs', 'pizza']"), expected("dogs, pizza"));
}

#[test]
fn params_double_index_string() {
    assert_eq!(param_helper("params['cat']['dogs']"), "cat:dogs");
}

#[test]
fn params_triple_index_joins_innermost_first() {
    assert_eq!(param_helper("params[:a][:b][:c]"), "a:b:c");
}

#[test]
fn params_require() {
    assert_eq!(
        param_helper("event_type = params.require(:issue_event_type_name)"),
        "issue_event_type_name"
    );
}

#[test]
fn params_permit() {
    assert_eq!(param_helper("event_type = params.permit(:pizza)"), "pizza");
}

#[test]
fn params_permit_in_array() {
    assert_eq!(param_helper("event_type = params.permit([:pizza])"), "pizza");
}

#[test]
fn params_permit_array_type() {
    assert_eq!(param_helper("event_type = params.permit(:pizza => [])"), "pizza[]");
}

#[test]
fn params_permit_object_type() {
    assert_eq!(param_helper("event_type = params.permit(:pizza => {})"), "pizza{}");
}

fn sym(s: &str) -> Node {
    Node::Sym(s.to_string())
}

fn pair(k: Node, v: Node) -> Node {
    Node::Pair { key: Box::new(k), value: Box::new(v) }
}

fn call(recv: Option<Node>, name: &str, args: Vec<Node>) -> Node {
    Node::Send { recv: recv.map(Box::new), method_name: name.to_string(), args }
}

#[test]
fn params_permit_complex() {
    // event_type = params.permit(:pizza => [], :dog => {}, :foobar)
    // The parser refuses a symbol after hash pairs, so the tree is built here.
    let permit = call(
        Some(call(None, "params", vec![])),
        "permit",
        vec![
            Node::Kwargs(vec![pair(sym("pizza"), Node::Array(vec![])), pair(sym("dog"), Node::Hash(vec![]))]),
            sym("foobar"),
        ],
    );
    let body = Node::Lvasgn { name: "event_type".to_string(), value: Some(Box::new(permit)) };
    let d = create_method_details(&body, "tasdf".to_string(), Vec::new());
    assert_eq!(sorted(d.params), expected("pizza[], dog{}, foobar"));
}

#[test]
fn params_require_permit() {
    assert_eq!(
        param_helper("event_type = params.require(:issue_event_type_name).permit(:dogs)"),
        expected("issue_event_type_name, dogs")
    );
}

#[test]
fn params_permit_then_require_reports_nothing() {
    assert_eq!(param_helper("params.permit(:a).require(:b)"), "");
}

#[test]
fn params_send() {
    assert_eq!(
        param_helper("@results = query.foo(params[:issue_event_type_name])"),
        "issue_event_type_name"
    );
}

#[test]
fn params_require_complex() {
    assert_eq!(
        param_helper(
            " create_details =  {
            :project_key => params.require(:project_key),
            :issue_type_id => params.require(:issue_type_id),
            :title_field_key => p[:title_field_key],
            :description_field_key => p[:description_field_key],
            :title => p[:title],
            :description => p[:description]
          }"
        ),
        "issue_type_id, project_key"
    );
}

#[test]
fn params_if() {
    assert_eq!(
        param_helper(
            "if params[:id]
                    @results = params[:cat]
                end"
        ),
        "cat, id"
    );
}

#[test]
fn method_call() {
    assert_eq!(method_call_helper("process_jwt cookie"), "cookie, process_jwt");
}

#[test]
fn method_call_arguments_are_rendered() {
    let d = details("process_jwt :cookie, 'x', 3");
    assert_eq!(
        d.method_calls,
        vec![("process_jwt".to_string(), vec!["cookie".to_string(), "x".to_string(), "3".to_string()])]
    );
}

#[test]
fn local_varaible_access_count() {
    let input = "
            a = 1
            b
            c = 2
            puts c
        ";
    let results = details(input);
    assert_eq!(local_count(&results, "a"), Some(0));
    assert_eq!(local_count(&results, "b"), None);
    assert_eq!(local_count(&results, "c"), Some(1));
}

#[test]
fn instance_variables_are_collected_once() {
    let d = details("@a = 1\n@a = 2\n@b = 3");
    assert_eq!(d.instance_variables, vec!["@a".to_string(), "@b".to_string()]);
}

#[test]
fn header_read_and_assignment() {
    let d = details("headers['hello']\nrequest.headers['token']\nheaders['world'] = 20");
    let mut h = d.headers.clone();
    h.sort();
    assert_eq!(
        h,
        vec![
            ("hello".to_string(), "".to_string()),
            ("token".to_string(), "".to_string()),
            ("world".to_string(), "20".to_string()),
        ]
    );
}

#[test]
fn require_single() {
    assert_eq!(send_type("params.require(:asdf)"), SendTypes::ParamsRequire);
}

#[test]
fn permit_single() {
    assert_eq!(send_type("params.permit(:asdf)"), SendTypes::ParamsPermit);
}

#[test]
fn require_params_correct_order() {
    assert_eq!(send_type("params.require(:asdf).permit(:asdf)"), SendTypes::ParamsRequirePermit);
}

#[test]
fn params_require_wrong_order() {
    assert_eq!(send_type("params.permit(:asdf).require(:asdf)"), SendTypes::Invalid);
}

#[test]
fn send_on_other_receiver_is_invalid() {
    assert_eq!(send_type("other.require(:asdf)"), SendTypes::Invalid);
}

#[test]
fn rendering_of_literals() {
    assert_eq!(parse_node_str(&tree("[:a, 'b', 1]")), "[a,b,1]");
    assert_eq!(parse_node_str(&tree("{}")), "{}");
    assert_eq!(parse_node_str(&tree("{ :a => nil }")), "{a=>nil}");
    assert_eq!(parse_node_str(&tree("Foo::Bar")), "Foo::Bar");
    assert_eq!(parse_node_str(&tree("true or false")), "true or false");
    assert_eq!(parse_node_str(&tree("x.y")), "unknown");
}

fn classify(input: &str) -> Vec<Declaration> {
    match parse_file(&tree(input)) {
        Ok(d) => d,
        Err(e) => panic!("classification failed: {:?}", e),
    }
}

fn method_names(ms: &[MethodDetails]) -> Vec<String> {
    ms.iter().map(|m| m.name.clone()).collect()
}

fn summary(d: &Declaration) -> String {
    match d {
        Declaration::Controller(c) => format!(
            "controller {} < {} {:?} {:?} {:?} {:?} {:?}",
            c.name,
            c.parent,
            c.module,
            method_names(&c.methods),
            c.methods.iter().map(|m| sorted(m.params.clone())).collect::<Vec<_>>(),
            c.actions.iter().map(|(k, t)| format!("{:?} {}", k, t)).collect::<Vec<_>>(),
            c.includes
        ),
        Declaration::Module(h) => format!("helper {} {:?}", h.name, method_names(&h.methods)),
        Declaration::Concern(c) => format!(
            "concern {} {:?} {:?}",
            c.name,
            method_names(&c.methods),
            c.actions.iter().map(|(k, t)| format!("{:?} {}", k, t)).collect::<Vec<_>>()
        ),
    }
}

fn registry(sources: &[&str]) -> AppData {
    let mut app = AppData::new();
    for s in sources {
        app.add_declarations(classify(s));
    }
    app
}

const BASE: &str = "
class ApplicationController < ActionController::API
    include HttpResponses

    before_action :auth_check

    def auth_check
        return unless params[:auth_token] == 1
    end

    def show
        lookup
    end
end
";

const USERS: &str = "
module Api
    class UsersController < ApplicationController
        include Paging

        def show
            params.require(:id)
        end

        def index
            load_users
        end

        def load_users
            params[:page]
        end
    end
end
";

const PAGING: &str = "
module Paging
    extend ActiveSupport::Concern

    included do
        before_action :set_page
    end

    def set_page
        params[:per_page]
    end
end
";

#[test]
fn lib_basic() {
    let input = "
        class ApplicationController < ActionController::API 
            include HttpResponses

            before_action :auth_check

            def auth_check
                return unless params[:auth_token] == 1
            end
        end
        ";
    let decl = parse_class(&tree(input), &String::new()).unwrap().unwrap();
    assert_eq!(
        summary(&decl),
        "controller ApplicationController < ActionController::API None [\"auth_check\"] [\"auth_token\"] [\"BeforeAction auth_check\"] [\"HttpResponses\"]"
    );
}

#[test]
fn class_in_module_records_path() {
    let d = classify(USERS);
    assert_eq!(d.len(), 1);
    assert_eq!(
        summary(&d[0]),
        "controller UsersController < ApplicationController Some(\"Api\") [\"show\", \"index\", \"load_users\"] [\"id\", \"\", \"page\"] [] [\"Paging\"]"
    );
}

#[test]
fn concern_with_included_hooks() {
    let d = classify(PAGING);
    assert_eq!(d.len(), 1);
    assert_eq!(summary(&d[0]), "concern Paging [\"set_page\"] [\"BeforeAction set_page\"]");
}

#[test]
fn top_level_methods_make_helpers() {
    let d = classify("module Util\n  def a; end\n  def b; params[:x]; end\nend");
    assert_eq!(d.len(), 1);
    assert_eq!(summary(&d[0]), "helper Util [\"a\", \"b\"]");
}

#[test]
fn nested_module_names_concatenate() {
    let d = classify("module A\n  module B\n    def f; end\n  end\nend");
    assert_eq!(summary(&d[0]), "helper AB [\"f\"]");
}

#[test]
fn error_classes_are_skipped() {
    let d = classify("class NotFound < StandardError\nend");
    assert!(d.is_empty());
}

#[test]
fn class_without_ancestor_fails() {
    match parse_file(&tree("class Lonely\n  def a; end\nend")) {
        Err(ClassifyError::NoAncestor(name)) => assert_eq!(name, "Lonely"),
        _ => panic!("expected a missing-ancestor error"),
    }
}

#[test]
fn unexpected_call_in_class_fails() {
    match parse_file(&tree("class A < B\n  layout 'x'\n  def a; end\nend")) {
        Err(ClassifyError::UnexpectedCall(name)) => assert_eq!(name, "layout"),
        _ => panic!("expected an unexpected-call error"),
    }
}

#[test]
fn unexpected_statement_in_class_fails() {
    assert!(matches!(
        parse_file(&tree("class A < B\n  x = 1\n  def a; end\nend")),
        Err(ClassifyError::UnexpectedStatement)
    ));
}

#[test]
fn unsupported_extend_fails() {
    match parse_file(&tree("module M\n  extend Other\n  def a; end\nend")) {
        Err(ClassifyError::UnsupportedExtend(t)) => assert_eq!(t, "Other"),
        _ => panic!("expected an unsupported-extend error"),
    }
}

#[test]
fn unknown_top_level_fails() {
    assert!(matches!(parse_file(&tree("1 + 2")), Err(ClassifyError::UnexpectedCall(_)) | Err(ClassifyError::UnknownSyntax)));
    assert!(matches!(parse_file(&tree("42")), Err(ClassifyError::UnknownSyntax)));
}

#[test]
fn classification_is_repeatable() {
    let t = tree(USERS);
    let a: Vec<String> = parse_file(&t).unwrap().iter().map(summary).collect();
    let b: Vec<String> = parse_file(&t).unwrap().iter().map(summary).collect();
    assert_eq!(a, b);
}

#[test]
fn all_methods_are_own_then_inherited_then_included() {
    let app = registry(&[BASE, USERS, PAGING]);
    let users = app.get_controller("UsersController").unwrap();
    assert_eq!(
        method_names(&users.get_all_methods(&app)),
        vec!["show", "index", "load_users", "auth_check", "show", "set_page"]
    );
    assert_eq!(method_names(&users.get_own_methods()), vec!["show", "index", "load_users"]);
    assert_eq!(method_names(&users.get_inherited_methods(&app)), vec!["auth_check", "show"]);
    assert_eq!(method_names(&users.get_included_methods(&app)), vec!["set_page"]);
}

#[test]
fn missing_mixin_is_a_warning() {
    let app = registry(&[BASE, USERS, PAGING]);
    let base = app.get_controller("ApplicationController").unwrap();
    assert!(base.get_included_methods(&app).is_empty());
    assert_eq!(base.missing_includes(&app), vec!["HttpResponses".to_string()]);
    let users = app.get_controller("UsersController").unwrap();
    assert!(users.missing_includes(&app).is_empty());
}

#[test]
fn first_method_by_name_wins() {
    let app = registry(&[BASE, USERS, PAGING]);
    let users = app.get_controller("UsersController").unwrap();
    let show = users.get_method_by_name("show", &app).unwrap();
    assert_eq!(show.params, vec!["id".to_string()]);
    assert!(users.get_method_by_name("nothing", &app).is_none());
}

#[test]
fn method_params_follow_calls() {
    let app = registry(&[BASE, USERS, PAGING]);
    let users = app.get_controller("UsersController").unwrap();
    let index = users.get_method_by_name("index", &app).unwrap();
    assert_eq!(sorted(users.get_method_params(&index, &app)), "page");
}

#[test]
fn method_without_param_access_has_no_params() {
    let app = registry(&["class A < B\n  def a\n    b\n  end\n  def b\n    c\n  end\nend"]);
    let a = app.get_controller("A").unwrap();
    let m = a.get_method_by_name("a", &app).unwrap();
    assert!(a.get_method_params(&m, &app).is_empty());
}

#[test]
fn recursive_calls_terminate() {
    let app = registry(&["class A < B\n  def a\n    params[:x]\n    a\n  end\nend"]);
    let a = app.get_controller("A").unwrap();
    let m = a.get_method_by_name("a", &app).unwrap();
    assert_eq!(sorted(a.get_method_params(&m, &app)), "x");
}

#[test]
fn cyclic_ancestry_terminates() {
    let app = registry(&["class A < B\n  def a; end\nend", "class B < A\n  def b; end\nend"]);
    let a = app.get_controller("A").unwrap();
    assert_eq!(method_names(&a.get_all_methods(&app)), vec!["a", "b"]);
}

#[test]
fn endpoint_params_include_hooks() {
    let app = registry(&[BASE, USERS, PAGING]);
    let base = app.get_controller("ApplicationController").unwrap();
    let r = base.endpoint_params("auth_check", &app, "/login").unwrap();
    assert_eq!(sorted(r), "auth_token");
    let users = app.get_controller("UsersController").unwrap();
    assert_eq!(sorted(users.endpoint_params("index", &app, "/users").unwrap()), "page");
}

#[test]
fn missing_action_names_action_controller_and_request() {
    let app = registry(&[BASE, USERS, PAGING]);
    let users = app.get_controller("UsersController").unwrap();
    let e = users.endpoint_params("destroy", &app, "/users/1").unwrap_err();
    assert_eq!(e, "ERROR: action destroy not found in controller UsersController for request /users/1");
    assert_eq!(e, not_found_message("destroy", "UsersController", "/users/1"));
}

#[test]
fn missing_hook_target_fails() {
    let app = registry(&["class A < B\n  before_action :gone\n  def a; end\nend"]);
    let a = app.get_controller("A").unwrap();
    let e = a.endpoint_params("a", &app, "/a").unwrap_err();
    assert_eq!(e, "ERROR: action gone not found in controller A for request /a");
}

#[test]
fn later_declaration_replaces_earlier() {
    let app = registry(&["class A < B\n  def first; end\nend", "class A < B\n  def second; end\nend"]);
    let a = app.get_controller("A").unwrap();
    assert_eq!(method_names(&a.methods), vec!["second"]);
}

#[test]
fn request_params_use_pascal_case_controller() {
    let app = registry(&[BASE, USERS, PAGING]);
    let req = Request {
        method: RequestMethod::Get,
        prefix: String::new(),
        uri: "/users".to_string(),
        controller: "users_controller".to_string(),
        action: "index".to_string(),
    };
    assert_eq!(sorted(req.get_params(&app).unwrap()), "page");
    assert_eq!(req.describe(), "Get /users");
    let missing = Request {
        method: RequestMethod::Post,
        prefix: String::new(),
        uri: "/x".to_string(),
        controller: "nothing".to_string(),
        action: "index".to_string(),
    };
    assert_eq!(
        missing.get_params(&app).unwrap_err(),
        "ERROR: action index not found in controller Nothing for request /x"
    );
}

#[test]
fn request_method_parsing() {
    assert_eq!("GET".parse::<RequestMethod>(), Ok(RequestMethod::Get));
    assert_eq!(RequestMethod::parse("OPTIONS"), Ok(RequestMethod::Options));
    assert_eq!(RequestMethod::parse("get"), Err("unknown Request method 'get'".to_string()));
}

#[test]
fn trimming_repeated_suffix() {
    assert_eq!(trim_end_matches("users_controller", "_controller"), "users");
    assert_eq!(trim_end_matches("a_controller_controller", "_controller"), "a");
    assert_eq!(trim_end_matches("users", "_controller"), "users");
}

#[test]
fn hook_kinds_are_recorded() {
    let d = classify("class A < B\n  around_action :wrap\n  rescue_from :oops\n  def wrap; end\nend");
    match &d[0] {
        Declaration::Controller(c) => {
            assert!(matches!(c.actions[0].0, ActionKinds::AroundAction));
            assert!(matches!(c.actions[1].0, ActionKinds::RescueFrom));
        }
        _ => panic!("expected a controller"),
    }
}

fn view_helper(input: &str) -> Vec<String> {
    let mut results = parse_jbuilder_nodes(&tree(input), false, "");
    results.sort();
    results
}

#[test]
fn blocks() {
    let input = "
        json.uploads  @data.uploads do | upload |
            json.(upload, :id, :stored_filename, :user_filename, :file_type)
        end
        ";
    assert_eq!(
        view_helper(input),
        [
            "uploads.file_type".to_owned(),
            "uploads.id".to_owned(),
            "uploads.stored_filename".to_owned(),
            "uploads.upload".to_owned(),
            "uploads.user_filename".to_owned(),
        ]
    );
}

#[test]
fn named_block_with_if() {
    let input = "
        json.uploads  @data.uploads do | upload |
            json.(upload, :id, :stored_filename, :user_filename, :file_type)
            if @options && @options[:include_upload_links]
                json.url upload.download_link
            end
        end
        ";
    assert_eq!(
        view_helper(input),
        [
            "uploads.?url".to_owned(),
            "uploads.file_type".to_owned(),
            "uploads.id".to_owned(),
            "uploads.stored_filename".to_owned(),
            "uploads.upload".to_owned(),
            "uploads.user_filename".to_owned(),
        ]
    );
}

#[test]
fn named_begin() {
    let input = "
        json.editor do
            json.name @data.editor&.id
            json.id @data.editor&.id
        end
        ";
    assert_eq!(view_helper(input), ["editor.id".to_owned(), "editor.name".to_owned(),]);
}

#[test]
fn views_basic() {
    let input = "
        json.(@data, :id, :title, :description)
        ";
    assert_eq!(
        view_helper(input),
        ["description".to_owned(), "id".to_owned(), "title".to_owned(),]
    );
}

#[test]
fn if_statement() {
    let input = "
        if @data.owner
            json.(@data, :read_count)
        end
        ";
    assert_eq!(view_helper(input), ["?read_count".to_owned()]);
}

#[test]
fn conditional_based_send() {
    let input = "
        json.admin permission.admin?
        ";
    assert_eq!(view_helper(input), ["admin".to_owned()]);
}

#[test]
fn empty_template_fails() {
    assert_eq!(
        parse_jbuilder(None, "show".to_string(), "users".to_string()).err(),
        Some("empty view".to_string())
    );
}

#[test]
fn request_view_is_found_by_controller_directory() {
    let mut app = AppData::new();
    let t = tree("json.(@data, :id, :name)");
    let view: ResponseView = parse_jbuilder(Some(&t), "show".to_string(), "users".to_string()).unwrap();
    assert!(view.view_type == ViewType::Jbuilder);
    let mut actions = StringHashMap::new();
    actions.insert("show".to_string(), view);
    app.views.insert("users".to_string(), actions);
    let req = Request {
        method: RequestMethod::Get,
        prefix: String::new(),
        uri: "/users/1".to_string(),
        controller: "users_controller".to_string(),
        action: "show".to_string(),
    };
    assert_eq!(req.get_view(&app), Ok("id,name".to_string()));
    let other = Request { action: "index".to_string(), ..req };
    assert_eq!(other.get_view(&app), Err("not found".to_string()));
}

#[test]
fn route_tables_are_not_read() {
    assert_eq!(
        parse_routes(&tree("Rails.application.routes.draw do\nend")).err(),
        Some("failed to parse".to_string())
    );
}

#[test]
fn missing_mixin_leaves_the_others() {
    let app = registry(&[
        PAGING,
        "class A < B\n  include Missing\n  include Paging\n  def a; end\nend",
    ]);
    let a = app.get_controller("A").unwrap();
    assert_eq!(method_names(&a.get_included_methods(&app)), vec!["set_page"]);
    assert_eq!(a.missing_includes(&app), vec!["Missing".to_string()]);
    assert_eq!(method_names(&a.get_all_methods(&app)), vec!["a", "set_page"]);
}

#[test]
fn framework_mixin_is_not_recorded() {
    let d = classify("class A < B\n  include ActionController::MimeResponds\n  include Paging\nend");
    match &d[0] {
        Declaration::Controller(c) => assert_eq!(c.includes, vec!["Paging".to_string()]),
        _ => panic!("expected a controller"),
    }
}
