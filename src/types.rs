//! Declarations of controllers, mixins and helper modules, the registry that
//! holds them, and method resolution across ancestry and mixins.
pub use crate::params::MethodDetails;
use crate::params::{
    call_views, clone_methods, insert_strings, lemma_insert_keys_set, method_views, MethodView,
};
use crate::routes::Request;
use crate::classify::Declaration;
use crate::utils::{clone_strings, str_eq, views};
use vstd::hash_map::StringHashMap;
use vstd::prelude::*;

verus! {

/// The kind of an action hook.
#[derive(Debug)]
pub enum ActionKinds {
    BeforeAction,
    AroundAction,
    RescueFrom,
    Custom(String),
}

/// A class that serves requests.
pub struct Controller {
    pub name: String,
    /// The declared ancestor; empty where there is no further ancestor.
    pub parent: String,
    pub methods: Vec<MethodDetails>,
    /// Action hooks, each with the name of the method that it runs.
    pub actions: Vec<(ActionKinds, String)>,
    /// Names of included mixins.
    pub includes: Vec<String>,
    /// The enclosing module path, where there is one.
    pub module: Option<String>,
}

/// A mixin that contributes only methods.
pub struct HelperModule {
    pub name: String,
    pub methods: Vec<MethodDetails>,
}

/// A mixin that contributes methods and action hooks.
pub struct Concern {
    pub name: String,
    pub methods: Vec<MethodDetails>,
    pub actions: Vec<(ActionKinds, String)>,
}

/// The kind of a response template.
#[derive(Debug, PartialEq, Eq, Structural)]
pub enum ViewType {
    Jbuilder,
    Jb,
}

/// The fields that a response template renders for one action.
pub struct ResponseView {
    pub controller: String,
    pub method: String,
    /// One entry per rendered field.
    pub response: Vec<String>,
    pub view_type: ViewType,
}

/// Every declaration of an application, by qualified name, with its routes
/// and response templates. A later insertion under a name replaces the
/// earlier one.
pub struct AppData {
    pub concerns: StringHashMap<Concern>,
    pub helpers: StringHashMap<HelperModule>,
    pub controllers: StringHashMap<Controller>,
    pub routes: Vec<Request>,
    /// Templates by controller directory, then by action.
    pub views: StringHashMap<StringHashMap<ResponseView>>,
}

impl AppData {
    /// An empty registry.
    pub fn new() -> (r: AppData)
        ensures
            r.concerns@ == Map::<Seq<char>, Concern>::empty(),
            r.helpers@ == Map::<Seq<char>, HelperModule>::empty(),
            r.controllers@ == Map::<Seq<char>, Controller>::empty(),
            r.routes@.len() == 0,
            r.views@ == Map::<Seq<char>, StringHashMap<ResponseView>>::empty(),
    {
        AppData {
            concerns: StringHashMap::new(),
            helpers: StringHashMap::new(),
            controllers: StringHashMap::new(),
            routes: Vec::new(),
            views: StringHashMap::new(),
        }
    }

    /// Registers a controller under its name, replacing any earlier one.
    pub fn insert_controller(&mut self, c: Controller)
        ensures
            final(self).controllers@ == old(self).controllers@.insert(c.name@, c),
            final(self).concerns == old(self).concerns,
            final(self).helpers == old(self).helpers,
            final(self).routes == old(self).routes,
            final(self).views == old(self).views,
    {
        let key = c.name.clone();
        self.controllers.insert(key, c);
    }

    /// Registers a concern under its name, replacing any earlier one.
    pub fn insert_concern(&mut self, c: Concern)
        ensures
            final(self).concerns@ == old(self).concerns@.insert(c.name@, c),
            final(self).controllers == old(self).controllers,
            final(self).helpers == old(self).helpers,
            final(self).routes == old(self).routes,
            final(self).views == old(self).views,
    {
        let key = c.name.clone();
        self.concerns.insert(key, c);
    }

    /// Registers a helper module under its name, replacing any earlier one.
    pub fn insert_helper(&mut self, h: HelperModule)
        ensures
            final(self).helpers@ == old(self).helpers@.insert(h.name@, h),
            final(self).controllers == old(self).controllers,
            final(self).concerns == old(self).concerns,
            final(self).routes == old(self).routes,
            final(self).views == old(self).views,
    {
        let key = h.name.clone();
        self.helpers.insert(key, h);
    }

    /// The controller registered under `name`.
    pub fn get_controller(&self, name: &str) -> (r: Option<&Controller>)
        ensures
            match r {
                Some(c) => self.controllers@.contains_key(name@) && *c == self.controllers@[name@],
                None => !self.controllers@.contains_key(name@),
            },
    {
        self.controllers.get(name)
    }

    /// The concern registered under `name`.
    pub fn get_concern(&self, name: &str) -> (r: Option<&Concern>)
        ensures
            match r {
                Some(c) => self.concerns@.contains_key(name@) && *c == self.concerns@[name@],
                None => !self.concerns@.contains_key(name@),
            },
    {
        self.concerns.get(name)
    }

    /// The helper module registered under `name`.
    pub fn get_helper(&self, name: &str) -> (r: Option<&HelperModule>)
        ensures
            match r {
                Some(h) => self.helpers@.contains_key(name@) && *h == self.helpers@[name@],
                None => !self.helpers@.contains_key(name@),
            },
    {
        self.helpers.get(name)
    }
}

// ---------------------------------------------------------------------------
// Method resolution.

/// The methods that the mixin `name` contributes: those of the concern of
/// that name, else those of the helper module of that name, else none.
pub open spec fn mixin_methods(data: AppData, name: Seq<char>) -> Seq<MethodView> {
    if data.concerns@.contains_key(name) {
        method_views(data.concerns@[name].methods@)
    } else if data.helpers@.contains_key(name) {
        method_views(data.helpers@[name].methods@)
    } else {
        Seq::empty()
    }
}

/// The methods of the mixins, in order.
pub open spec fn included_of(data: AppData, names: Seq<String>) -> Seq<MethodView>
    decreases names.len(),
{
    if names.len() == 0 {
        Seq::empty()
    } else {
        mixin_methods(data, names[0]@) + included_of(data, names.drop_first())
    }
}

/// The mixin names, in order, that name neither a concern nor a helper.
pub open spec fn missing_of(data: AppData, names: Seq<String>) -> Seq<Seq<char>>
    decreases names.len(),
{
    if names.len() == 0 {
        Seq::empty()
    } else {
        let rest = missing_of(data, names.drop_first());
        if data.concerns@.contains_key(names[0]@) || data.helpers@.contains_key(names[0]@) {
            rest
        } else {
            seq![names[0]@] + rest
        }
    }
}

/// The effective methods of `c`: its own, then those of its ancestor, then
/// those of its mixins. An ancestor whose name is in `seen` contributes
/// nothing, which cuts cyclic ancestry; `fuel` bounds the depth.
pub open spec fn all_methods_of(data: AppData, c: Controller, seen: Set<Seq<char>>, fuel: nat) -> Seq<
    MethodView,
>
    decreases fuel, 1nat,
{
    method_views(c.methods@) + inherited_of(data, c, seen, fuel) + included_of(data, c.includes@)
}

/// The effective methods of the ancestor of `c`, where it is registered and
/// not in `seen`.
pub open spec fn inherited_of(data: AppData, c: Controller, seen: Set<Seq<char>>, fuel: nat) -> Seq<
    MethodView,
>
    decreases fuel, 0nat,
{
    if fuel > 0 && data.controllers@.contains_key(c.parent@) && !seen.contains(c.parent@) {
        all_methods_of(data, data.controllers@[c.parent@], seen.insert(c.parent@), (fuel - 1) as nat)
    } else {
        Seq::empty()
    }
}

/// The first method of the sequence with the given name.
pub open spec fn first_named(s: Seq<MethodView>, name: Seq<char>) -> Option<MethodView>
    decreases s.len(),
{
    if s.len() == 0 {
        None
    } else if s[0].name == name {
        Some(s[0])
    } else {
        first_named(s.drop_first(), name)
    }
}

impl Controller {
    /// The ancestry depth that resolution explores: the number of registered
    /// controllers, as a chain of distinct ancestors cannot be longer.
    pub open spec fn depth(data: AppData) -> nat {
        data.controllers@.len()
    }

    /// The controller's effective methods.
    pub open spec fn all_methods(&self, data: AppData) -> Seq<MethodView> {
        all_methods_of(data, *self, set![self.name@], Self::depth(data))
    }

    /// The effective methods of the controller's ancestor.
    pub open spec fn inherited_methods(&self, data: AppData) -> Seq<MethodView> {
        inherited_of(data, *self, set![self.name@], Self::depth(data))
    }

    /// The controller's directly declared methods.
    pub fn get_own_methods(&self) -> (r: Vec<MethodDetails>)
        ensures
            method_views(r@) == method_views(self.methods@),
    {
        clone_methods(&self.methods)
    }

    /// The effective methods of the controller's ancestor: its own, its
    /// ancestor's and its mixins', where the ancestor is registered; none
    /// otherwise.
    pub fn get_inherited_methods(&self, app_data: &AppData) -> (r: Vec<MethodDetails>)
        ensures
            method_views(r@) == self.inherited_methods(*app_data),
    {
        let seen = vec![self.name.clone()];
        proof {
            lemma_one_name_set(seen@, self.name@);
        }
        inherited_from(self, app_data, &seen, app_data.controllers.len())
    }

    /// The methods of the included mixins, in order: for each name, the
    /// concern of that name, else the helper module of that name. A name
    /// that is neither contributes nothing (see `missing_includes`).
    pub fn get_included_methods(&self, app_data: &AppData) -> (r: Vec<MethodDetails>)
        ensures
            method_views(r@) == included_of(*app_data, self.includes@),
    {
        let mut r: Vec<MethodDetails> = Vec::new();
        let mut i: usize = self.includes.len();
        while i > 0
            invariant
                i <= self.includes.len(),
                method_views(r@) == included_of(*app_data, self.includes@.subrange(i as int, self.includes@.len() as int)),
            decreases i,
        {
            i = i - 1;
            let ghost rv = method_views(r@);
            let mut ms = match app_data.concerns.get(self.includes[i].as_str()) {
                Some(c) => clone_methods(&c.methods),
                None => match app_data.helpers.get(self.includes[i].as_str()) {
                    Some(h) => clone_methods(&h.methods),
                    None => Vec::new(),
                },
            };
            let ghost mv = method_views(ms@);
            ms.append(&mut r);
            r = ms;
            assert(self.includes@.subrange(i as int, self.includes@.len() as int).drop_first() =~= self.includes@.subrange(i + 1, self.includes@.len() as int));
            assert(method_views(r@) =~= mv + rv);
        }
        assert(self.includes@.subrange(0, self.includes@.len() as int) =~= self.includes@);
        r
    }

    /// The included mixin names that name neither a concern nor a helper
    /// module, in order: each is reported as a warning, not an error.
    pub fn missing_includes(&self, app_data: &AppData) -> (r: Vec<String>)
        ensures
            views(r@) == missing_of(*app_data, self.includes@),
    {
        let mut r: Vec<String> = Vec::new();
        let mut i: usize = self.includes.len();
        while i > 0
            invariant
                i <= self.includes.len(),
                views(r@) == missing_of(*app_data, self.includes@.subrange(i as int, self.includes@.len() as int)),
            decreases i,
        {
            i = i - 1;
            let ghost rv = views(r@);
            assert(self.includes@.subrange(i as int, self.includes@.len() as int).drop_first() =~= self.includes@.subrange(i + 1, self.includes@.len() as int));
            let name = self.includes[i].as_str();
            if !app_data.concerns.contains_key(name) && !app_data.helpers.contains_key(name) {
                let mut one = vec![self.includes[i].clone()];
                one.append(&mut r);
                r = one;
                assert(views(r@) =~= seq![self.includes@[i as int]@] + rv);
            }
        }
        assert(self.includes@.subrange(0, self.includes@.len() as int) =~= self.includes@);
        r
    }

    /// The controller's effective methods: its own, then the inherited ones,
    /// then the included ones, without removing repeated names.
    pub fn get_all_methods(&self, app_data: &AppData) -> (r: Vec<MethodDetails>)
        ensures
            method_views(r@) == method_views(self.methods@) + self.inherited_methods(*app_data)
                + included_of(*app_data, self.includes@),
            method_views(r@) == self.all_methods(*app_data),
    {
        let seen = vec![self.name.clone()];
        proof {
            lemma_one_name_set(seen@, self.name@);
        }
        all_methods_from(self, app_data, &seen, app_data.controllers.len())
    }
}

proof fn lemma_one_name_set(s: Seq<String>, name: Seq<char>)
    requires
        s.len() == 1,
        s[0]@ == name,
    ensures
        views(s).to_set() == set![name],
{
    assert forall|x| views(s).to_set().contains(x) <==> set![name].contains(x) by {
        if x == name {
            assert(views(s)[0] == x);
        }
    }
    assert(views(s).to_set() =~= set![name]);
}

fn contains_string(v: &Vec<String>, s: &String) -> (r: bool)
    ensures
        r == views(v@).to_set().contains(s@),
{
    let mut i: usize = 0;
    while i < v.len()
        invariant
            i <= v.len(),
            forall|j: int| 0 <= j < i ==> v@[j]@ != s@,
        decreases v.len() - i,
    {
        if v[i] == *s {
            assert(views(v@)[i as int] == s@);
            return true;
        }
        i = i + 1;
    }
    assert(!views(v@).contains(s@)) by {
        if views(v@).contains(s@) {
            let j = choose|j: int| 0 <= j < views(v@).len() && views(v@)[j] == s@;
            assert(v@[j]@ == s@);
        }
    }
    false
}

fn all_methods_from(c: &Controller, data: &AppData, seen: &Vec<String>, fuel: usize) -> (r: Vec<MethodDetails>)
    ensures
        method_views(r@) == all_methods_of(*data, *c, views(seen@).to_set(), fuel as nat),
    decreases fuel, 1nat,
{
    let mut r = clone_methods(&c.methods);
    let ghost own = method_views(r@);
    let mut inherited = inherited_from(c, data, seen, fuel);
    let ghost inh = method_views(inherited@);
    let mut included = c.get_included_methods(data);
    let ghost inc = method_views(included@);
    r.append(&mut inherited);
    r.append(&mut included);
    assert(method_views(r@) =~= own + inh + inc);
    r
}

fn inherited_from(c: &Controller, data: &AppData, seen: &Vec<String>, fuel: usize) -> (r: Vec<MethodDetails>)
    ensures
        method_views(r@) == inherited_of(*data, *c, views(seen@).to_set(), fuel as nat),
    decreases fuel, 0nat,
{
    if fuel == 0 {
        return Vec::new();
    }
    match data.controllers.get(c.parent.as_str()) {
        Some(p) => {
            if contains_string(seen, &c.parent) {
                Vec::new()
            } else {
                let mut next_seen = clone_strings(seen);
                next_seen.push(c.parent.clone());
                proof {
                    assert(views(next_seen@) =~= views(seen@).push(c.parent@));
                    assert(views(next_seen@).to_set() =~= views(seen@).to_set().insert(c.parent@)) by {
                        assert forall|x| views(next_seen@).to_set().contains(x) <==> views(seen@).to_set().insert(c.parent@).contains(x) by {
                            if views(seen@).contains(x) {
                                let j = choose|j: int| 0 <= j < views(seen@).len() && views(seen@)[j] == x;
                                assert(views(next_seen@)[j] == x);
                            }
                            if views(next_seen@).contains(x) {
                                let j = choose|j: int| 0 <= j < views(next_seen@).len() && views(next_seen@)[j] == x;
                                if j < views(seen@).len() {
                                    assert(views(seen@)[j] == x);
                                }
                            }
                            if x == c.parent@ {
                                assert(views(next_seen@)[views(seen@).len() as int] == x);
                            }
                        }
                    }
                }
                all_methods_from(p, data, &next_seen, fuel - 1)
            }
        },
        None => Vec::new(),
    }
}

// ---------------------------------------------------------------------------
// Transitive parameter sets.

/// Whether the parameters of `sub`, called from `m`, are taken in: all but
/// when `sub` makes exactly the calls that `m` makes while declaring other
/// arguments, the shape of an accessor reached through itself.
pub open spec fn follows(m: MethodView, sub: MethodView) -> bool {
    !(sub.facts.method_calls == m.facts.method_calls && sub.args != m.args)
}

/// The parameters of `m` and, through each call that names a method of
/// `ctx`, those of the callee, unless the callee is in `visited` or is not
/// followed; `fuel` bounds the depth.
pub open spec fn params_of(ctx: Seq<MethodView>, m: MethodView, visited: Set<Seq<char>>, fuel: nat) -> Set<
    Seq<char>,
>
    decreases fuel, m.facts.method_calls.len() + 1,
{
    m.facts.params.to_set().union(calls_params(ctx, m, m.facts.method_calls, visited, fuel))
}

/// The parameters reached through the calls.
pub open spec fn calls_params(
    ctx: Seq<MethodView>,
    m: MethodView,
    calls: Seq<(Seq<char>, Seq<Seq<char>>)>,
    visited: Set<Seq<char>>,
    fuel: nat,
) -> Set<Seq<char>>
    decreases fuel, calls.len(),
{
    if calls.len() == 0 {
        Set::empty()
    } else {
        let rest = calls_params(ctx, m, calls.drop_first(), visited, fuel);
        match first_named(ctx, calls[0].0) {
            Some(sub) => if fuel > 0 && follows(m, sub) && !visited.contains(sub.name) {
                params_of(ctx, sub, visited.insert(sub.name), (fuel - 1) as nat).union(rest)
            } else {
                rest
            },
            None => rest,
        }
    }
}

/// The transitive parameters of `m` among the methods `ctx`.
pub open spec fn closure(ctx: Seq<MethodView>, m: MethodView) -> Set<Seq<char>> {
    params_of(ctx, m, set![m.name], ctx.len())
}

/// The message of a failed resolution: it names the missing action, the
/// controller and the request.
pub open spec fn not_found(action: Seq<char>, controller: Seq<char>, request: Seq<char>) -> Seq<char> {
    "ERROR: action "@ + action + " not found in controller "@ + controller + " for request "@
        + request
}

/// The parameters of the hook targets added to `acc`, or the message for the
/// first target that is not a method of `ctx`.
pub open spec fn hooks_params(
    ctx: Seq<MethodView>,
    hooks: Seq<(ActionKinds, String)>,
    acc: Set<Seq<char>>,
    controller: Seq<char>,
    request: Seq<char>,
) -> Result<Set<Seq<char>>, Seq<char>>
    decreases hooks.len(),
{
    if hooks.len() == 0 {
        Ok(acc)
    } else {
        match first_named(ctx, hooks[0].1@) {
            Some(h) => hooks_params(
                ctx,
                hooks.drop_first(),
                acc.union(closure(ctx, h)),
                controller,
                request,
            ),
            None => Err(not_found(hooks[0].1@, controller, request)),
        }
    }
}

/// The parameters of an endpoint: those of the action and of every hook
/// target, or the message for the action or hook target that is missing.
pub open spec fn endpoint_of(c: Controller, data: AppData, action: Seq<char>, request: Seq<char>) -> Result<
    Set<Seq<char>>,
    Seq<char>,
> {
    let all = c.all_methods(data);
    match first_named(all, action) {
        Some(m) => hooks_params(all, c.actions@, closure(all, m), c.name@, request),
        None => Err(not_found(action, c.name@, request)),
    }
}

/// Builds the message of a failed resolution.
pub fn not_found_message(action: &str, controller: &str, request: &str) -> (r: String)
    ensures
        r@ == not_found(action@, controller@, request@),
{
    let mut r = "ERROR: action ".to_owned();
    r.append(action);
    r.append(" not found in controller ");
    r.append(controller);
    r.append(" for request ");
    r.append(request);
    r
}

/// The position of the first method named `name`.
fn find_named(v: &Vec<MethodDetails>, name: &str) -> (r: Option<usize>)
    ensures
        match first_named(method_views(v@), name@) {
            Some(m) => r is Some && r->0 < v@.len() && v@[r->0 as int]@ == m,
            None => r is None,
        },
{
    let ghost mv = method_views(v@);
    let mut i: usize = 0;
    assert(mv.subrange(0, mv.len() as int) =~= mv);
    while i < v.len()
        invariant
            i <= v.len(),
            mv == method_views(v@),
            first_named(mv.subrange(i as int, mv.len() as int), name@) == first_named(mv, name@),
        decreases v.len() - i,
    {
        assert(mv.subrange(i as int, mv.len() as int).drop_first() =~= mv.subrange(i + 1, mv.len() as int));
        if str_eq(v[i].name.as_str(), name) {
            return Some(i);
        }
        i = i + 1;
    }
    assert(mv.subrange(i as int, mv.len() as int) =~= Seq::<MethodView>::empty());
    None
}

fn same_strings(a: &Vec<String>, b: &Vec<String>) -> (r: bool)
    ensures
        r == (views(a@) == views(b@)),
{
    if a.len() != b.len() {
        assert(views(a@).len() != views(b@).len());
        return false;
    }
    let mut i: usize = 0;
    while i < a.len()
        invariant
            i <= a.len(),
            a.len() == b.len(),
            forall|j: int| 0 <= j < i ==> views(a@)[j] == views(b@)[j],
        decreases a.len() - i,
    {
        if a[i] != b[i] {
            assert(views(a@)[i as int] != views(b@)[i as int]);
            return false;
        }
        i = i + 1;
    }
    assert(views(a@) =~= views(b@));
    true
}

fn same_calls(a: &Vec<(String, Vec<String>)>, b: &Vec<(String, Vec<String>)>) -> (r: bool)
    ensures
        r == (call_views(a@) == call_views(b@)),
{
    if a.len() != b.len() {
        assert(call_views(a@).len() != call_views(b@).len());
        return false;
    }
    let mut i: usize = 0;
    while i < a.len()
        invariant
            i <= a.len(),
            a.len() == b.len(),
            forall|j: int| 0 <= j < i ==> call_views(a@)[j] == call_views(b@)[j],
        decreases a.len() - i,
    {
        if a[i].0 != b[i].0 || !same_strings(&a[i].1, &b[i].1) {
            assert(call_views(a@)[i as int] != call_views(b@)[i as int]);
            return false;
        }
        i = i + 1;
    }
    assert(call_views(a@) =~= call_views(b@));
    true
}

fn add_names(v: &Vec<String>, name: &String) -> (r: Vec<String>)
    ensures
        views(r@).to_set() == views(v@).to_set().insert(name@),
{
    let mut r = clone_strings(v);
    r.push(name.clone());
    proof {
        let a = views(v@);
        let b = views(r@);
        assert(b =~= a.push(name@));
        assert forall|x| b.to_set().contains(x) <==> a.to_set().insert(name@).contains(x) by {
            if a.contains(x) {
                let j = choose|j: int| 0 <= j < a.len() && a[j] == x;
                assert(b[j] == x);
            }
            if b.contains(x) {
                let j = choose|j: int| 0 <= j < b.len() && b[j] == x;
                if j < a.len() {
                    assert(a[j] == x);
                }
            }
            if x == name@ {
                assert(b[a.len() as int] == x);
            }
        }
        assert(b.to_set() =~= a.to_set().insert(name@));
    }
    r
}

/// Adds the transitive parameters of `m` to `out`.
fn collect_params(
    ctx: &Vec<MethodDetails>,
    m: &MethodDetails,
    visited: &Vec<String>,
    fuel: usize,
    out: &mut Vec<String>,
)
    ensures
        views(final(out)@).to_set() == views(old(out)@).to_set().union(
            params_of(method_views(ctx@), m@, views(visited@).to_set(), fuel as nat),
        ),
        views(old(out)@).no_duplicates() ==> views(final(out)@).no_duplicates(),
    decreases fuel,
{
    let ghost cv = method_views(ctx@);
    let ghost vis = views(visited@).to_set();
    let ghost calls = m@.facts.method_calls;
    let ghost start = views(out@).to_set();
    let ghost target = start.union(params_of(cv, m@, vis, fuel as nat));
    let ghost before = views(out@);
    insert_strings(out, clone_strings(&m.params));
    proof {
        lemma_insert_keys_set(before, m@.facts.params);
        assert(calls.subrange(0, calls.len() as int) =~= calls);
        assert(views(out@).to_set().union(calls_params(cv, m@, calls, vis, fuel as nat)) =~= target);
    }
    let mut i: usize = 0;
    while i < m.method_calls.len()
        invariant
            i <= m.method_calls.len(),
            cv == method_views(ctx@),
            vis == views(visited@).to_set(),
            calls == m@.facts.method_calls,
            calls.len() == m.method_calls@.len(),
            views(out@).to_set().union(
                calls_params(cv, m@, calls.subrange(i as int, calls.len() as int), vis, fuel as nat),
            ) == target,
            views(old(out)@).no_duplicates() ==> views(out@).no_duplicates(),
        decreases m.method_calls.len() - i,
    {
        let ghost sub_calls = calls.subrange(i as int, calls.len() as int);
        assert(sub_calls.drop_first() =~= calls.subrange(i + 1, calls.len() as int));
        assert(sub_calls[0].0 == m.method_calls@[i as int].0@);
        let ghost rest = calls_params(cv, m@, sub_calls.drop_first(), vis, fuel as nat);
        let ghost mid = views(out@).to_set();
        match find_named(ctx, m.method_calls[i].0.as_str()) {
            Some(j) => {
                let sub = &ctx[j];
                let follow = !(same_calls(&sub.method_calls, &m.method_calls) && !same_strings(
                    &sub.args,
                    &m.args,
                ));
                if fuel > 0 && follow && !contains_string(visited, &sub.name) {
                    let next_visited = add_names(visited, &sub.name);
                    collect_params(ctx, sub, &next_visited, fuel - 1, out);
                    assert(views(out@).to_set().union(rest) =~= mid.union(
                        calls_params(cv, m@, sub_calls, vis, fuel as nat),
                    ));
                }
            },
            None => {},
        }
        i = i + 1;
    }
    assert(calls.subrange(i as int, calls.len() as int) =~= Seq::<(Seq<char>, Seq<Seq<char>>)>::empty());
    assert(views(out@).to_set().union(Set::empty()) =~= views(out@).to_set());
}

impl Controller {
    /// The effective method named `name`: the first in the order of
    /// `get_all_methods`.
    pub fn get_method_by_name(&self, name: &str, app_data: &AppData) -> (r: Option<MethodDetails>)
        ensures
            match first_named(self.all_methods(*app_data), name@) {
                Some(m) => r is Some && r->0@ == m,
                None => r is None,
            },
    {
        let all = self.get_all_methods(app_data);
        match find_named(&all, name) {
            Some(i) => Some(all[i].clone()),
            None => None,
        }
    }

    /// The parameters of `method` and, transitively, of the effective
    /// methods that it calls (see `follows`), each once.
    pub fn get_method_params(&self, method: &MethodDetails, app_data: &AppData) -> (r: Vec<String>)
        ensures
            views(r@).to_set() == closure(self.all_methods(*app_data), method@),
            views(r@).no_duplicates(),
    {
        let all = self.get_all_methods(app_data);
        params_for(&all, method)
    }

    /// The parameters that serving `action` touches: those of the action and
    /// of every hook target, transitively. Fails, naming the missing method,
    /// this controller and `request`, where the action or a hook target is not
    /// an effective method.
    pub fn endpoint_params(&self, action: &str, app_data: &AppData, request: &str) -> (r: Result<
        Vec<String>,
        String,
    >)
        ensures
            match endpoint_of(*self, *app_data, action@, request@) {
                Ok(s) => r is Ok && views(r->Ok_0@).to_set() == s && views(r->Ok_0@).no_duplicates(),
                Err(e) => r is Err && r->Err_0@ == e,
            },
    {
        let all = self.get_all_methods(app_data);
        let ghost cv = method_views(all@);
        let mut params = match find_named(&all, action) {
            Some(i) => params_for(&all, &all[i]),
            None => return Err(not_found_message(action, self.name.as_str(), request)),
        };
        let ghost hooks = self.actions@;
        let mut k: usize = 0;
        assert(hooks.subrange(0, hooks.len() as int) =~= hooks);
        while k < self.actions.len()
            invariant
                k <= self.actions.len(),
                hooks == self.actions@,
                cv == method_views(all@),
                cv == self.all_methods(*app_data),
                views(params@).no_duplicates(),
                hooks_params(cv, hooks.subrange(k as int, hooks.len() as int), views(params@).to_set(), self.name@, request@)
                    == endpoint_of(*self, *app_data, action@, request@),
            decreases self.actions.len() - k,
        {
            assert(hooks.subrange(k as int, hooks.len() as int).drop_first() =~= hooks.subrange(k + 1, hooks.len() as int));
            let target = &self.actions[k].1;
            match find_named(&all, target.as_str()) {
                Some(i) => {
                    let more = params_for(&all, &all[i]);
                    let ghost before = views(params@);
                    insert_strings(&mut params, more);
                    proof {
                        lemma_insert_keys_set(before, views(more@));
                    }
                },
                None => return Err(not_found_message(target.as_str(), self.name.as_str(), request)),
            }
            k = k + 1;
        }
        assert(hooks.subrange(k as int, hooks.len() as int) =~= Seq::<(ActionKinds, String)>::empty());
        Ok(params)
    }
}

/// The transitive parameters of `m` among the methods `all`.
fn params_for(all: &Vec<MethodDetails>, m: &MethodDetails) -> (r: Vec<String>)
    ensures
        views(r@).to_set() == closure(method_views(all@), m@),
        views(r@).no_duplicates(),
{
    let visited = vec![m.name.clone()];
    proof {
        lemma_one_name_set(visited@, m.name@);
    }
    let mut out: Vec<String> = Vec::new();
    assert(views(out@).no_duplicates()) by {
        assert(views(out@).len() == 0);
    }
    collect_params(all, m, &visited, all.len(), &mut out);
    assert(views(out@).to_set() =~= Set::<Seq<char>>::empty().union(closure(method_views(all@), m@)));
    out
}

impl AppData {
    /// The parameters of an endpoint of the controller registered under
    /// `controller`; fails, naming the action, the controller and `request`,
    /// where no such controller is registered.
    pub fn endpoint_params(&self, controller: &str, action: &str, request: &str) -> (r: Result<
        Vec<String>,
        String,
    >)
        ensures
            self.controllers@.contains_key(controller@) ==> match endpoint_of(
                self.controllers@[controller@],
                *self,
                action@,
                request@,
            ) {
                Ok(s) => r is Ok && views(r->Ok_0@).to_set() == s,
                Err(e) => r is Err && r->Err_0@ == e,
            },
            r is Ok ==> views(r->Ok_0@).no_duplicates(),
            !self.controllers@.contains_key(controller@) ==> r is Err && r->Err_0@ == not_found(
                action@,
                controller@,
                request@,
            ),
    {
        match self.controllers.get(controller) {
            Some(c) => c.endpoint_params(action, self, request),
            None => Err(not_found_message(action, controller, request)),
        }
    }
}

// ---------------------------------------------------------------------------
// Merging classified declarations.

/// The controllers of `m` after registering, in order, those among `ds`.
pub open spec fn merged_controllers(m: Map<Seq<char>, Controller>, ds: Seq<Declaration>) -> Map<Seq<char>, Controller>
    decreases ds.len(),
{
    if ds.len() == 0 {
        m
    } else {
        match ds[0] {
            Declaration::Controller(c) => merged_controllers(m.insert(c.name@, c), ds.drop_first()),
            _ => merged_controllers(m, ds.drop_first()),
        }
    }
}

/// The concerns of `m` after registering, in order, those among `ds`.
pub open spec fn merged_concerns(m: Map<Seq<char>, Concern>, ds: Seq<Declaration>) -> Map<Seq<char>, Concern>
    decreases ds.len(),
{
    if ds.len() == 0 {
        m
    } else {
        match ds[0] {
            Declaration::Concern(c) => merged_concerns(m.insert(c.name@, c), ds.drop_first()),
            _ => merged_concerns(m, ds.drop_first()),
        }
    }
}

/// The helper modules of `m` after registering, in order, those among `ds`.
pub open spec fn merged_helpers(m: Map<Seq<char>, HelperModule>, ds: Seq<Declaration>) -> Map<Seq<char>, HelperModule>
    decreases ds.len(),
{
    if ds.len() == 0 {
        m
    } else {
        match ds[0] {
            Declaration::Module(h) => merged_helpers(m.insert(h.name@, h), ds.drop_first()),
            _ => merged_helpers(m, ds.drop_first()),
        }
    }
}

impl AppData {
    /// Registers each declaration of a classified unit in order, a later one
    /// replacing an earlier one of the same kind and name.
    pub fn add_declarations(&mut self, decls: Vec<Declaration>)
        ensures
            final(self).controllers@ == merged_controllers(old(self).controllers@, decls@),
            final(self).concerns@ == merged_concerns(old(self).concerns@, decls@),
            final(self).helpers@ == merged_helpers(old(self).helpers@, decls@),
            final(self).routes == old(self).routes,
            final(self).views == old(self).views,
    {
        let mut ds = decls;
        while ds.len() > 0
            invariant
                merged_controllers(self.controllers@, ds@) == merged_controllers(old(self).controllers@, decls@),
                merged_concerns(self.concerns@, ds@) == merged_concerns(old(self).concerns@, decls@),
                merged_helpers(self.helpers@, ds@) == merged_helpers(old(self).helpers@, decls@),
                self.routes == old(self).routes,
                self.views == old(self).views,
            decreases ds.len(),
        {
            let ghost before = ds@;
            let d = ds.remove(0);
            assert(ds@ =~= before.drop_first());
            match d {
                Declaration::Controller(c) => self.insert_controller(c),
                Declaration::Concern(c) => self.insert_concern(c),
                Declaration::Module(h) => self.insert_helper(h),
            }
        }
    }
}

// ---------------------------------------------------------------------------
// Laws of resolution.

proof fn lemma_first_named_in(s: Seq<MethodView>, name: Seq<char>)
    ensures
        first_named(s, name) is Some ==> exists|i: int| 0 <= i < s.len() && s[i] == first_named(s, name)->0,
    decreases s.len(),
{
    if s.len() > 0 && s[0].name != name {
        lemma_first_named_in(s.drop_first(), name);
        if first_named(s.drop_first(), name) is Some {
            let i = choose|i: int| 0 <= i < s.len() - 1 && s.drop_first()[i] == first_named(s, name)->0;
            assert(s[i + 1] == first_named(s, name)->0);
        }
    } else if s.len() > 0 {
        assert(s[0] == first_named(s, name)->0);
    }
}

proof fn lemma_params_of_empty(ctx: Seq<MethodView>, m: MethodView, visited: Set<Seq<char>>, fuel: nat)
    requires
        m.facts.params.len() == 0,
        forall|i: int| 0 <= i < ctx.len() ==> (#[trigger] ctx[i]).facts.params.len() == 0,
    ensures
        params_of(ctx, m, visited, fuel) == Set::<Seq<char>>::empty(),
    decreases fuel, m.facts.method_calls.len() + 1,
{
    lemma_calls_params_empty(ctx, m, m.facts.method_calls, visited, fuel);
    assert(m.facts.params.to_set() =~= Set::<Seq<char>>::empty());
    assert(params_of(ctx, m, visited, fuel) =~= Set::<Seq<char>>::empty());
}

proof fn lemma_calls_params_empty(
    ctx: Seq<MethodView>,
    m: MethodView,
    calls: Seq<(Seq<char>, Seq<Seq<char>>)>,
    visited: Set<Seq<char>>,
    fuel: nat,
)
    requires
        forall|i: int| 0 <= i < ctx.len() ==> (#[trigger] ctx[i]).facts.params.len() == 0,
    ensures
        calls_params(ctx, m, calls, visited, fuel) == Set::<Seq<char>>::empty(),
    decreases fuel, calls.len(),
{
    if calls.len() > 0 {
        lemma_calls_params_empty(ctx, m, calls.drop_first(), visited, fuel);
        lemma_first_named_in(ctx, calls[0].0);
        if let Some(sub) = first_named(ctx, calls[0].0) {
            if fuel > 0 && follows(m, sub) && !visited.contains(sub.name) {
                let i = choose|i: int| 0 <= i < ctx.len() && ctx[i] == sub;
                assert(ctx[i].facts.params.len() == 0);
                lemma_params_of_empty(ctx, sub, visited.insert(sub.name), (fuel - 1) as nat);
                assert(calls_params(ctx, m, calls, visited, fuel) =~= Set::<Seq<char>>::empty());
            }
        }
    }
}

/// A method that reads no parameter, in a controller whose effective
/// methods read none either, has no transitive parameters.
pub proof fn lemma_params_for_without_access(c: Controller, data: AppData, m: MethodView)
    requires
        m.facts.params.len() == 0,
        forall|i: int|
            0 <= i < c.all_methods(data).len() ==> (#[trigger] c.all_methods(data)[i]).facts.params.len() == 0,
    ensures
        closure(c.all_methods(data), m) == Set::<Seq<char>>::empty(),
{
    let ctx = c.all_methods(data);
    lemma_params_of_empty(ctx, m, set![m.name], ctx.len());
}

/// A mixin name that names neither a concern nor a helper module is reported
/// as missing, and the methods of the other mixins are found as if it were
/// not there.
pub proof fn lemma_missing_mixin_skipped(data: AppData, names: Seq<String>, i: int)
    requires
        0 <= i < names.len(),
        !data.concerns@.contains_key(names[i]@),
        !data.helpers@.contains_key(names[i]@),
    ensures
        included_of(data, names) == included_of(data, names.remove(i)),
        missing_of(data, names).contains(names[i]@),
    decreases i,
{
    if i == 0 {
        assert(names.remove(0) =~= names.drop_first());
        assert(mixin_methods(data, names[0]@) =~= Seq::<MethodView>::empty());
        assert(included_of(data, names) =~= included_of(data, names.drop_first()));
        assert(missing_of(data, names)[0] == names[0]@);
    } else {
        lemma_missing_mixin_skipped(data, names.drop_first(), i - 1);
        assert(names.remove(i).drop_first() =~= names.drop_first().remove(i - 1));
        assert(names.remove(i)[0] == names[0]);
        assert(names.drop_first()[i - 1] == names[i]);
        let rest = missing_of(data, names.drop_first());
        let j = choose|j: int| 0 <= j < rest.len() && rest[j] == names[i]@;
        if data.concerns@.contains_key(names[0]@) || data.helpers@.contains_key(names[0]@) {
            assert(missing_of(data, names)[j] == names[i]@);
        } else {
            assert(missing_of(data, names)[j + 1] == names[i]@);
        }
    }
}

/// Resolving an action that is not an effective method fails with the
/// message that names the action, the controller and the request.
pub proof fn lemma_missing_action_error(c: Controller, data: AppData, action: Seq<char>, request: Seq<char>)
    requires
        first_named(c.all_methods(data), action) is None,
    ensures
        endpoint_of(c, data, action, request) == Err::<Set<Seq<char>>, Seq<char>>(
            not_found(action, c.name@, request),
        ),
        not_found(action, c.name@, request) == "ERROR: action "@ + action + " not found in controller "@
            + c.name@ + " for request "@ + request,
{
}

} // verus!
