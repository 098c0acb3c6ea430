//! Keeping the open data routes in line with the configuration: which
//! aliases to open, which to reopen because their route changed, and which
//! to close; and, for a changed route, which of its database and cache to
//! reopen.
use vstd::prelude::*;
use crate::config::config::{DBRoute, MemRoute, DataRoute};
use crate::text::str_eq;

verus! {

pub open spec fn db_route_view(d: DBRoute) -> (Seq<char>, Seq<char>, Seq<char>, Seq<char>, i32, Seq<char>) {
    (d.engine@, d.user@, d.passwd@, d.address@, d.port, d.name@)
}

pub open spec fn mem_route_view(m: MemRoute) -> (Seq<char>, i32, i32, i64, Seq<char>) {
    (m.host@, m.port, m.db, m.expire, m.pass@)
}

pub open spec fn mem_option_view(m: Option<MemRoute>) -> Option<(Seq<char>, i32, i32, i64, Seq<char>)> {
    match m {
        Some(r) => Some(mem_route_view(r)),
        None => None,
    }
}

/// Every field of two database routes agrees.
pub open spec fn db_fields_agree(a: DBRoute, b: DBRoute) -> bool {
    &&& a.engine@ == b.engine@
    &&& a.user@ == b.user@
    &&& a.passwd@ == b.passwd@
    &&& a.address@ == b.address@
    &&& a.port == b.port
    &&& a.name@ == b.name@
}

/// Both cache routes are absent, or both are present and every field agrees.
pub open spec fn mem_fields_agree(a: Option<MemRoute>, b: Option<MemRoute>) -> bool {
    match (a, b) {
        (None, None) => true,
        (Some(x), Some(y)) => {
            &&& x.host@ == y.host@
            &&& x.port == y.port
            &&& x.db == y.db
            &&& x.expire == y.expire
            &&& x.pass@ == y.pass@
        },
        _ => false,
    }
}

/// Two database routes count as the same exactly when every one of their
/// fields agrees (engine, user, password, address, port and database
/// name); two optional cache routes exactly when both are absent or every
/// field agrees (host, port, database number, expiry and password).  So a
/// route that changes in any field is reopened.
pub proof fn lemma_routes_same_iff_fields_agree(a: DataRoute, b: DataRoute)
    ensures
        (db_route_view(a.db) == db_route_view(b.db)) <==> db_fields_agree(a.db, b.db),
        (mem_option_view(a.mem) == mem_option_view(b.mem)) <==> mem_fields_agree(a.mem, b.mem),
        same_route(a, b) <==> (db_fields_agree(a.db, b.db) && mem_fields_agree(a.mem, b.mem)),
{
}

/// Two data routes name the same database and the same cache.
pub open spec fn same_route(a: DataRoute, b: DataRoute) -> bool {
    db_route_view(a.db) == db_route_view(b.db) && mem_option_view(a.mem) == mem_option_view(b.mem)
}

/// Whether two database routes are the same.
pub fn db_route_eq(a: &DBRoute, b: &DBRoute) -> (r: bool)
    ensures
        r == (db_route_view(*a) == db_route_view(*b)),
        r == db_fields_agree(*a, *b),
{
    str_eq(a.engine.as_str(), b.engine.as_str()) && str_eq(a.user.as_str(), b.user.as_str()) && str_eq(
        a.passwd.as_str(),
        b.passwd.as_str(),
    ) && str_eq(a.address.as_str(), b.address.as_str()) && a.port == b.port && str_eq(
        a.name.as_str(),
        b.name.as_str(),
    )
}

/// Whether two optional cache routes are the same.
pub fn mem_route_eq(a: &Option<MemRoute>, b: &Option<MemRoute>) -> (r: bool)
    ensures
        r == (mem_option_view(*a) == mem_option_view(*b)),
        r == mem_fields_agree(*a, *b),
{
    match (a, b) {
        (Some(x), Some(y)) => str_eq(x.host.as_str(), y.host.as_str()) && x.port == y.port && x.db
            == y.db && x.expire == y.expire && str_eq(x.pass.as_str(), y.pass.as_str()),
        (None, None) => true,
        _ => false,
    }
}

/// Whether two data routes are the same.
pub fn data_route_eq(a: &DataRoute, b: &DataRoute) -> (r: bool)
    ensures
        r == same_route(*a, *b),
        r == (db_fields_agree(a.db, b.db) && mem_fields_agree(a.mem, b.mem)),
{
    db_route_eq(&a.db, &b.db) && mem_route_eq(&a.mem, &b.mem)
}

/// Which parts of an open route to reopen for its new configuration: the
/// database when its route changed, the cache when its route changed.
pub fn route_changes(old: &DataRoute, new: &DataRoute) -> (r: (bool, bool))
    ensures
        r.0 == (db_route_view(old.db) != db_route_view(new.db)),
        r.1 == (mem_option_view(old.mem) != mem_option_view(new.mem)),
        r.0 == !db_fields_agree(old.db, new.db),
        r.1 == !mem_fields_agree(old.mem, new.mem),
{
    (!db_route_eq(&old.db, &new.db), !mem_route_eq(&old.mem, &new.mem))
}

/// What to do with one alias.
#[derive(Clone, Debug, PartialEq, Eq)]
pub enum RouteAction {
    /// Reconfigure the open route of the alias.
    Update(String),
    /// Open a route for the alias.
    Create(String),
    /// Close the route of the alias.
    Remove(String),
}

/// A step on the set of open aliases.
pub enum Step {
    Update(Seq<char>),
    Create(Seq<char>),
    Remove(Seq<char>),
}

pub open spec fn step_of(a: RouteAction) -> Step {
    match a {
        RouteAction::Update(s) => Step::Update(s@),
        RouteAction::Create(s) => Step::Create(s@),
        RouteAction::Remove(s) => Step::Remove(s@),
    }
}

/// The route under an alias, the first one listed.
pub open spec fn route_of(list: Seq<(String, DataRoute)>, alias: Seq<char>) -> Option<DataRoute>
    decreases list.len(),
{
    if list.len() == 0 {
        None
    } else if list[0].0@ == alias {
        Some(list[0].1)
    } else {
        route_of(list.drop_first(), alias)
    }
}

/// The aliases of a list of routes.
pub open spec fn alias_set(list: Seq<(String, DataRoute)>) -> Set<Seq<char>> {
    Set::new(|a: Seq<char>| exists|i: int| 0 <= i < list.len() && #[trigger] list[i].0@ == a)
}

proof fn lemma_alias_set_push(list: Seq<(String, DataRoute)>, x: (String, DataRoute))
    ensures
        alias_set(list.push(x)) == alias_set(list).insert(x.0@),
{
    let l2 = list.push(x);
    assert forall|a: Seq<char>| alias_set(l2).contains(a) implies alias_set(list).insert(x.0@).contains(
        a,
    ) by {
        let i = choose|i: int| 0 <= i < l2.len() && #[trigger] l2[i].0@ == a;
        if i < list.len() {
            assert(list[i].0@ == a);
        }
    }
    assert forall|a: Seq<char>| alias_set(list).insert(x.0@).contains(a) implies alias_set(l2).contains(
        a,
    ) by {
        if a == x.0@ {
            assert(l2[list.len() as int].0@ == a);
        } else {
            let i = choose|i: int| 0 <= i < list.len() && #[trigger] list[i].0@ == a;
            assert(l2[i].0@ == a);
        }
    }
    assert(alias_set(l2) =~= alias_set(list).insert(x.0@));
}

/// For each configured alias in order: open it when it is not open, and
/// reconfigure it when it is open with another route.
pub open spec fn wanted_steps(current: Seq<(String, DataRoute)>, wanted: Seq<(String, DataRoute)>) -> Seq<
    Step,
>
    decreases wanted.len(),
{
    if wanted.len() == 0 {
        Seq::empty()
    } else {
        let prev = wanted_steps(current, wanted.drop_last());
        let (alias, route) = wanted.last();
        match route_of(current, alias@) {
            None => prev.push(Step::Create(alias@)),
            Some(open) => if same_route(open, route) {
                prev
            } else {
                prev.push(Step::Update(alias@))
            },
        }
    }
}

/// For each open alias in order that is no longer configured: close it.
pub open spec fn removed_steps(current: Seq<(String, DataRoute)>, wanted: Seq<(String, DataRoute)>) -> Seq<
    Step,
>
    decreases current.len(),
{
    if current.len() == 0 {
        Seq::empty()
    } else {
        let prev = removed_steps(current.drop_last(), wanted);
        let alias = current.last().0@;
        if route_of(wanted, alias) is Some {
            prev
        } else {
            prev.push(Step::Remove(alias))
        }
    }
}

/// The aliases open after the steps, from those open before.
pub open spec fn apply_steps(open: Set<Seq<char>>, steps: Seq<Step>) -> Set<Seq<char>>
    decreases steps.len(),
{
    if steps.len() == 0 {
        open
    } else {
        let prev = apply_steps(open, steps.drop_last());
        match steps.last() {
            Step::Create(a) => prev.insert(a),
            Step::Remove(a) => prev.remove(a),
            Step::Update(_) => prev,
        }
    }
}

proof fn lemma_route_of_in_aliases(list: Seq<(String, DataRoute)>, alias: Seq<char>)
    ensures
        (route_of(list, alias) is Some) == alias_set(list).contains(alias),
    decreases list.len(),
{
    if list.len() > 0 {
        let rest = list.drop_first();
        lemma_route_of_in_aliases(rest, alias);
        if alias_set(list).contains(alias) && list[0].0@ != alias {
            let i = choose|i: int| 0 <= i < list.len() && #[trigger] list[i].0@ == alias;
            assert(rest[i - 1].0@ == alias);
        }
        if alias_set(rest).contains(alias) {
            let i = choose|i: int| 0 <= i < rest.len() && #[trigger] rest[i].0@ == alias;
            assert(list[i + 1].0@ == alias);
        }
        if list[0].0@ == alias {
            assert(list[0].0@ == alias);
        }
    } else {
        assert(!alias_set(list).contains(alias));
    }
}

proof fn lemma_apply_push(open: Set<Seq<char>>, steps: Seq<Step>, x: Step)
    ensures
        apply_steps(open, steps.push(x)) == match x {
            Step::Create(a) => apply_steps(open, steps).insert(a),
            Step::Remove(a) => apply_steps(open, steps).remove(a),
            Step::Update(_) => apply_steps(open, steps),
        },
{
    assert(steps.push(x).drop_last() =~= steps);
}

proof fn lemma_apply_concat(open: Set<Seq<char>>, a: Seq<Step>, b: Seq<Step>)
    ensures
        apply_steps(open, a + b) == apply_steps(apply_steps(open, a), b),
    decreases b.len(),
{
    if b.len() == 0 {
        assert(a + b =~= a);
    } else {
        assert((a + b).drop_last() =~= a + b.drop_last());
        lemma_apply_concat(open, a, b.drop_last());
    }
}

proof fn lemma_wanted_steps_apply(current: Seq<(String, DataRoute)>, wanted: Seq<(String, DataRoute)>)
    ensures
        apply_steps(alias_set(current), wanted_steps(current, wanted)) == alias_set(current).union(
            alias_set(wanted),
        ),
    decreases wanted.len(),
{
    if wanted.len() == 0 {
        assert(alias_set(wanted) =~= Set::empty());
        assert(alias_set(current).union(alias_set(wanted)) =~= alias_set(current));
    } else {
        let w = wanted.drop_last();
        lemma_wanted_steps_apply(current, w);
        let alias = wanted.last().0@;
        lemma_route_of_in_aliases(current, alias);
        assert(wanted =~= w.push(wanted.last()));
        lemma_alias_set_push(w, wanted.last());
        let prev = wanted_steps(current, w);
        let c = alias_set(current);
        match route_of(current, alias) {
            None => {
                lemma_apply_push(c, prev, Step::Create(alias));
            },
            Some(open) => {
                if !same_route(open, wanted.last().1) {
                    lemma_apply_push(c, prev, Step::Update(alias));
                }
                assert(c.union(alias_set(w)).insert(alias) =~= c.union(alias_set(w)));
            },
        }
        assert(alias_set(current).union(alias_set(wanted)) =~= alias_set(current).union(
            alias_set(w),
        ).insert(alias));
    }
}

proof fn lemma_removed_steps_apply(
    open: Set<Seq<char>>,
    current: Seq<(String, DataRoute)>,
    wanted: Seq<(String, DataRoute)>,
)
    ensures
        apply_steps(open, removed_steps(current, wanted)) == open.difference(
            alias_set(current).difference(alias_set(wanted)),
        ),
    decreases current.len(),
{
    if current.len() == 0 {
        assert(alias_set(current) =~= Set::empty());
        assert(open.difference(alias_set(current).difference(alias_set(wanted))) =~= open);
    } else {
        let c = current.drop_last();
        lemma_removed_steps_apply(open, c, wanted);
        let alias = current.last().0@;
        lemma_route_of_in_aliases(wanted, alias);
        assert(current =~= c.push(current.last()));
        lemma_alias_set_push(c, current.last());
        let prev = removed_steps(c, wanted);
        if route_of(wanted, alias) is None {
            lemma_apply_push(open, prev, Step::Remove(alias));
        }
        if alias_set(wanted).contains(alias) {
            assert(alias_set(current).difference(alias_set(wanted)) =~= alias_set(c).difference(
                alias_set(wanted),
            ));
        } else {
            assert(open.difference(alias_set(current).difference(alias_set(wanted))) =~= open.difference(
                alias_set(c).difference(alias_set(wanted)),
            ).remove(alias));
        }
    }
}

/// Reconciling the open routes with the configuration leaves open exactly
/// the configured aliases: applying the planned steps to the open aliases
/// gives the configured ones (when every route that is to be opened opens).
pub proof fn lemma_plan_reaches_configuration(
    current: Seq<(String, DataRoute)>,
    wanted: Seq<(String, DataRoute)>,
)
    ensures
        apply_steps(
            alias_set(current),
            wanted_steps(current, wanted) + removed_steps(current, wanted),
        ) == alias_set(wanted),
{
    lemma_apply_concat(alias_set(current), wanted_steps(current, wanted), removed_steps(current, wanted));
    lemma_wanted_steps_apply(current, wanted);
    lemma_removed_steps_apply(
        alias_set(current).union(alias_set(wanted)),
        current,
        wanted,
    );
    assert(alias_set(current).union(alias_set(wanted)).difference(
        alias_set(current).difference(alias_set(wanted)),
    ) =~= alias_set(wanted));
}

proof fn lemma_contains_push(s: Seq<Step>, x: Step, y: Step)
    ensures
        s.push(x).contains(y) <==> (s.contains(y) || x == y),
{
    if s.push(x).contains(y) {
        let k = choose|k: int| 0 <= k < s.push(x).len() && s.push(x)[k] == y;
        if k < s.len() {
            assert(s[k] == y);
        }
    }
    if s.contains(y) {
        let k = choose|k: int| 0 <= k < s.len() && s[k] == y;
        assert(s.push(x)[k] == y);
    }
    if x == y {
        assert(s.push(x)[s.len() as int] == y);
    }
}

/// Whether `a` is open with a route that differs from `r` in some field.
spec fn open_differently(current: Seq<(String, DataRoute)>, a: Seq<char>, r: DataRoute) -> bool {
    route_of(current, a) matches Some(o) && !(db_fields_agree(o.db, r.db) && mem_fields_agree(o.mem, r.mem))
}

/// The plan's steps for the configured aliases: an alias is opened exactly
/// when it is configured and not open, and reconfigured exactly when it is
/// configured and open with a route that differs in some field; none is
/// closed here.
pub proof fn lemma_wanted_steps_members(
    current: Seq<(String, DataRoute)>,
    wanted: Seq<(String, DataRoute)>,
    a: Seq<char>,
)
    ensures
        wanted_steps(current, wanted).contains(Step::Create(a)) <==> (route_of(current, a) is None && exists|i: int|
            0 <= i < wanted.len() && #[trigger] wanted[i].0@ == a),
        wanted_steps(current, wanted).contains(Step::Update(a)) <==> (exists|i: int|
            0 <= i < wanted.len() && #[trigger] wanted[i].0@ == a && (route_of(current, a) matches Some(o)
                && !(db_fields_agree(o.db, wanted[i].1.db) && mem_fields_agree(o.mem, wanted[i].1.mem)))),
        !wanted_steps(current, wanted).contains(Step::Remove(a)),
    decreases wanted.len(),
{
    if wanted.len() == 0 {
        assert(!wanted_steps(current, wanted).contains(Step::Create(a)));
        assert(!wanted_steps(current, wanted).contains(Step::Update(a)));
    } else {
        let w = wanted.drop_last();
        lemma_wanted_steps_members(current, w, a);
        let last = wanted.last();
        let alias = last.0;
        let route = last.1;
        let prev = wanted_steps(current, w);
        assert(wanted[wanted.len() - 1] == last);
        let ex_w = exists|i: int| 0 <= i < w.len() && #[trigger] w[i].0@ == a;
        let ex = exists|i: int| 0 <= i < wanted.len() && #[trigger] wanted[i].0@ == a;
        assert(ex == (ex_w || alias@ == a)) by {
            if ex {
                let i = choose|i: int| 0 <= i < wanted.len() && #[trigger] wanted[i].0@ == a;
                if i < w.len() {
                    assert(w[i] == wanted[i]);
                }
            }
            if ex_w {
                let i = choose|i: int| 0 <= i < w.len() && #[trigger] w[i].0@ == a;
                assert(w[i] == wanted[i]);
            }
        }
        let up_w = exists|i: int| 0 <= i < w.len() && #[trigger] w[i].0@ == a && open_differently(current, a, w[i].1);
        let up = exists|i: int| 0 <= i < wanted.len() && #[trigger] wanted[i].0@ == a && open_differently(current, a, wanted[i].1);
        assert(up == (up_w || (alias@ == a && open_differently(current, a, route)))) by {
            if up {
                let i = choose|i: int| 0 <= i < wanted.len() && #[trigger] wanted[i].0@ == a && open_differently(current, a, wanted[i].1);
                if i < w.len() {
                    assert(w[i] == wanted[i]);
                }
            }
            if up_w {
                let i = choose|i: int| 0 <= i < w.len() && #[trigger] w[i].0@ == a && open_differently(current, a, w[i].1);
                assert(w[i] == wanted[i]);
            }
        }
        match route_of(current, alias@) {
            None => {
                assert(wanted_steps(current, wanted) == prev.push(Step::Create(alias@)));
                lemma_contains_push(prev, Step::Create(alias@), Step::Create(a));
                lemma_contains_push(prev, Step::Create(alias@), Step::Update(a));
                lemma_contains_push(prev, Step::Create(alias@), Step::Remove(a));
            },
            Some(open) => {
                lemma_routes_same_iff_fields_agree(open, route);
                if same_route(open, route) {
                    assert(wanted_steps(current, wanted) == prev);
                } else {
                    assert(wanted_steps(current, wanted) == prev.push(Step::Update(alias@)));
                    lemma_contains_push(prev, Step::Update(alias@), Step::Create(a));
                    lemma_contains_push(prev, Step::Update(alias@), Step::Update(a));
                    lemma_contains_push(prev, Step::Update(alias@), Step::Remove(a));
                }
            },
        }
        assert(up == (exists|i: int|
            0 <= i < wanted.len() && #[trigger] wanted[i].0@ == a && (route_of(current, a) matches Some(o)
                && !(db_fields_agree(o.db, wanted[i].1.db) && mem_fields_agree(o.mem, wanted[i].1.mem)))));
    }
}

/// The plan's steps for the open aliases: an alias is closed exactly when
/// it is open and no longer configured; none is opened or reconfigured
/// here.
pub proof fn lemma_removed_steps_members(
    current: Seq<(String, DataRoute)>,
    wanted: Seq<(String, DataRoute)>,
    a: Seq<char>,
)
    ensures
        removed_steps(current, wanted).contains(Step::Remove(a)) <==> (route_of(wanted, a) is None && exists|j: int|
            0 <= j < current.len() && #[trigger] current[j].0@ == a),
        !removed_steps(current, wanted).contains(Step::Create(a)),
        !removed_steps(current, wanted).contains(Step::Update(a)),
    decreases current.len(),
{
    if current.len() == 0 {
        assert(!removed_steps(current, wanted).contains(Step::Remove(a)));
    } else {
        let c = current.drop_last();
        lemma_removed_steps_members(c, wanted, a);
        let alias = current.last().0@;
        let prev = removed_steps(c, wanted);
        assert(current[current.len() - 1] == current.last());
        let ex_c = exists|j: int| 0 <= j < c.len() && #[trigger] c[j].0@ == a;
        let ex = exists|j: int| 0 <= j < current.len() && #[trigger] current[j].0@ == a;
        assert(ex == (ex_c || alias == a)) by {
            if ex {
                let j = choose|j: int| 0 <= j < current.len() && #[trigger] current[j].0@ == a;
                if j < c.len() {
                    assert(c[j] == current[j]);
                }
            }
            if ex_c {
                let j = choose|j: int| 0 <= j < c.len() && #[trigger] c[j].0@ == a;
                assert(c[j] == current[j]);
            }
        }
        if route_of(wanted, alias) is None {
            assert(removed_steps(current, wanted) == prev.push(Step::Remove(alias)));
            lemma_contains_push(prev, Step::Remove(alias), Step::Remove(a));
            lemma_contains_push(prev, Step::Remove(alias), Step::Create(a));
            lemma_contains_push(prev, Step::Remove(alias), Step::Update(a));
        } else {
            assert(removed_steps(current, wanted) == prev);
        }
    }
}

/// The route listed under an alias.
fn find_route<'a>(list: &'a Vec<(String, DataRoute)>, alias: &str) -> (r: Option<&'a DataRoute>)
    ensures
        r matches Some(d) ==> route_of(list@, alias@) == Some(*d),
        r is None ==> route_of(list@, alias@) is None,
{
    let mut i: usize = 0;
    assert(list@.skip(0) =~= list@);
    while i < list.len()
        invariant
            i <= list.len(),
            route_of(list@, alias@) == route_of(list@.skip(i as int), alias@),
        decreases list.len() - i,
    {
        assert(list@.skip(i as int).drop_first() =~= list@.skip(i as int + 1));
        if str_eq(list[i].0.as_str(), alias) {
            return Some(&list[i].1);
        }
        i = i + 1;
    }
    None
}

/// The steps that bring the open routes (`current`) in line with the
/// configured ones (`wanted`): first, for each configured alias in order,
/// open it or reconfigure it when its route changed; then close each open
/// alias that is no longer configured.
pub fn plan_routes(current: &Vec<(String, DataRoute)>, wanted: &Vec<(String, DataRoute)>) -> (r: Vec<
    RouteAction,
>)
    ensures
        r@.map_values(|a: RouteAction| step_of(a)) == wanted_steps(current@, wanted@) + removed_steps(
            current@,
            wanted@,
        ),
{
    let mut actions: Vec<RouteAction> = Vec::new();
    let mut i: usize = 0;
    while i < wanted.len()
        invariant
            i <= wanted.len(),
            actions@.map_values(|a: RouteAction| step_of(a)) == wanted_steps(
                current@,
                wanted@.take(i as int),
            ),
        decreases wanted.len() - i,
    {
        assert(wanted@.take(i as int + 1).drop_last() =~= wanted@.take(i as int));
        let alias = &wanted[i].0;
        let ghost before = actions@.map_values(|a: RouteAction| step_of(a));
        match find_route(current, alias.as_str()) {
            None => {
                actions.push(RouteAction::Create(alias.clone()));
                assert(actions@.map_values(|a: RouteAction| step_of(a)) =~= before.push(
                    Step::Create(alias@),
                ));
            },
            Some(open) => {
                if !data_route_eq(open, &wanted[i].1) {
                    actions.push(RouteAction::Update(alias.clone()));
                    assert(actions@.map_values(|a: RouteAction| step_of(a)) =~= before.push(
                        Step::Update(alias@),
                    ));
                }
            },
        }
        i = i + 1;
    }
    assert(wanted@.take(wanted.len() as int) =~= wanted@);
    let ghost firsts = actions@.map_values(|a: RouteAction| step_of(a));
    let mut j: usize = 0;
    while j < current.len()
        invariant
            j <= current.len(),
            firsts == wanted_steps(current@, wanted@),
            actions@.map_values(|a: RouteAction| step_of(a)) == firsts + removed_steps(
                current@.take(j as int),
                wanted@,
            ),
        decreases current.len() - j,
    {
        assert(current@.take(j as int + 1).drop_last() =~= current@.take(j as int));
        let alias = &current[j].0;
        let ghost before = actions@.map_values(|a: RouteAction| step_of(a));
        match find_route(wanted, alias.as_str()) {
            None => {
                actions.push(RouteAction::Remove(alias.clone()));
                assert(actions@.map_values(|a: RouteAction| step_of(a)) =~= before.push(
                    Step::Remove(alias@),
                ));
            },
            Some(_) => {},
        }
        j = j + 1;
    }
    assert(current@.take(current.len() as int) =~= current@);
    actions
}

} // verus!
