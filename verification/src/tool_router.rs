//! Composes tool executors behind the dispatcher's single executor slot.
//!
//! A call is routed by its tool's identity alone: an exact tool id, the longest
//! matching tool-id prefix, the kind a registry declares for the tool, and
//! everything else to the fallback. Arguments never influence routing, and
//! routing decides nothing about whether a call may be performed.

use vstd::prelude::*;
use vstd::string::*;

use crate::collections::IdMap;
use crate::identity::{AgentToolId, ToolTag};
use crate::text::{byte_len, has_prefix, starts_with, text_bytes};
use crate::tools::{AgentToolKind, AgentToolRegistry};

verus! {

/// One prefix route.
pub struct PrefixRoute<E> {
    /// The tool-id prefix.
    pub prefix: String,
    /// The executor behind the route.
    pub executor: E,
}

/// One kind route.
pub struct KindRoute<E> {
    /// The kind the route serves.
    pub kind: AgentToolKind,
    /// The registry that says which tools have it.
    pub registry: AgentToolRegistry,
    /// The executor behind the route.
    pub executor: E,
}

/// Whether prefix routes are kept longest first.
pub open spec fn longest_first<E>(prefixes: Seq<PrefixRoute<E>>) -> bool {
    forall|i: int, j: int|
        0 <= i < j < prefixes.len() ==> byte_len((#[trigger] prefixes[i]).prefix@) >= byte_len(
            (#[trigger] prefixes[j]).prefix@,
        )
}

/// Where a prefix route is inserted: behind every route at least as long.
pub open spec fn insertion_point<E>(
    prefixes: Seq<PrefixRoute<E>>,
    prefix: Seq<char>,
    from: nat,
) -> nat
    decreases prefixes.len() - from,
{
    if from >= prefixes.len() || byte_len(prefixes[from as int].prefix@) < byte_len(prefix) {
        from
    } else {
        insertion_point(prefixes, prefix, from + 1)
    }
}

/// The first prefix route that matches a tool, from a position on.
pub open spec fn first_prefix<E>(
    prefixes: Seq<PrefixRoute<E>>,
    tool: Seq<char>,
    from: nat,
) -> Option<int>
    decreases prefixes.len() - from,
{
    if from >= prefixes.len() {
        None
    } else if starts_with(tool, prefixes[from as int].prefix@) {
        Some(from as int)
    } else {
        first_prefix(prefixes, tool, from + 1)
    }
}

/// Whether a kind route serves a tool: its registry holds the tool under that
/// kind.
pub open spec fn serves_kind<E>(route: KindRoute<E>, tool: Seq<char>) -> bool {
    route.registry@.dom().contains(tool) && route.registry@[tool].descriptor.kind == route.kind
}

/// The first kind route that serves a tool, from a position on.
pub open spec fn first_kind<E>(kinds: Seq<KindRoute<E>>, tool: Seq<char>, from: nat) -> Option<int>
    decreases kinds.len() - from,
{
    if from >= kinds.len() {
        None
    } else if serves_kind(kinds[from as int], tool) {
        Some(from as int)
    } else {
        first_kind(kinds, tool, from + 1)
    }
}

/// What a router holds.
pub struct RouterModel<E> {
    /// Where every unmatched call goes.
    pub fallback: E,
    /// The exact routes.
    pub exact: Map<Seq<char>, E>,
    /// The prefix routes, longest first, and in registration order among
    /// equally long ones.
    pub prefixes: Seq<PrefixRoute<E>>,
    /// The kind routes, in registration order.
    pub kinds: Seq<KindRoute<E>>,
}

impl<E> RouterModel<E> {
    /// The executor one tool's calls reach: exact id, then longest prefix, then
    /// declared kind, then the fallback.
    pub open spec fn route(self, tool: Seq<char>) -> E {
        if self.exact.dom().contains(tool) {
            self.exact[tool]
        } else {
            match first_prefix(self.prefixes, tool, 0) {
                Some(i) => self.prefixes[i].executor,
                None => match first_kind(self.kinds, tool, 0) {
                    Some(i) => self.kinds[i].executor,
                    None => self.fallback,
                },
            }
        }
    }

    /// The router with one more prefix route; an empty prefix adds none.
    pub open spec fn adding_prefix(self, route: PrefixRoute<E>) -> RouterModel<E> {
        if route.prefix@.len() == 0 {
            self
        } else {
            RouterModel {
                prefixes: self.prefixes.insert(
                    insertion_point(self.prefixes, route.prefix@, 0) as int,
                    route,
                ),
                ..self
            }
        }
    }
}

/// Routes tool calls to executors by tool identity, with a fallback.
pub struct AgentToolExecutorRouter<E> {
    fallback: E,
    exact: IdMap<ToolTag, E>,
    prefixes: Vec<PrefixRoute<E>>,
    kinds: Vec<KindRoute<E>>,
}

impl<E> View for AgentToolExecutorRouter<E> {
    type V = RouterModel<E>;

    closed spec fn view(&self) -> RouterModel<E> {
        RouterModel {
            fallback: self.fallback,
            exact: self.exact@,
            prefixes: self.prefixes@,
            kinds: self.kinds@,
        }
    }
}

impl<E> AgentToolExecutorRouter<E> {
    /// A router whose every unmatched call reaches `fallback`.
    pub fn new(fallback: E) -> (router: Self)
        ensures
            router@ == (RouterModel {
                fallback,
                exact: Map::<Seq<char>, E>::empty(),
                prefixes: Seq::<PrefixRoute<E>>::empty(),
                kinds: Seq::<KindRoute<E>>::empty(),
            }),
            longest_first(router@.prefixes),
    {
        let router = AgentToolExecutorRouter {
            fallback,
            exact: IdMap::new(),
            prefixes: Vec::new(),
            kinds: Vec::new(),
        };
        assert(router@.prefixes =~= Seq::<PrefixRoute<E>>::empty());
        assert(router@.kinds =~= Seq::<KindRoute<E>>::empty());
        router
    }

    /// Routes every tool whose id starts with `prefix`; the longest matching
    /// prefix wins. An empty prefix is ignored: the fallback is the catch-all.
    /// Registering the same prefix twice keeps the first route.
    pub fn with_prefix_route(self, prefix: String, executor: E) -> (router: Self)
        ensures
            router@ == self@.adding_prefix(PrefixRoute { prefix, executor }),
            longest_first(self@.prefixes) ==> longest_first(router@.prefixes),
    {
        if prefix.as_str().is_empty() {
            return self;
        }
        let mut router = self;
        let length: usize = text_bytes(prefix.as_str());
        let mut i: usize = 0;
        while i < router.prefixes.len() && text_bytes(router.prefixes[i].prefix.as_str()) >= length
            invariant
                router == self,
                i <= router.prefixes@.len(),
                length == byte_len(prefix@),
                insertion_point(router.prefixes@, prefix@, 0) == insertion_point(
                    router.prefixes@,
                    prefix@,
                    i as nat,
                ),
                forall|k: int|
                    0 <= k < i ==> byte_len((#[trigger] router.prefixes@[k]).prefix@) >= length,
            decreases router.prefixes@.len() - i,
        {
            i = i + 1;
        }
        router.prefixes.insert(i, PrefixRoute { prefix, executor });
        proof {
            let before = self@.prefixes;
            let after = router@.prefixes;
            if longest_first(before) {
                assert forall|a: int, b: int| 0 <= a < b < after.len() implies byte_len(
                    (#[trigger] after[a]).prefix@,
                ) >= byte_len((#[trigger] after[b]).prefix@) by {
                    let x = if a < i {
                        a
                    } else {
                        a - 1
                    };
                    let y = if b < i {
                        b
                    } else {
                        b - 1
                    };
                    if a == i {
                        assert(after[b] == before[y]);
                        assert(byte_len(before[i as int].prefix@) < length);
                        if y > i {
                            assert(byte_len(before[i as int].prefix@) >= byte_len(
                                before[y].prefix@,
                            ));
                        }
                    } else if b == i {
                        assert(after[a] == before[x]);
                    } else {
                        assert(after[a] == before[x]);
                        assert(after[b] == before[y]);
                    }
                }
            }
        }
        router
    }

    /// Routes one tool id exactly; an exact route beats every prefix.
    /// Registering the same tool twice keeps the last route.
    pub fn with_tool_route(self, tool: AgentToolId, executor: E) -> (router: Self)
        ensures
            router@ == (RouterModel { exact: self@.exact.insert(tool@, executor), ..self@ }),
    {
        let mut router = self;
        router.exact.insert(tool, executor);
        router
    }

    /// Routes every tool the given registry declares with `kind`.
    pub fn with_kind_route(self, kind: AgentToolKind, registry: AgentToolRegistry, executor: E) -> (router:
        Self)
        ensures
            router@ == (RouterModel {
                kinds: self@.kinds.push(KindRoute { kind, registry, executor }),
                ..self@
            }),
    {
        let mut router = self;
        router.kinds.push(KindRoute { kind, registry, executor });
        router
    }

    /// The executor one call reaches.
    pub fn resolve(&self, tool: &AgentToolId) -> (executor: &E)
        ensures
            *executor == self@.route(tool@),
    {
        if let Some(executor) = self.exact.get(tool) {
            return executor;
        }
        let mut i: usize = 0;
        while i < self.prefixes.len()
            invariant
                i <= self.prefixes@.len(),
                !self@.exact.dom().contains(tool@),
                first_prefix(self@.prefixes, tool@, 0) == first_prefix(
                    self@.prefixes,
                    tool@,
                    i as nat,
                ),
            decreases self.prefixes@.len() - i,
        {
            if has_prefix(tool.as_str(), self.prefixes[i].prefix.as_str()) {
                return &self.prefixes[i].executor;
            }
            i = i + 1;
        }
        let mut k: usize = 0;
        while k < self.kinds.len()
            invariant
                k <= self.kinds@.len(),
                !self@.exact.dom().contains(tool@),
                first_prefix(self@.prefixes, tool@, 0) is None,
                first_kind(self@.kinds, tool@, 0) == first_kind(self@.kinds, tool@, k as nat),
            decreases self.kinds@.len() - k,
        {
            if let Some(binding) = self.kinds[k].registry.binding(tool) {
                if binding.descriptor.kind == self.kinds[k].kind {
                    return &self.kinds[k].executor;
                }
            }
            k = k + 1;
        }
        &self.fallback
    }
}

proof fn lemma_first_prefix<E>(
    prefixes: Seq<PrefixRoute<E>>,
    tool: Seq<char>,
    from: nat,
    at: int,
)
    requires
        from <= at < prefixes.len(),
        starts_with(tool, prefixes[at].prefix@),
    ensures
        first_prefix(prefixes, tool, from) is Some,
        from <= first_prefix(prefixes, tool, from)->Some_0 <= at,
        starts_with(tool, prefixes[first_prefix(prefixes, tool, from)->Some_0].prefix@),
    decreases prefixes.len() - from,
{
    if !starts_with(tool, prefixes[from as int].prefix@) {
        lemma_first_prefix(prefixes, tool, from + 1, at);
    }
}

/// The longest matching prefix wins: the prefix route a tool takes matches it,
/// and no matching prefix is longer.
pub proof fn the_longest_prefix_wins<E>(router: RouterModel<E>, tool: Seq<char>, other: int)
    requires
        longest_first(router.prefixes),
        0 <= other < router.prefixes.len(),
        starts_with(tool, router.prefixes[other].prefix@),
        !router.exact.dom().contains(tool),
    ensures
        ({
            let taken = first_prefix(router.prefixes, tool, 0);
            &&& taken is Some
            &&& router.route(tool) == router.prefixes[taken->Some_0].executor
            &&& starts_with(tool, router.prefixes[taken->Some_0].prefix@)
            &&& byte_len(router.prefixes[other].prefix@) <= byte_len(
                router.prefixes[taken->Some_0].prefix@,
            )
        }),
{
    lemma_first_prefix(router.prefixes, tool, 0, other);
    let taken = first_prefix(router.prefixes, tool, 0)->Some_0;
    if taken < other {
        assert(byte_len(router.prefixes[taken].prefix@) >= byte_len(router.prefixes[other].prefix@));
    }
}

proof fn lemma_insertion_point<E>(prefixes: Seq<PrefixRoute<E>>, prefix: Seq<char>, from: nat)
    requires
        longest_first(prefixes),
        from <= prefixes.len(),
    ensures
        from <= insertion_point(prefixes, prefix, from) <= prefixes.len(),
        forall|i: int|
            insertion_point(prefixes, prefix, from) <= i < prefixes.len() ==> byte_len(
                (#[trigger] prefixes[i]).prefix@,
            ) < byte_len(prefix),
    decreases prefixes.len() - from,
{
    if from < prefixes.len() {
        if byte_len(prefixes[from as int].prefix@) >= byte_len(prefix) {
            lemma_insertion_point(prefixes, prefix, from + 1);
        } else {
            assert forall|i: int| from <= i < prefixes.len() implies byte_len(
                (#[trigger] prefixes[i]).prefix@,
            ) < byte_len(prefix) by {
                assert(byte_len(prefixes[from as int].prefix@) >= byte_len(prefixes[i].prefix@));
            }
        }
    }
}

/// A match before an inserted route stays the first match.
proof fn lemma_match_before_insertion<E>(
    prefixes: Seq<PrefixRoute<E>>,
    route: PrefixRoute<E>,
    point: int,
    tool: Seq<char>,
    from: nat,
    at: int,
)
    requires
        from <= at < point <= prefixes.len(),
        starts_with(tool, prefixes[at].prefix@),
    ensures
        first_prefix(prefixes.insert(point, route), tool, from) == first_prefix(
            prefixes,
            tool,
            from,
        ),
    decreases prefixes.len() - from,
{
    assert(prefixes.insert(point, route)[from as int] == prefixes[from as int]);
    if !starts_with(tool, prefixes[from as int].prefix@) {
        lemma_match_before_insertion(prefixes, route, point, tool, from + 1, at);
    }
}

/// An inserted route that does not match moves the later matches by one.
proof fn lemma_no_match_inserted<E>(
    prefixes: Seq<PrefixRoute<E>>,
    route: PrefixRoute<E>,
    point: int,
    tool: Seq<char>,
    from: nat,
)
    requires
        point <= prefixes.len(),
        0 <= point,
        from <= prefixes.len(),
        !starts_with(tool, route.prefix@),
    ensures
        first_prefix(
            prefixes.insert(point, route),
            tool,
            if from < point {
                from
            } else {
                from + 1
            },
        ) == (match first_prefix(prefixes, tool, from) {
            Some(i) => Some(
                if i < point {
                    i
                } else {
                    i + 1
                },
            ),
            None => None,
        }),
    decreases prefixes.len() - from,
{
    let longer = prefixes.insert(point, route);
    if from < prefixes.len() {
        if from < point {
            assert(longer[from as int] == prefixes[from as int]);
        } else {
            assert(longer[(from + 1) as int] == prefixes[from as int]);
        }
        if !starts_with(tool, prefixes[from as int].prefix@) {
            lemma_no_match_inserted(prefixes, route, point, tool, from + 1);
            if from + 1 == point {
                assert(longer[point] == route);
                assert(first_prefix(longer, tool, point as nat) == first_prefix(
                    longer,
                    tool,
                    (point + 1) as nat,
                ));
            }
        }
    } else {
        assert(longer.len() == prefixes.len() + 1);
    }
}

/// Registering a prefix again keeps the first route: every tool goes where it
/// went before.
pub proof fn a_repeated_prefix_keeps_the_first_route<E>(
    router: RouterModel<E>,
    held: int,
    executor: E,
    tool: Seq<char>,
)
    requires
        longest_first(router.prefixes),
        0 <= held < router.prefixes.len(),
    ensures
        router.adding_prefix(
            PrefixRoute { prefix: router.prefixes[held].prefix, executor },
        ).route(tool) == router.route(tool),
{
    let prefixes = router.prefixes;
    let route = PrefixRoute { prefix: prefixes[held].prefix, executor };
    let point = insertion_point(prefixes, route.prefix@, 0) as int;
    lemma_insertion_point(prefixes, route.prefix@, 0);
    assert(held < point);
    if route.prefix@.len() > 0 {
        let longer = prefixes.insert(point, route);
        if starts_with(tool, route.prefix@) {
            lemma_first_prefix(prefixes, tool, 0, held);
            lemma_match_before_insertion(prefixes, route, point, tool, 0, held);
            let taken = first_prefix(prefixes, tool, 0)->Some_0;
            assert(longer[taken] == prefixes[taken]);
        } else {
            lemma_no_match_inserted(prefixes, route, point, tool, 0);
            lemma_first_in_range(prefixes, tool, 0);
        }
    }
}

proof fn lemma_first_in_range<E>(prefixes: Seq<PrefixRoute<E>>, tool: Seq<char>, from: nat)
    ensures
        first_prefix(prefixes, tool, from) is Some ==> from <= first_prefix(
            prefixes,
            tool,
            from,
        )->Some_0 < prefixes.len(),
    decreases prefixes.len() - from,
{
    if from < prefixes.len() && !starts_with(tool, prefixes[from as int].prefix@) {
        lemma_first_in_range(prefixes, tool, from + 1);
    }
}

/// An empty prefix is no route: the fallback is the catch-all.
pub proof fn an_empty_prefix_routes_nothing<E>(
    router: RouterModel<E>,
    route: PrefixRoute<E>,
)
    requires
        route.prefix@.len() == 0,
    ensures
        router.adding_prefix(route) == router,
{
}

/// An exact route beats every other, and the last one registered for a tool is
/// the one it takes.
pub proof fn an_exact_route_beats_every_other<E>(
    router: RouterModel<E>,
    tool: Seq<char>,
    executor: E,
)
    ensures
        (RouterModel { exact: router.exact.insert(tool, executor), ..router }).route(tool)
            == executor,
{
}

} // verus!
