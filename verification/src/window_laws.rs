//! What calendar windows and budgets promise.

use vstd::prelude::*;

use crate::budget::{
    charge, charged_from, find_refused, first_refused_from, AgentBudgetAllocation,
    AgentBudgetConsumption, AgentBudgetDimension,
};
use crate::calendar::{
    advance_window_start, calendar_window_start, civil_year_month, days_before_month,
    days_before_year, days_of_month_start, initial_window_start, lemma_month_end,
    next_calendar_boundary, next_window_boundary, AgentBudgetWindow, AgentCalendarUnit,
};
use crate::identity::AgentTimestampMillis;

verus! {

/// How long a month is in days.
pub open spec fn days_in(year: int, month: int) -> int {
    if month == 4 || month == 6 || month == 9 || month == 11 {
        30
    } else if month != 2 {
        31
    } else if year % 400 == 0 || (year % 4 == 0 && year % 100 != 0) {
        29
    } else {
        28
    }
}

/// The first month starts on the first day, and each month starts where the one
/// before it ends: thirty days have April, June, September and November, February
/// has its leap day, and December is followed by January.
pub proof fn each_month_starts_where_the_last_one_ends(
    year: u64,
    month: u64,
    next_year: u64,
    next_month: u64,
    start: u64,
    next: u64,
)
    requires
        year >= 1970,
        1 <= month <= 12,
        month < 12 ==> next_year == year && next_month == month + 1,
        month == 12 ==> next_year == year + 1 && next_month == 1,
        call_ensures(days_of_month_start, (year, month), start),
        call_ensures(days_of_month_start, (next_year, next_month), next),
    ensures
        year == 1970 && month == 1 ==> start == 0,
        next == start + days_in(year as int, month as int),
{
    lemma_month_end(year as nat, month as nat);
    if year == 1970 && month == 1 {
        reveal_with_fuel(days_before_year, 2);
        reveal_with_fuel(days_before_month, 2);
    }
}

/// A day's civil month is the one that starts on it or before and ends after it.
pub proof fn a_day_lies_in_its_civil_month(day: u64, civil: (u64, u64), start: u64)
    requires
        call_ensures(civil_year_month, (day,), civil),
        call_ensures(days_of_month_start, civil, start),
    ensures
        civil.0 >= 1970,
        1 <= civil.1 <= 12,
        start <= day < start + days_in(civil.0 as int, civil.1 as int),
{
}

/// A calendar window starts at midnight, at or before the time it is of: a day's on
/// the day itself, a week's on its Monday, a month's on its first.
pub proof fn a_calendar_window_starts_at_its_unit(
    unit: AgentCalendarUnit,
    now: AgentTimestampMillis,
    civil: (u64, u64),
    first: u64,
    start: u64,
)
    requires
        call_ensures(civil_year_month, ((now.millis / 86_400_000) as u64,), civil),
        call_ensures(days_of_month_start, civil, first),
        call_ensures(calendar_window_start, (unit, now), start),
        unit is Week ==> now.millis >= 4 * 86_400_000,
    ensures
        start as int % 86_400_000 == 0,
        start <= now.millis,
        unit is Day ==> now.millis - start < 86_400_000,
        unit is Week ==> now.millis - start < 604_800_000 && (start as int / 86_400_000) % 7 == 4,
        unit is Month ==> start == first * 86_400_000,
        unit is Month ==> now.millis - start < days_in(civil.0 as int, civil.1 as int)
            * 86_400_000,
{
    let day = (now.millis / 86_400_000) as nat;
    crate::calendar::every_day_lies_in_one_month(day);
    crate::calendar::a_calendar_window_holds_its_time(unit, now);
    assert(crate::calendar::day_in_month(day, civil.0 as nat, civil.1 as nat));
    let from = crate::calendar::window_start_day(unit, day);
    assert(start == from * 86_400_000);
    assert((from * 86_400_000) % 86_400_000 == 0 && (from * 86_400_000) / 86_400_000 == from)
        by (nonlinear_arith);
    if unit is Month {
        let length = crate::calendar::month_length(civil.0 as nat, civil.1 as nat) as int;
        assert(length == days_in(civil.0 as int, civil.1 as int));
        assert((from + length) * 86_400_000 == from * 86_400_000 + length * 86_400_000)
            by (nonlinear_arith);
    }
}

/// A calendar window ends where the next one starts: later than the time it is of,
/// by one day, one week or the length of the month.
pub proof fn a_calendar_window_ends_where_the_next_one_starts(
    unit: AgentCalendarUnit,
    now: AgentTimestampMillis,
    later: AgentTimestampMillis,
    civil: (u64, u64),
    start: u64,
    boundary: u64,
    next: u64,
)
    requires
        call_ensures(civil_year_month, ((now.millis / 86_400_000) as u64,), civil),
        call_ensures(calendar_window_start, (unit, now), start),
        call_ensures(next_calendar_boundary, (unit, now), boundary),
        call_ensures(calendar_window_start, (unit, later), next),
    ensures
        boundary > now.millis,
        unit is Day ==> boundary == start + 86_400_000,
        unit is Week ==> boundary == start + 604_800_000,
        unit is Month ==> boundary == start + days_in(civil.0 as int, civil.1 as int) * 86_400_000,
        start <= later.millis < boundary <==> next == start,
        later.millis == boundary ==> next == boundary,
{
    let day = (now.millis / 86_400_000) as nat;
    crate::calendar::every_day_lies_in_one_month(day);
    crate::calendar::a_calendar_window_holds_its_time(unit, now);
    crate::calendar::times_in_one_calendar_window_share_it(unit, now, later);
    assert(crate::calendar::day_in_month(day, civil.0 as nat, civil.1 as nat));
    let from = crate::calendar::window_start_day(unit, day);
    let to = crate::calendar::window_end_day(unit, day);
    assert(start == from * 86_400_000 && boundary == to * 86_400_000);
    if later.millis == boundary {
        assert((to * 86_400_000) / 86_400_000 == to) by (nonlinear_arith);
        let there = (later.millis / 86_400_000) as nat;
        assert(there == to);
        crate::calendar::every_day_lies_in_one_month(there);
        crate::calendar::a_calendar_window_holds_its_time(unit, later);
        if unit is Month {
            lemma_month_end(civil.0 as nat, civil.1 as nat);
            let following = crate::calendar::next_month(civil.0 as nat, civil.1 as nat);
            assert(crate::calendar::day_in_month(there, following.0, following.1));
        }
    }
}

/// A window opens at the present, or where its calendar unit starts; it moves on to
/// the present unit, and never back.
pub proof fn a_calendar_budget_follows_its_unit(
    unit: AgentCalendarUnit,
    previous: AgentTimestampMillis,
    now: AgentTimestampMillis,
    start: u64,
    opened: AgentTimestampMillis,
    moved: AgentTimestampMillis,
)
    requires
        unit is Week ==> now.millis >= 4 * 86_400_000,
        call_ensures(calendar_window_start, (unit, now), start),
        call_ensures(initial_window_start, (&AgentBudgetWindow::Calendar { unit }, now), opened),
        call_ensures(
            advance_window_start,
            (&AgentBudgetWindow::Calendar { unit }, previous, now),
            moved,
        ),
    ensures
        opened.millis == start,
        start > previous.millis ==> moved.millis == start,
        start <= previous.millis ==> moved == previous,
{
}

/// A calendar budget turns where its unit does.
pub proof fn a_calendar_budget_turns_with_its_unit(
    unit: AgentCalendarUnit,
    start: AgentTimestampMillis,
    now: AgentTimestampMillis,
    boundary: u64,
    turn: AgentTimestampMillis,
)
    requires
        call_ensures(next_calendar_boundary, (unit, now), boundary),
        call_ensures(
            next_window_boundary,
            (&AgentBudgetWindow::Calendar { unit }, start, now),
            turn,
        ),
    ensures
        turn.millis == boundary,
{
}

/// A rolling budget opens at the present.
pub proof fn a_rolling_budget_opens_now(
    length_millis: u64,
    now: AgentTimestampMillis,
    opened: AgentTimestampMillis,
)
    requires
        call_ensures(
            initial_window_start,
            (&AgentBudgetWindow::Rolling { length_millis }, now),
            opened,
        ),
    ensures
        opened == now,
{
}

/// What a dimension of a ceiling has left for a request: a bounded dimension asks
/// for a bounded request that fits beside what is spent.
pub open spec fn has_room_in(
    ceiling: &AgentBudgetAllocation,
    request: &AgentBudgetAllocation,
    spent: &AgentBudgetConsumption,
    dimension: AgentBudgetDimension,
) -> bool {
    ceiling.limit(dimension) is Some ==> {
        &&& request.limit(dimension) is Some
        &&& {
            ||| spent.spent(dimension) + request.limit(dimension)->Some_0 <= ceiling.limit(
                dimension,
            )->Some_0
            ||| ceiling.limit(dimension)->Some_0 == u64::MAX
        }
    }
}

/// A request is refused for the first dimension that has no room for it: the model
/// calls before the tokens.
pub proof fn a_request_is_refused_for_the_first_dimension_without_room(
    ceiling: &AgentBudgetAllocation,
    request: &AgentBudgetAllocation,
    spent: &AgentBudgetConsumption,
    refused: Option<AgentBudgetDimension>,
)
    requires
        call_ensures(find_refused, (ceiling, request, spent), refused),
    ensures
        ({
            let calls = has_room_in(ceiling, request, spent, AgentBudgetDimension::ModelCalls);
            let tokens = has_room_in(ceiling, request, spent, AgentBudgetDimension::Tokens);
            &&& refused is None <==> calls && tokens
            &&& !calls <==> refused == Some(AgentBudgetDimension::ModelCalls)
            &&& calls && !tokens <==> refused == Some(AgentBudgetDimension::Tokens)
        }),
{
    reveal_with_fuel(first_refused_from, 4);
}

/// A charge adds what was requested in the dimensions that the ceiling bounds, and
/// nothing in the others; it stops at the greatest number.
pub proof fn a_charge_adds_what_was_requested(
    ceiling: &AgentBudgetAllocation,
    request: &AgentBudgetAllocation,
    spent: AgentBudgetConsumption,
    after: AgentBudgetConsumption,
    dimension: AgentBudgetDimension,
)
    requires
        call_ensures(charge, (ceiling, request, spent), after),
    ensures
        ({
            let (was, is) = (spent.spent(dimension), after.spent(dimension));
            let counts = ceiling.limit(dimension) is Some && request.limit(dimension) is Some;
            let asked = request.limit(dimension)->Some_0;
            &&& !counts ==> is == was
            &&& counts && was + asked <= u64::MAX ==> is == was + asked
            &&& counts && was + asked > u64::MAX ==> is == u64::MAX
        }),
{
    broadcast use crate::budget::lemma_adding;

    reveal_with_fuel(charged_from, 4);
}

/// What is spent in one dimension adds to that dimension alone.
pub proof fn spending_adds_to_its_dimension(
    consumption: &mut AgentBudgetConsumption,
    dimension: AgentBudgetDimension,
    amount: u64,
    other: AgentBudgetDimension,
)
    requires
        call_ensures(AgentBudgetConsumption::add, (consumption, dimension, amount), ()),
    ensures
        ({
            let (was, is) = (old(consumption).spent(other), final(consumption).spent(other));
            &&& other != dimension ==> is == was
            &&& other == dimension && was + amount <= u64::MAX ==> is == was + amount
            &&& other == dimension && was + amount > u64::MAX ==> is == u64::MAX
        }),
{
    broadcast use crate::budget::lemma_adding;

}

/// A limit bounds its own dimension, and a budget without any limit bounds nothing.
pub proof fn a_limit_bounds_its_dimension(
    budget: &mut AgentBudgetAllocation,
    dimension: AgentBudgetDimension,
    limit: Option<u64>,
    empty: AgentBudgetAllocation,
    unbounded: bool,
)
    requires
        call_ensures(AgentBudgetAllocation::set, (budget, dimension, limit), ()),
        call_ensures(AgentBudgetAllocation::unbounded, (), empty),
        call_ensures(AgentBudgetAllocation::is_unbounded, (final(budget),), unbounded),
    ensures
        final(budget).limit(dimension) == limit,
        forall|other: AgentBudgetDimension|
            other != dimension ==> #[trigger] final(budget).limit(other) == old(budget).limit(
                other,
            ),
        forall|other: AgentBudgetDimension| #[trigger] empty.limit(other) is None,
        unbounded <==> final(budget).limit(AgentBudgetDimension::ModelCalls) is None
            && final(budget).limit(AgentBudgetDimension::Tokens) is None,
{
    let after = *final(budget);
    if after.limit(AgentBudgetDimension::ModelCalls) is None
        && after.limit(AgentBudgetDimension::Tokens) is None {
        assert forall|other: AgentBudgetDimension| #[trigger] after.limit(other) is None by {
            assert(other is ModelCalls || other is Tokens);
        }
    }
}

} // verus!
