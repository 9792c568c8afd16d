//! Budgets: what an epoch is allowed, and what a window has spent.

use vstd::prelude::*;

verus! {

/// One thing a budget bounds.
#[derive(Debug, Clone, Copy, PartialEq, Eq, PartialOrd, Ord, Hash, Structural)]
#[non_exhaustive]
pub enum AgentBudgetDimension {
    /// Calls of a model.
    ModelCalls,
    /// Tokens read or written by a model.
    Tokens,
}

impl AgentBudgetDimension {
    /// The dimensions that are spent, in the order they are checked.
    pub fn conserved() -> (dimensions: [AgentBudgetDimension; 2])
        ensures
            dimensions@ == conserved_dimensions(),
    {
        let dimensions = [AgentBudgetDimension::ModelCalls, AgentBudgetDimension::Tokens];
        assert(dimensions@ =~= conserved_dimensions());
        dimensions
    }

    /// The dimension's name.
    pub fn name(self) -> (text: &'static str)
        ensures
            text@ == self.name_text(),
    {
        match self {
            AgentBudgetDimension::ModelCalls => "ModelCalls",
            AgentBudgetDimension::Tokens => "Tokens",
        }
    }

    /// The name of each dimension.
    pub open spec fn name_text(self) -> Seq<char> {
        match self {
            AgentBudgetDimension::ModelCalls => "ModelCalls"@,
            AgentBudgetDimension::Tokens => "Tokens"@,
        }
    }
}

/// The dimensions that are spent, in the order they are checked.
pub open spec fn conserved_dimensions() -> Seq<AgentBudgetDimension> {
    seq![AgentBudgetDimension::ModelCalls, AgentBudgetDimension::Tokens]
}

/// A ceiling on each dimension; an absent one is unbounded.
#[derive(Debug, Clone, Copy, PartialEq, Eq, Structural)]
pub struct AgentBudgetAllocation {
    model_calls: Option<u64>,
    tokens: Option<u64>,
}

impl AgentBudgetAllocation {
    /// The ceiling on one dimension.
    pub closed spec fn limit(&self, dimension: AgentBudgetDimension) -> Option<u64> {
        match dimension {
            AgentBudgetDimension::ModelCalls => self.model_calls,
            AgentBudgetDimension::Tokens => self.tokens,
        }
    }

    /// Whether no dimension has a ceiling.
    pub open spec fn bounds_nothing(&self) -> bool {
        forall|dimension: AgentBudgetDimension| #[trigger] self.limit(dimension) is None
    }

    /// An allocation that bounds nothing.
    pub fn unbounded() -> (allocation: Self)
        ensures
            allocation.bounds_nothing(),
    {
        AgentBudgetAllocation { model_calls: None, tokens: None }
    }

    /// Sets or lifts the ceiling on one dimension.
    pub fn set(&mut self, dimension: AgentBudgetDimension, limit: Option<u64>)
        ensures
            final(self).limit(dimension) == limit,
            forall|other: AgentBudgetDimension|
                other != dimension ==> #[trigger] final(self).limit(other) == old(self).limit(
                    other,
                ),
    {
        match dimension {
            AgentBudgetDimension::ModelCalls => {
                self.model_calls = limit;
            },
            AgentBudgetDimension::Tokens => {
                self.tokens = limit;
            },
        }
    }

    /// The ceiling on one dimension.
    pub fn get(&self, dimension: AgentBudgetDimension) -> (limit: Option<u64>)
        ensures
            limit == self.limit(dimension),
    {
        match dimension {
            AgentBudgetDimension::ModelCalls => self.model_calls,
            AgentBudgetDimension::Tokens => self.tokens,
        }
    }

    /// Whether no dimension has a ceiling.
    pub fn is_unbounded(&self) -> (result: bool)
        ensures
            result == self.bounds_nothing(),
    {
        let result = self.model_calls.is_none() && self.tokens.is_none();
        proof {
            assert(self.limit(AgentBudgetDimension::ModelCalls) == self.model_calls);
            assert(self.limit(AgentBudgetDimension::Tokens) == self.tokens);
        }
        result
    }
}

/// What has been spent on each dimension.
#[derive(Debug, Clone, Copy, PartialEq, Eq, Structural)]
pub struct AgentBudgetConsumption {
    model_calls: u64,
    tokens: u64,
}

impl AgentBudgetConsumption {
    /// What has been spent on one dimension.
    pub closed spec fn spent(&self, dimension: AgentBudgetDimension) -> u64 {
        match dimension {
            AgentBudgetDimension::ModelCalls => self.model_calls,
            AgentBudgetDimension::Tokens => self.tokens,
        }
    }

    /// Nothing spent.
    pub fn zero() -> (consumption: Self)
        ensures
            consumption == nothing_spent(),
            forall|dimension: AgentBudgetDimension| #[trigger] consumption.spent(dimension) == 0,
    {
        AgentBudgetConsumption { model_calls: 0, tokens: 0 }
    }

    /// What has been spent on one dimension.
    pub fn get(&self, dimension: AgentBudgetDimension) -> (spent: u64)
        ensures
            spent == self.spent(dimension),
    {
        match dimension {
            AgentBudgetDimension::ModelCalls => self.model_calls,
            AgentBudgetDimension::Tokens => self.tokens,
        }
    }

    /// Spends on one dimension.
    pub fn add(&mut self, dimension: AgentBudgetDimension, amount: u64)
        ensures
            *final(self) == old(self).adding(dimension, amount),
    {
        match dimension {
            AgentBudgetDimension::ModelCalls => {
                self.model_calls = self.model_calls.saturating_add(amount);
            },
            AgentBudgetDimension::Tokens => {
                self.tokens = self.tokens.saturating_add(amount);
            },
        }
    }

    /// The consumption after spending on one dimension.
    pub closed spec fn adding(&self, dimension: AgentBudgetDimension, amount: u64) -> Self {
        match dimension {
            AgentBudgetDimension::ModelCalls => AgentBudgetConsumption {
                model_calls: saturating_sum(self.model_calls, amount),
                ..*self
            },
            AgentBudgetDimension::Tokens => AgentBudgetConsumption {
                tokens: saturating_sum(self.tokens, amount),
                ..*self
            },
        }
    }
}

/// A sum that stops at the largest value.
pub open spec fn saturating_sum(a: u64, b: u64) -> u64 {
    if a + b > u64::MAX {
        u64::MAX
    } else {
        (a + b) as u64
    }
}

/// A consumption with nothing spent.
pub closed spec fn nothing_spent() -> AgentBudgetConsumption {
    AgentBudgetConsumption { model_calls: 0, tokens: 0 }
}

/// Nothing is spent on any dimension of [`nothing_spent`].
pub broadcast proof fn lemma_nothing_spent(dimension: AgentBudgetDimension)
    ensures
        #[trigger] nothing_spent().spent(dimension) == 0,
{
}

/// Spending on one dimension adds to it and leaves the others alone.
pub broadcast proof fn lemma_adding(
    consumption: AgentBudgetConsumption,
    dimension: AgentBudgetDimension,
    amount: u64,
    other: AgentBudgetDimension,
)
    ensures
        #[trigger] consumption.adding(dimension, amount).spent(other) == if other == dimension {
            saturating_sum(consumption.spent(dimension), amount)
        } else {
            consumption.spent(other)
        },
{
}

/// Whether spending an epoch's budget on one dimension would break a ceiling.
/// A dimension the epoch leaves unbounded breaks every ceiling on it.
pub open spec fn dimension_refused(
    ceiling: AgentBudgetAllocation,
    epoch_budget: AgentBudgetAllocation,
    consumed: AgentBudgetConsumption,
    dimension: AgentBudgetDimension,
) -> bool {
    match ceiling.limit(dimension) {
        None => false,
        Some(limit) => match epoch_budget.limit(dimension) {
            None => true,
            Some(requested) => saturating_sum(consumed.spent(dimension), requested) > limit,
        },
    }
}

/// The first dimension from position `from` on that a ceiling refuses.
pub open spec fn first_refused_from(
    ceiling: AgentBudgetAllocation,
    epoch_budget: AgentBudgetAllocation,
    consumed: AgentBudgetConsumption,
    from: nat,
) -> Option<AgentBudgetDimension>
    decreases conserved_dimensions().len() - from,
{
    if from >= conserved_dimensions().len() {
        None
    } else if dimension_refused(
        ceiling,
        epoch_budget,
        consumed,
        conserved_dimensions()[from as int],
    ) {
        Some(conserved_dimensions()[from as int])
    } else {
        first_refused_from(ceiling, epoch_budget, consumed, from + 1)
    }
}

/// The first dimension on which a ceiling refuses an epoch's budget.
pub open spec fn first_refused(
    ceiling: AgentBudgetAllocation,
    epoch_budget: AgentBudgetAllocation,
    consumed: AgentBudgetConsumption,
) -> Option<AgentBudgetDimension> {
    first_refused_from(ceiling, epoch_budget, consumed, 0)
}

/// Finds the first dimension on which a ceiling refuses an epoch's budget.
pub fn find_refused(
    ceiling: &AgentBudgetAllocation,
    epoch_budget: &AgentBudgetAllocation,
    consumed: &AgentBudgetConsumption,
) -> (refused: Option<AgentBudgetDimension>)
    ensures
        refused == first_refused(*ceiling, *epoch_budget, *consumed),
{
    let dimensions = AgentBudgetDimension::conserved();
    let mut i: usize = 0;
    while i < 2
        invariant
            i <= 2,
            dimensions@ == conserved_dimensions(),
            first_refused(*ceiling, *epoch_budget, *consumed) == first_refused_from(
                *ceiling,
                *epoch_budget,
                *consumed,
                i as nat,
            ),
        decreases 2 - i,
    {
        let dimension = dimensions[i];
        if let Some(limit) = ceiling.get(dimension) {
            match epoch_budget.get(dimension) {
                None => {
                    return Some(dimension);
                },
                Some(requested) => {
                    if consumed.get(dimension).saturating_add(requested) > limit {
                        return Some(dimension);
                    }
                },
            }
        }
        i = i + 1;
    }
    None
}

/// A ceiling refuses an epoch exactly when it refuses it on some dimension.
pub proof fn lemma_first_refused_from(
    ceiling: AgentBudgetAllocation,
    epoch_budget: AgentBudgetAllocation,
    consumed: AgentBudgetConsumption,
    from: nat,
)
    ensures
        first_refused_from(ceiling, epoch_budget, consumed, from) is None <==> (forall|i: int|
            from <= i < conserved_dimensions().len() ==> !dimension_refused(
                ceiling,
                epoch_budget,
                consumed,
                #[trigger] conserved_dimensions()[i],
            )),
    decreases conserved_dimensions().len() - from,
{
    if from < conserved_dimensions().len() {
        lemma_first_refused_from(ceiling, epoch_budget, consumed, from + 1);
    }
}

/// The consumption after an epoch's budget is charged from position `from` on:
/// every dimension the ceiling bounds is charged what the epoch may spend.
pub open spec fn charged_from(
    ceiling: AgentBudgetAllocation,
    epoch_budget: AgentBudgetAllocation,
    consumed: AgentBudgetConsumption,
    from: nat,
) -> AgentBudgetConsumption
    decreases conserved_dimensions().len() - from,
{
    if from >= conserved_dimensions().len() {
        consumed
    } else {
        let dimension = conserved_dimensions()[from as int];
        let next = match (ceiling.limit(dimension), epoch_budget.limit(dimension)) {
            (Some(_), Some(requested)) => consumed.adding(dimension, requested),
            _ => consumed,
        };
        charged_from(ceiling, epoch_budget, next, from + 1)
    }
}

/// The consumption after an epoch's budget is charged.
pub open spec fn charged(
    ceiling: AgentBudgetAllocation,
    epoch_budget: AgentBudgetAllocation,
    consumed: AgentBudgetConsumption,
) -> AgentBudgetConsumption {
    charged_from(ceiling, epoch_budget, consumed, 0)
}

/// Charges an epoch's budget on every dimension a ceiling bounds.
pub fn charge(
    ceiling: &AgentBudgetAllocation,
    epoch_budget: &AgentBudgetAllocation,
    consumed: AgentBudgetConsumption,
) -> (result: AgentBudgetConsumption)
    ensures
        result == charged(*ceiling, *epoch_budget, consumed),
{
    let dimensions = AgentBudgetDimension::conserved();
    let mut result = consumed;
    let mut i: usize = 0;
    while i < 2
        invariant
            i <= 2,
            dimensions@ == conserved_dimensions(),
            charged(*ceiling, *epoch_budget, consumed) == charged_from(
                *ceiling,
                *epoch_budget,
                result,
                i as nat,
            ),
        decreases 2 - i,
    {
        let dimension = dimensions[i];
        if ceiling.get(dimension).is_some() {
            if let Some(requested) = epoch_budget.get(dimension) {
                result.add(dimension, requested);
            }
        }
        i = i + 1;
    }
    result
}

/// A charge that no ceiling refused leaves every bounded dimension within its
/// ceiling.
pub proof fn charging_keeps_the_ceiling(
    ceiling: AgentBudgetAllocation,
    epoch_budget: AgentBudgetAllocation,
    consumed: AgentBudgetConsumption,
)
    requires
        first_refused(ceiling, epoch_budget, consumed) is None,
    ensures
        forall|dimension: AgentBudgetDimension| #[trigger]
            ceiling.limit(dimension) is Some ==> charged(
                ceiling,
                epoch_budget,
                consumed,
            ).spent(dimension) <= ceiling.limit(dimension)->Some_0,
{
    reveal_with_fuel(first_refused_from, 4);
    reveal_with_fuel(charged_from, 4);
    broadcast use lemma_adding;

}

} // verus!
