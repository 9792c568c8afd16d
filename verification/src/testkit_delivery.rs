//! The failure windows a recovery scenario is driven through: lost and repeated
//! deliveries, owners that die around a write, and workers that die between
//! writes.

use vstd::prelude::*;
use vstd::string::*;

use crate::exchange::{AgentEntityAddress, AgentEntityClass};
use crate::text::join5;
use crate::wake_scanner::AgentExchangeDeliveryError;

verus! {

/// A failure window to inject into the next delivery.
#[derive(Debug, Clone, Copy, PartialEq, Eq, Structural)]
#[non_exhaustive]
pub enum ExchangeFault {
    /// The envelope never reaches the receiver.
    LoseEnvelope,
    /// The receiver durably accepts and transitions, and then the reply is lost.
    LoseReply,
    /// The envelope is delivered twice.
    DeliverTwice,
}

/// Whom an in-process transport delivers to.
#[derive(Debug, Clone, Copy, PartialEq, Eq, Structural)]
#[non_exhaustive]
pub enum TransportClass {
    /// Any participant of an exchange.
    Participant,
    /// Task entities, by exchange.
    Task,
    /// Run entities, by exchange.
    Run,
    /// Task entities, by wake command.
    Wake,
}

/// A count one higher, wrapping at the top.
pub open spec fn bumped(count: usize) -> usize {
    if count == usize::MAX {
        0
    } else {
        (count + 1) as usize
    }
}

/// A count one higher, wrapping at the top.
pub fn bump(count: usize) -> (next: usize)
    ensures
        next == bumped(count),
{
    if count == usize::MAX {
        0
    } else {
        count + 1
    }
}

impl TransportClass {
    /// Code of a delivery lost on its way out.
    pub open spec fn lost_code(self) -> Seq<char> {
        match self {
            TransportClass::Wake => "injected-lost-command"@,
            _ => "injected-lost-envelope"@,
        }
    }

    /// A delivery lost on its way out, in words.
    pub open spec fn lost_text(self) -> Seq<char> {
        match self {
            TransportClass::Participant => "the envelope never reached the receiver"@,
            TransportClass::Task => "the envelope never reached the task entity"@,
            TransportClass::Run => "the envelope never reached the run entity"@,
            TransportClass::Wake => "the command never reached the task entity"@,
        }
    }

    /// A lost reply, in words.
    pub open spec fn lost_reply_text(self) -> Seq<char> {
        match self {
            TransportClass::Participant =>
            "the receiver accepted the exchange, and its reply was lost"@,
            TransportClass::Task => "the task accepted the exchange, and its reply was lost"@,
            TransportClass::Run => "the run accepted the exchange, and its reply was lost"@,
            TransportClass::Wake =>
            "the controller dispositioned the wake, and its reply was lost"@,
        }
    }

    /// Whether the transport has a route to an address.
    pub open spec fn reaches(self, target: AgentEntityAddress) -> bool {
        match self {
            TransportClass::Participant => true,
            TransportClass::Task | TransportClass::Wake => target is Task,
            TransportClass::Run => target is Run,
        }
    }

    /// The refusal of an address the transport has no route to.
    pub open spec fn no_route_text(self) -> Seq<char> {
        match self {
            TransportClass::Run => "this transport serves run entities only"@,
            _ => "this transport serves task entities only"@,
        }
    }
}

/// What becomes of one delivery: how often the receiver is asked to accept, and
/// the failure the sender sees in place of the last reply.
#[derive(Debug)]
pub struct DeliveryPlan {
    /// How often the receiver accepts.
    pub acceptances: u8,
    /// The failure the sender sees.
    pub failure: Option<AgentExchangeDeliveryError>,
}

/// What a plan says.
pub struct PlanModel {
    /// How often the receiver accepts.
    pub acceptances: u8,
    /// Code and words of the failure the sender sees.
    pub failure: Option<(Seq<char>, Seq<char>)>,
}

impl View for DeliveryPlan {
    type V = PlanModel;

    open spec fn view(&self) -> PlanModel {
        PlanModel {
            acceptances: self.acceptances,
            failure: match self.failure {
                Some(error) => Some((error.code@, error.message@)),
                None => None,
            },
        }
    }
}

/// What becomes of a delivery under a fault.
pub open spec fn planned(
    class: TransportClass,
    fault: Option<ExchangeFault>,
    target: AgentEntityAddress,
) -> PlanModel {
    if fault == Some(ExchangeFault::LoseEnvelope) {
        PlanModel { acceptances: 0, failure: Some((class.lost_code(), class.lost_text())) }
    } else if !class.reaches(target) {
        PlanModel { acceptances: 0, failure: Some(("exchange-no-route"@, class.no_route_text())) }
    } else {
        PlanModel {
            acceptances: if fault == Some(ExchangeFault::DeliverTwice) {
                2
            } else {
                1
            },
            failure: if fault == Some(ExchangeFault::LoseReply) {
                Some(("injected-lost-reply"@, class.lost_reply_text()))
            } else {
                None
            },
        }
    }
}

/// Delivers to one class of receiver in process, with faults injected in the
/// order they were queued, one per delivery.
#[derive(Debug)]
pub struct InProcessTransport {
    class: TransportClass,
    faults: Vec<ExchangeFault>,
    deliveries: usize,
    acceptances: usize,
}

/// What a transport holds.
pub struct TransportModel {
    /// Whom it delivers to.
    pub class: TransportClass,
    /// The faults not injected yet, next first.
    pub faults: Seq<ExchangeFault>,
    /// How many deliveries were attempted.
    pub deliveries: usize,
    /// How many reached a receiver.
    pub acceptances: usize,
}

impl View for InProcessTransport {
    type V = TransportModel;

    closed spec fn view(&self) -> TransportModel {
        TransportModel {
            class: self.class,
            faults: self.faults@,
            deliveries: self.deliveries,
            acceptances: self.acceptances,
        }
    }
}

impl TransportModel {
    /// What the transport counts as deliveries: attempts, and of wake commands
    /// those that reached the task entity.
    pub open spec fn delivered(self) -> usize {
        if self.class == TransportClass::Wake {
            self.acceptances
        } else {
            self.deliveries
        }
    }

    /// The fault the next delivery meets.
    pub open spec fn next_fault(self) -> Option<ExchangeFault> {
        if self.faults.len() > 0 {
            Some(self.faults[0])
        } else {
            None
        }
    }

    /// Once a delivery has begun: its fault is spent and it counts.
    pub open spec fn beginning(self) -> TransportModel {
        TransportModel {
            faults: if self.faults.len() > 0 {
                self.faults.drop_first()
            } else {
                self.faults
            },
            deliveries: bumped(self.deliveries),
            ..self
        }
    }
}

impl InProcessTransport {
    /// A transport that injects no faults.
    pub fn new(class: TransportClass) -> (transport: Self)
        ensures
            transport@ == (TransportModel {
                class,
                faults: Seq::empty(),
                deliveries: 0,
                acceptances: 0,
            }),
    {
        let transport = InProcessTransport {
            class,
            faults: Vec::new(),
            deliveries: 0,
            acceptances: 0,
        };
        assert(transport@.faults =~= Seq::empty());
        transport
    }

    /// Queues a fault to inject into the next delivery.
    pub fn inject(&mut self, fault: ExchangeFault)
        ensures
            final(self)@ == (TransportModel { faults: old(self)@.faults.push(fault), ..old(self)@ }),
    {
        self.faults.push(fault);
    }

    /// How many deliveries were attempted; of wake commands, how many reached
    /// the task entity, those whose reply was then lost among them.
    pub fn deliveries(&self) -> (count: usize)
        ensures
            count == self@.delivered(),
    {
        match self.class {
            TransportClass::Wake => self.acceptances,
            _ => self.deliveries,
        }
    }

    /// How many deliveries reached a receiver, those whose reply was then lost
    /// among them.
    pub fn acceptances(&self) -> (count: usize)
        ensures
            count == self@.acceptances,
    {
        self.acceptances
    }

    fn take_fault(&mut self) -> (fault: Option<ExchangeFault>)
        ensures
            fault == old(self)@.next_fault(),
            final(self)@ == (TransportModel {
                deliveries: old(self)@.deliveries,
                ..old(self)@.beginning()
            }),
    {
        if self.faults.len() == 0 {
            None
        } else {
            let fault = self.faults.remove(0);
            assert(self.faults@ =~= old(self).faults@.drop_first());
            Some(fault)
        }
    }

    /// Begins a delivery: takes its fault and says what is to become of it.
    pub fn begin(&mut self, target: &AgentEntityAddress) -> (plan: DeliveryPlan)
        ensures
            plan@ == planned(old(self)@.class, old(self)@.next_fault(), *target),
            final(self)@ == old(self)@.beginning(),
    {
        let fault = self.take_fault();
        self.deliveries = bump(self.deliveries);
        let reaches = match self.class {
            TransportClass::Participant => true,
            TransportClass::Task | TransportClass::Wake => matches!(
                target,
                AgentEntityAddress::Task(_)
            ),
            TransportClass::Run => matches!(target, AgentEntityAddress::Run(_)),
        };
        let lost = match fault {
            Some(ExchangeFault::LoseEnvelope) => true,
            _ => false,
        };
        if lost {
            let (code, message) = match self.class {
                TransportClass::Participant => (
                    "injected-lost-envelope",
                    "the envelope never reached the receiver",
                ),
                TransportClass::Task => (
                    "injected-lost-envelope",
                    "the envelope never reached the task entity",
                ),
                TransportClass::Run => (
                    "injected-lost-envelope",
                    "the envelope never reached the run entity",
                ),
                TransportClass::Wake => (
                    "injected-lost-command",
                    "the command never reached the task entity",
                ),
            };
            return DeliveryPlan { acceptances: 0, failure: Some(failed(code, message)) };
        }
        if !reaches {
            let message = match self.class {
                TransportClass::Run => "this transport serves run entities only",
                _ => "this transport serves task entities only",
            };
            return DeliveryPlan {
                acceptances: 0,
                failure: Some(failed("exchange-no-route", message)),
            };
        }
        match fault {
            Some(ExchangeFault::DeliverTwice) => DeliveryPlan { acceptances: 2, failure: None },
            Some(ExchangeFault::LoseReply) => {
                let message = match self.class {
                    TransportClass::Participant =>
                    "the receiver accepted the exchange, and its reply was lost",
                    TransportClass::Task =>
                    "the task accepted the exchange, and its reply was lost",
                    TransportClass::Run => "the run accepted the exchange, and its reply was lost",
                    TransportClass::Wake =>
                    "the controller dispositioned the wake, and its reply was lost",
                };
                DeliveryPlan {
                    acceptances: 1,
                    failure: Some(failed("injected-lost-reply", message)),
                }
            },
            _ => DeliveryPlan { acceptances: 1, failure: None },
        }
    }

    /// Counts one delivery that reached a receiver.
    pub fn accept(&mut self)
        ensures
            final(self)@ == (TransportModel {
                acceptances: bumped(old(self)@.acceptances),
                ..old(self)@
            }),
    {
        self.acceptances = bump(self.acceptances);
    }
}

fn failed(code: &str, message: &str) -> (error: AgentExchangeDeliveryError)
    ensures
        error.code@ == code@,
        error.message@ == message@,
{
    AgentExchangeDeliveryError { code: code.to_owned(), message: message.to_owned() }
}

/// A sender cannot tell a lost envelope from a lost reply by whether it failed,
/// though the receiver accepted only the second.
pub proof fn a_lost_envelope_fails_as_a_lost_reply_does(
    class: TransportClass,
    target: AgentEntityAddress,
)
    requires
        class.reaches(target),
    ensures
        planned(class, Some(ExchangeFault::LoseEnvelope), target).failure is Some,
        planned(class, Some(ExchangeFault::LoseReply), target).failure is Some,
        planned(class, Some(ExchangeFault::LoseEnvelope), target).acceptances == 0,
        planned(class, Some(ExchangeFault::LoseReply), target).acceptances == 1,
{
}

/// A delivery under no fault, or under a repetition, succeeds wherever the
/// transport has a route.
pub proof fn a_routed_delivery_succeeds(
    class: TransportClass,
    fault: Option<ExchangeFault>,
    target: AgentEntityAddress,
)
    requires
        class.reaches(target),
        fault is None || fault == Some(ExchangeFault::DeliverTwice),
    ensures
        planned(class, fault, target).failure is None,
        planned(class, fault, target).acceptances >= 1,
{
}

/// Refuses an exchange with an entity that another node owns: the local route
/// serves single-node systems.
pub fn check_local_route(entity: &str, owner: &str, is_local: bool) -> (result: Result<
    (),
    AgentExchangeDeliveryError,
>)
    ensures
        is_local ==> result is Ok,
        !is_local ==> result is Err && result->Err_0.code@ == "exchange-not-local"@
            && result->Err_0.message@ == "the shard owner of "@ + entity@ + " is "@ + owner@
            + ", which is not this node; the local route serves single-node systems only"@,
{
    if is_local {
        Ok(())
    } else {
        let message = join5(
            "the shard owner of ",
            entity,
            " is ",
            owner,
            ", which is not this node; the local route serves single-node systems only",
        );
        Err(failed("exchange-not-local", message.as_str()))
    }
}

/// A router whose routes are installed after the transports that use them exist.
#[derive(Debug)]
pub struct DeferredExchangeRouter<R> {
    routes: Option<R>,
}

impl<R> DeferredExchangeRouter<R> {
    /// The routes installed.
    pub closed spec fn routes(&self) -> Option<R> {
        self.routes
    }

    /// A router with nothing installed yet.
    pub fn new() -> (router: Self)
        ensures
            router.routes() is None,
    {
        DeferredExchangeRouter { routes: None }
    }

    /// Installs the real routes; every delivery from now on resolves through
    /// them.
    pub fn install(&mut self, router: R)
        ensures
            final(self).routes() == Some(router),
    {
        self.routes = Some(router);
    }

    /// Whether the real routes have been installed.
    pub fn installed(&self) -> (result: bool)
        ensures
            result == (self.routes() is Some),
    {
        match &self.routes {
            Some(_) => true,
            None => false,
        }
    }

    /// The routes a delivery resolves through.
    pub fn resolve(&self) -> (result: Result<&R, AgentExchangeDeliveryError>)
        ensures
            match result {
                Ok(router) => self.routes() == Some(*router),
                Err(error) => {
                    &&& self.routes() is None
                    &&& error.code@ == "exchange-no-route"@
                    &&& error.message@ == "no routes have been installed on the deferred router"@
                },
            },
    {
        match &self.routes {
            Some(router) => Ok(router),
            None => Err(
                failed(
                    "exchange-no-route",
                    "no routes have been installed on the deferred router",
                ),
            ),
        }
    }
}

/// Which transport reaches each class of entity.
#[derive(Debug)]
pub struct AgentExchangeRouter<T> {
    agent: Option<T>,
    task: Option<T>,
    run: Option<T>,
    team: Option<T>,
}

impl<T> AgentExchangeRouter<T> {
    /// The transport that reaches a class.
    pub closed spec fn routes(&self, class: AgentEntityClass) -> Option<T> {
        match class {
            AgentEntityClass::Agent => self.agent,
            AgentEntityClass::Task => self.task,
            AgentEntityClass::Run => self.run,
            AgentEntityClass::Team => self.team,
        }
    }

    /// A router that reaches nothing.
    pub fn new() -> (router: Self)
        ensures
            forall|class: AgentEntityClass| #[trigger] router.routes(class) is None,
    {
        AgentExchangeRouter { agent: None, task: None, run: None, team: None }
    }

    /// Reaches a class through a transport.
    pub fn with_route(self, class: AgentEntityClass, transport: T) -> (router: Self)
        ensures
            forall|other: AgentEntityClass| #[trigger]
                router.routes(other) == (if other == class {
                    Some(transport)
                } else {
                    self.routes(other)
                }),
    {
        match class {
            AgentEntityClass::Agent => AgentExchangeRouter { agent: Some(transport), ..self },
            AgentEntityClass::Task => AgentExchangeRouter { task: Some(transport), ..self },
            AgentEntityClass::Run => AgentExchangeRouter { run: Some(transport), ..self },
            AgentEntityClass::Team => AgentExchangeRouter { team: Some(transport), ..self },
        }
    }

    /// The transport that reaches an entity, if one does.
    pub fn route(&self, target: &AgentEntityAddress) -> (transport: Option<&T>)
        ensures
            match transport {
                Some(transport) => self.routes(target.spec_class()) == Some(*transport),
                None => self.routes(target.spec_class()) is None,
            },
    {
        match target.class() {
            AgentEntityClass::Agent => self.agent.as_ref(),
            AgentEntityClass::Task => self.task.as_ref(),
            AgentEntityClass::Run => self.run.as_ref(),
            AgentEntityClass::Team => self.team.as_ref(),
        }
    }
}

impl<R> DeferredExchangeRouter<R> {
    /// A router that sends agents, tasks and runs through this deferred router:
    /// for a transport that is made before the routes it will need.
    pub fn as_router(&self) -> (router: AgentExchangeRouter<&Self>)
        ensures
            router.routes(AgentEntityClass::Agent) == Some(self),
            router.routes(AgentEntityClass::Task) == Some(self),
            router.routes(AgentEntityClass::Run) == Some(self),
            router.routes(AgentEntityClass::Team) is None,
    {
        AgentExchangeRouter::new().with_route(AgentEntityClass::Agent, self).with_route(
            AgentEntityClass::Task,
            self,
        ).with_route(AgentEntityClass::Run, self)
    }
}

/// Where an entity's owner dies, relative to the write it was performing.
#[derive(Debug, Clone, Copy, PartialEq, Eq, Structural)]
#[non_exhaustive]
pub enum CrashPoint {
    /// The owner died before the write reached the store, so the transition is
    /// lost entirely.
    BeforeWrite,
    /// The owner died after the write committed but before it could act on what
    /// it had just decided.
    AfterWrite,
}

/// Every window of a flow of some writes: each write, after it and before it.
pub open spec fn sweep(writes: nat) -> Seq<(usize, CrashPoint)> {
    Seq::new(writes, |i: int| ((i + 1) as usize, CrashPoint::AfterWrite)) + Seq::new(
        writes,
        |i: int| ((i + 1) as usize, CrashPoint::BeforeWrite),
    )
}

/// Every window a recovery scenario is run in, in order: every write, killed
/// after it and then before it.
pub fn sweep_crash_points(writes: usize) -> (windows: Vec<(usize, CrashPoint)>)
    ensures
        windows@ == sweep(writes as nat),
{
    let mut windows: Vec<(usize, CrashPoint)> = Vec::new();
    let mut nth: usize = 0;
    while nth < writes
        invariant
            nth <= writes,
            windows@ == Seq::new(
                nth as nat,
                |i: int| ((i + 1) as usize, CrashPoint::AfterWrite),
            ),
        decreases writes - nth,
    {
        nth = nth + 1;
        windows.push((nth, CrashPoint::AfterWrite));
        assert(windows@ =~= Seq::new(
            nth as nat,
            |i: int| ((i + 1) as usize, CrashPoint::AfterWrite),
        ));
    }
    let ghost after = windows@;
    nth = 0;
    assert(windows@ =~= after + Seq::new(
        nth as nat,
        |i: int| ((i + 1) as usize, CrashPoint::BeforeWrite),
    ));
    while nth < writes
        invariant
            nth <= writes,
            windows@ == after + Seq::new(
                nth as nat,
                |i: int| ((i + 1) as usize, CrashPoint::BeforeWrite),
            ),
        decreases writes - nth,
    {
        nth = nth + 1;
        windows.push((nth, CrashPoint::BeforeWrite));
        assert(windows@ =~= after + Seq::new(
            nth as nat,
            |i: int| ((i + 1) as usize, CrashPoint::BeforeWrite),
        ));
    }
    windows
}

/// A sweep runs every write on both sides, each window once.
pub proof fn a_sweep_is_exhaustive(writes: usize, nth: usize, point: CrashPoint)
    requires
        1 <= nth <= writes,
    ensures
        sweep(writes as nat).len() == 2 * writes,
        sweep(writes as nat).contains((nth, point)),
        sweep(writes as nat).no_duplicates(),
{
    let windows = sweep(writes as nat);
    let at: int = if point is AfterWrite {
        nth - 1
    } else {
        writes + nth - 1
    };
    assert(windows[at] == (nth, point));
    assert forall|i: int, j: int|
        0 <= i < windows.len() && 0 <= j < windows.len() && i != j implies windows[i]
        != windows[j] by {
        assert(windows[i].1 is AfterWrite == (i < writes));
        assert(windows[j].1 is AfterWrite == (j < writes));
    }
}

/// What becomes of one attempted write.
#[derive(Debug, Clone, Copy, PartialEq, Eq, Structural)]
#[non_exhaustive]
pub enum WriteFate {
    /// The owner survives it.
    Survives,
    /// The owner dies before it reaches the store.
    LostBefore,
    /// The owner dies after it committed.
    LostAfter,
}

/// The kinds of durable write.
#[derive(Debug, Clone, Copy, PartialEq, Eq, Structural)]
#[non_exhaustive]
pub enum DurableWrite {
    /// A compare-and-set.
    Replace,
    /// A delete.
    Delete,
}

impl WriteFate {
    /// The failure each fate surfaces, in words.
    pub open spec fn failure_text(self, write: DurableWrite) -> Option<Seq<char>> {
        match (self, write) {
            (WriteFate::Survives, _) => None,
            (WriteFate::LostBefore, DurableWrite::Replace) => Some(
                "the owner was lost before the write reached the store"@,
            ),
            (WriteFate::LostBefore, DurableWrite::Delete) => Some(
                "the owner was lost before the delete reached the store"@,
            ),
            (WriteFate::LostAfter, DurableWrite::Replace) => Some(
                "the owner was lost after the write committed"@,
            ),
            (WriteFate::LostAfter, DurableWrite::Delete) => Some(
                "the owner was lost after the delete committed"@,
            ),
        }
    }

    /// The failure each fate surfaces, in words.
    pub fn failure(self, write: DurableWrite) -> (text: Option<&'static str>)
        ensures
            match text {
                Some(text) => self.failure_text(write) == Some(text@),
                None => self.failure_text(write) is None,
            },
    {
        match (self, write) {
            (WriteFate::Survives, _) => None,
            (WriteFate::LostBefore, DurableWrite::Replace) => Some(
                "the owner was lost before the write reached the store",
            ),
            (WriteFate::LostBefore, DurableWrite::Delete) => Some(
                "the owner was lost before the delete reached the store",
            ),
            (WriteFate::LostAfter, DurableWrite::Replace) => Some(
                "the owner was lost after the write committed",
            ),
            (WriteFate::LostAfter, DurableWrite::Delete) => Some(
                "the owner was lost after the delete committed",
            ),
        }
    }
}

/// When the owner of a durable store dies: at the n-th write from its arming,
/// or never. Loads are never counted and never crash.
#[derive(Debug, Clone, Copy)]
pub struct CrashSchedule {
    /// Writes attempted since the counter was last reset.
    pub writes: usize,
    /// The armed write, counted from one; zero when nothing is armed.
    pub armed_at: usize,
    /// Whether the owner dies after the write rather than before it.
    pub after: bool,
}

impl CrashSchedule {
    /// A schedule on which the owner never dies.
    pub fn new() -> (schedule: Self)
        ensures
            schedule == (CrashSchedule { writes: 0, armed_at: 0, after: false }),
    {
        CrashSchedule { writes: 0, armed_at: 0, after: false }
    }

    /// Armed at a write, counted from one, with the counter reset.
    pub open spec fn arming(nth: usize, point: CrashPoint) -> CrashSchedule {
        CrashSchedule { writes: 0, armed_at: nth, after: point is AfterWrite }
    }

    /// Kills the owner at the `nth` write from now on, and resets the counter.
    pub fn crash_at(&mut self, nth: usize, point: CrashPoint)
        requires
            nth >= 1,
        ensures
            *final(self) == CrashSchedule::arming(nth, point),
    {
        self.writes = 0;
        self.armed_at = nth;
        self.after = matches!(point, CrashPoint::AfterWrite);
    }

    /// Stops killing the owner.
    pub fn survive(&mut self)
        ensures
            *final(self) == (CrashSchedule { armed_at: 0, ..*old(self) }),
    {
        self.armed_at = 0;
    }

    /// How many writes have been attempted since the counter was last reset.
    pub fn writes(&self) -> (writes: usize)
        ensures
            writes == self.writes,
    {
        self.writes
    }

    /// Resets the write counter without arming a crash.
    pub fn reset_writes(&mut self)
        ensures
            *final(self) == (CrashSchedule { writes: 0, ..*old(self) }),
    {
        self.writes = 0;
    }

    /// Whether the crash armed at the `nth` write was reached.
    pub fn crash_fired(&self, nth: usize) -> (result: bool)
        ensures
            result == (self.writes >= nth),
    {
        self.writes >= nth
    }

    /// What becomes of the next write.
    pub open spec fn fate(self) -> WriteFate {
        if self.armed_at != 0 && self.writes + 1 == self.armed_at {
            if self.after {
                WriteFate::LostAfter
            } else {
                WriteFate::LostBefore
            }
        } else {
            WriteFate::Survives
        }
    }

    /// After one more write.
    pub open spec fn attempted(self) -> CrashSchedule {
        CrashSchedule { writes: (self.writes + 1) as usize, ..self }
    }

    /// Counts one attempted write and says what becomes of it.
    pub fn attempt(&mut self) -> (fate: WriteFate)
        requires
            old(self).writes < usize::MAX,
        ensures
            fate == old(self).fate(),
            *final(self) == old(self).attempted(),
    {
        self.writes = self.writes + 1;
        if self.armed_at != 0 && self.writes == self.armed_at {
            if self.after {
                WriteFate::LostAfter
            } else {
                WriteFate::LostBefore
            }
        } else {
            WriteFate::Survives
        }
    }
}

/// A schedule after some writes.
pub open spec fn after_writes(schedule: CrashSchedule, writes: nat) -> CrashSchedule
    decreases writes,
{
    if writes == 0 {
        schedule
    } else {
        after_writes(schedule, (writes - 1) as nat).attempted()
    }
}

proof fn lemma_after_writes(schedule: CrashSchedule, writes: nat)
    requires
        schedule.writes + writes <= usize::MAX,
    ensures
        after_writes(schedule, writes) == (CrashSchedule {
            writes: (schedule.writes + writes) as usize,
            ..schedule
        }),
    decreases writes,
{
    if writes > 0 {
        lemma_after_writes(schedule, (writes - 1) as nat);
    }
}

/// An armed crash strikes exactly the write it was armed at, on the side it was
/// armed for, and no other.
pub proof fn an_armed_crash_strikes_once(nth: usize, point: CrashPoint, write: usize)
    requires
        nth >= 1,
        write >= 1,
    ensures
        after_writes(CrashSchedule::arming(nth, point), (write - 1) as nat).fate() == (if write
            != nth {
            WriteFate::Survives
        } else if point is AfterWrite {
            WriteFate::LostAfter
        } else {
            WriteFate::LostBefore
        }),
{
    lemma_after_writes(CrashSchedule::arming(nth, point), (write - 1) as nat);
}

/// A window between two durable writes of a dispatch worker.
#[derive(Debug, Clone, Copy, PartialEq, Eq, Structural)]
pub struct AgentDispatchWindow {
    /// Which window of the attempt, in order.
    pub ordinal: u32,
}

/// A probe that kills the dispatch worker at one armed window, once.
#[derive(Debug)]
pub struct KillSwitchProbe {
    /// The armed window.
    pub armed: Option<AgentDispatchWindow>,
    /// How many workers the probe has killed.
    pub killed: usize,
}

impl KillSwitchProbe {
    /// A probe that never kills anything.
    pub fn new() -> (probe: Self)
        ensures
            probe == (KillSwitchProbe { armed: None, killed: 0 }),
    {
        KillSwitchProbe { armed: None, killed: 0 }
    }

    /// Arms the probe: the next attempt dies at this window.
    pub fn arm(&mut self, window: AgentDispatchWindow)
        ensures
            *final(self) == (KillSwitchProbe { armed: Some(window), ..*old(self) }),
    {
        self.armed = Some(window);
    }

    /// How many times the probe has killed a worker.
    pub fn deaths(&self) -> (deaths: usize)
        ensures
            deaths == self.killed,
    {
        self.killed
    }

    /// A worker reaching a window, and whether it survives there.
    pub open spec fn reaching(self, window: AgentDispatchWindow) -> (KillSwitchProbe, bool) {
        if self.armed == Some(window) {
            (KillSwitchProbe { armed: None, killed: bumped(self.killed) }, false)
        } else {
            (self, true)
        }
    }

    /// Whether a worker survives a window.
    pub fn survives(&mut self, window: AgentDispatchWindow) -> (survives: bool)
        ensures
            (*final(self), survives) == old(self).reaching(window),
    {
        let strikes = match self.armed {
            Some(armed) => armed == window,
            None => false,
        };
        if strikes {
            self.armed = None;
            self.killed = bump(self.killed);
            return false;
        }
        true
    }
}

/// A window kills once: the next worker to reach any window survives.
pub proof fn a_kill_switch_strikes_once(
    probe: KillSwitchProbe,
    window: AgentDispatchWindow,
    later: AgentDispatchWindow,
)
    requires
        probe.armed == Some(window),
    ensures
        !probe.reaching(window).1,
        probe.reaching(window).0.reaching(later).1,
{
}

/// A clock a scenario advances by hand. Reading it never advances it.
#[derive(Debug)]
pub struct SharedAtomicWorkflowClock {
    /// The time, in milliseconds.
    pub millis: u64,
}

impl SharedAtomicWorkflowClock {
    /// A clock at a time.
    pub fn new(millis: u64) -> (clock: Self)
        ensures
            clock.millis == millis,
    {
        SharedAtomicWorkflowClock { millis }
    }

    /// Advances the clock, wrapping at the top.
    pub fn advance(&mut self, millis: u64)
        ensures
            final(self).millis == (old(self).millis + millis) % 0x1_0000_0000_0000_0000,
    {
        self.millis = self.millis.wrapping_add(millis);
    }

    /// The time.
    pub fn now(&self) -> (millis: u64)
        ensures
            millis == self.millis,
    {
        self.millis
    }

    /// Reads the time and moves it on by one millisecond.
    pub fn tick(&mut self) -> (millis: u64)
        ensures
            millis == old(self).millis,
            final(self).millis == (old(self).millis + 1) % 0x1_0000_0000_0000_0000,
    {
        let millis: u64 = self.millis;
        self.millis = millis.wrapping_add(1);
        millis
    }
}

} // verus!
