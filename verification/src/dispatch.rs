//! Dispatching a planned payment: the order in which the ledger is
//! changed, the ledger is written to storage, the payment is handed to the
//! engine and the operator is told.
//!
//! The caller performs each action and reports back with an event; this
//! module decides what comes next and is the only one to change the
//! ledger.

use crate::ledger::{
    failed_at, records_wf, HTLCStatus, MillisatAmount, OutboundPaymentInfoStorage, PaymentInfo,
};
use crate::decimal::{decimal_digits, decimal_text};
use crate::payment::{
    can_derive_parameters, invoice_plan, parameters_derivable, PaymentPlan, PaymentRoute,
};
use lightning::bolt11_invoice::Bolt11Invoice;
use crate::words::chars_of;
use vstd::prelude::*;
use vstd::string::*;

verus! {

/// What the operator answered when asked to confirm a payment.
#[derive(Copy, Clone, Debug, PartialEq, Eq, Structural)]
pub enum Confirmation {
    Proceed,
    Abort,
    /// Neither yes nor no: ask again.
    Repeat,
}

/// The meaning of a reply: a reply that starts with `Y` confirms, one that
/// starts with `N` declines, and so does an empty reply, which is the end
/// of the input. Anything else is no answer.
pub open spec fn confirmation_of(reply: Seq<char>) -> Confirmation {
    if reply.len() == 0 {
        Confirmation::Abort
    } else if reply[0] == 'Y' {
        Confirmation::Proceed
    } else if reply[0] == 'N' {
        Confirmation::Abort
    } else {
        Confirmation::Repeat
    }
}

/// Reads the operator's reply to a request for confirmation.
pub fn read_confirmation(reply: &str) -> (r: Confirmation)
    ensures
        r == confirmation_of(reply@),
{
    let chars = chars_of(reply);
    if chars.len() == 0 {
        Confirmation::Abort
    } else if chars[0] == 'Y' {
        Confirmation::Proceed
    } else if chars[0] == 'N' {
        Confirmation::Abort
    } else {
        Confirmation::Repeat
    }
}

/// What a dispatch needs to know of its plan.
#[derive(Copy, Clone, Debug, PartialEq, Eq)]
pub struct Attempt {
    pub payment_id: [u8; 32],
    pub record: PaymentInfo,
    /// Whether the payment is made against an invoice.
    pub by_invoice: bool,
    /// Whether the engine derives route parameters for the payment. Only a
    /// payment against an invoice needs them.
    pub derivable: bool,
    /// Whether the operator must confirm first.
    pub confirm: bool,
}

/// What a dispatch is waiting for.
#[derive(Copy, Clone, Debug, PartialEq, Eq, Structural)]
pub enum DispatchPhase {
    /// For the operator's confirmation.
    Confirming,
    /// For the route parameters of the invoice.
    Deriving,
    /// For the ledger, which now holds the pending record, to be written.
    Persisting,
    /// For the engine's answer to the payment.
    Submitted,
    /// For the ledger, which now holds the failed record, to be written.
    PersistingFailure,
    /// For nothing: the dispatch is over.
    Finished,
}

/// What the caller reports back.
#[derive(Copy, Clone, Debug, PartialEq, Eq, Structural)]
pub enum DispatchEvent {
    /// The operator replied to the request for confirmation.
    Replied(Confirmation),
    /// The route parameters were derived from the invoice, or could not be.
    Derived { ok: bool },
    /// The ledger as it stands has been written to storage.
    SnapshotWritten,
    /// The engine accepted the payment, or refused it.
    EngineAnswered { accepted: bool },
}

/// How a dispatch ended, as the operator is told.
#[derive(Copy, Clone, Debug, PartialEq, Eq, Structural)]
pub enum PaymentOutcome {
    /// The engine has the payment.
    InFlight,
    /// The engine refused the payment.
    Refused,
    /// The operator did not confirm.
    Abandoned,
    /// No route parameters could be derived from the invoice.
    NoParameters,
}

/// What the caller has to do next.
#[derive(Copy, Clone, Debug, PartialEq, Eq, Structural)]
pub enum DispatchAction {
    /// Ask the operator to confirm, then report `Replied`.
    AskConfirmation,
    /// Derive the route parameters, then report `Derived`.
    DeriveParameters,
    /// Write the ledger to storage, then report `SnapshotWritten`.
    WriteSnapshot,
    /// Hand the payment to the engine, then report `EngineAnswered`.
    Submit,
    /// Tell the operator how the dispatch ended.
    Report(PaymentOutcome),
    /// Nothing: the dispatch is over.
    Rest,
}

/// The result of one step: the phase and the ledger afterwards, and the
/// action asked of the caller.
pub struct Step {
    pub phase: DispatchPhase,
    pub ledger: Map<Seq<u8>, PaymentInfo>,
    pub action: DispatchAction,
}

/// The action that a phase is waiting for.
pub open spec fn awaited(phase: DispatchPhase) -> DispatchAction {
    match phase {
        DispatchPhase::Confirming => DispatchAction::AskConfirmation,
        DispatchPhase::Deriving => DispatchAction::DeriveParameters,
        DispatchPhase::Persisting => DispatchAction::WriteSnapshot,
        DispatchPhase::Submitted => DispatchAction::Submit,
        DispatchPhase::PersistingFailure => DispatchAction::WriteSnapshot,
        DispatchPhase::Finished => DispatchAction::Rest,
    }
}

/// The ledger with the attempt's pending record put in, and the request
/// to write it.
pub open spec fn recorded(attempt: Attempt, ledger: Map<Seq<u8>, PaymentInfo>) -> Step {
    Step {
        phase: DispatchPhase::Persisting,
        ledger: ledger.insert(attempt.payment_id@, attempt.record),
        action: DispatchAction::WriteSnapshot,
    }
}

/// How a dispatch starts: with the confirmation where one is needed, else
/// with the route parameters for an invoice, else with the pending record.
/// A payment against an invoice for which the engine derives no route
/// parameters ends at once, and the ledger stays as it is.
pub open spec fn first_step(attempt: Attempt, ledger: Map<Seq<u8>, PaymentInfo>) -> Step {
    if attempt.confirm {
        Step { phase: DispatchPhase::Confirming, ledger, action: DispatchAction::AskConfirmation }
    } else if attempt.by_invoice {
        if attempt.derivable {
            Step { phase: DispatchPhase::Deriving, ledger, action: DispatchAction::DeriveParameters }
        } else {
            Step {
                phase: DispatchPhase::Finished,
                ledger,
                action: DispatchAction::Report(PaymentOutcome::NoParameters),
            }
        }
    } else {
        recorded(attempt, ledger)
    }
}

/// How a dispatch goes on when the caller reports `event`.
///
/// The pending record is put in the ledger once the operator has
/// confirmed, or the parameters are there, and before the payment is
/// submitted; the payment is submitted once that ledger has been written.
/// Where the engine refuses the payment, whatever it was made against,
/// the attempt is recorded as failed and the ledger written again before
/// the operator is told: no refused attempt is left pending. An event
/// that the phase does not wait for changes nothing and repeats the
/// request.
pub open spec fn next_step(
    attempt: Attempt,
    phase: DispatchPhase,
    ledger: Map<Seq<u8>, PaymentInfo>,
    event: DispatchEvent,
) -> Step {
    match (phase, event) {
        (DispatchPhase::Confirming, DispatchEvent::Replied(Confirmation::Proceed)) => recorded(
            attempt,
            ledger,
        ),
        (DispatchPhase::Confirming, DispatchEvent::Replied(Confirmation::Abort)) => Step {
            phase: DispatchPhase::Finished,
            ledger,
            action: DispatchAction::Report(PaymentOutcome::Abandoned),
        },
        (DispatchPhase::Deriving, DispatchEvent::Derived { ok: true }) => recorded(
            attempt,
            ledger,
        ),
        (DispatchPhase::Deriving, DispatchEvent::Derived { ok: false }) => Step {
            phase: DispatchPhase::Finished,
            ledger,
            action: DispatchAction::Report(PaymentOutcome::NoParameters),
        },
        (DispatchPhase::Persisting, DispatchEvent::SnapshotWritten) => Step {
            phase: DispatchPhase::Submitted,
            ledger,
            action: DispatchAction::Submit,
        },
        (DispatchPhase::Submitted, DispatchEvent::EngineAnswered { accepted: true }) => Step {
            phase: DispatchPhase::Finished,
            ledger,
            action: DispatchAction::Report(PaymentOutcome::InFlight),
        },
        (DispatchPhase::Submitted, DispatchEvent::EngineAnswered { accepted: false }) => Step {
            phase: DispatchPhase::PersistingFailure,
            ledger: failed_at(ledger, attempt.payment_id@),
            action: DispatchAction::WriteSnapshot,
        },
        (DispatchPhase::PersistingFailure, DispatchEvent::SnapshotWritten) => Step {
            phase: DispatchPhase::Finished,
            ledger,
            action: DispatchAction::Report(PaymentOutcome::Refused),
        },
        _ => Step { phase, ledger, action: awaited(phase) },
    }
}

/// Whether the engine derives route parameters for a plan: for a payment
/// against an invoice as `parameters_derivable` says of the amount that
/// the plan's record holds, which is the amount that the invoice names;
/// any other payment needs none.
pub open spec fn plan_derivable(plan: PaymentPlan) -> bool {
    match plan.route {
        PaymentRoute::Invoice { amount, .. } => parameters_derivable(
            plan.record.amt_msat.0,
            amount,
        ),
        _ => true,
    }
}

/// The attempt that a plan makes.
pub open spec fn attempt_of(plan: PaymentPlan) -> Attempt {
    Attempt {
        payment_id: plan.payment_id,
        record: plan.record,
        by_invoice: plan.route is Invoice,
        derivable: plan_derivable(plan),
        confirm: plan.confirm,
    }
}

/// A payment on its way from plan to outcome.
#[derive(Copy, Clone, Debug, PartialEq, Eq)]
pub struct Dispatch {
    pub attempt: Attempt,
    pub phase: DispatchPhase,
}

impl Dispatch {
    /// Starts the dispatch of a plan and says what to do first. The ledger
    /// is changed only where the first step already records the payment.
    pub fn begin(plan: &PaymentPlan, ledger: &mut OutboundPaymentInfoStorage) -> (r: (
        Dispatch,
        DispatchAction,
    ))
        ensures
            r.0.attempt == attempt_of(*plan),
            r.0.phase == first_step(attempt_of(*plan), old(ledger)@).phase,
            final(ledger)@ == first_step(attempt_of(*plan), old(ledger)@).ledger,
            r.1 == first_step(attempt_of(*plan), old(ledger)@).action,
    {
        let (by_invoice, derivable) = match &plan.route {
            PaymentRoute::Invoice { amount, .. } => (
                true,
                can_derive_parameters(plan.record.amt_msat.0, *amount),
            ),
            _ => (false, true),
        };
        let attempt = Attempt {
            payment_id: plan.payment_id,
            record: plan.record,
            by_invoice,
            derivable,
            confirm: plan.confirm,
        };
        if attempt.confirm {
            (Dispatch { attempt, phase: DispatchPhase::Confirming }, DispatchAction::AskConfirmation)
        } else if attempt.by_invoice {
            if attempt.derivable {
                (
                    Dispatch { attempt, phase: DispatchPhase::Deriving },
                    DispatchAction::DeriveParameters,
                )
            } else {
                (
                    Dispatch { attempt, phase: DispatchPhase::Finished },
                    DispatchAction::Report(PaymentOutcome::NoParameters),
                )
            }
        } else {
            ledger.insert(attempt.payment_id, attempt.record);
            (Dispatch { attempt, phase: DispatchPhase::Persisting }, DispatchAction::WriteSnapshot)
        }
    }

    /// Takes the caller's report and says what to do next.
    pub fn advance(&mut self, event: DispatchEvent, ledger: &mut OutboundPaymentInfoStorage) -> (r:
        DispatchAction)
        ensures
            final(self).attempt == old(self).attempt,
            final(self).phase == next_step(
                old(self).attempt,
                old(self).phase,
                old(ledger)@,
                event,
            ).phase,
            final(ledger)@ == next_step(
                old(self).attempt,
                old(self).phase,
                old(ledger)@,
                event,
            ).ledger,
            r == next_step(old(self).attempt, old(self).phase, old(ledger)@, event).action,
    {
        let attempt = self.attempt;
        match (self.phase, event) {
            (DispatchPhase::Confirming, DispatchEvent::Replied(Confirmation::Proceed)) => {
                ledger.insert(attempt.payment_id, attempt.record);
                self.phase = DispatchPhase::Persisting;
                DispatchAction::WriteSnapshot
            },
            (DispatchPhase::Confirming, DispatchEvent::Replied(Confirmation::Abort)) => {
                self.phase = DispatchPhase::Finished;
                DispatchAction::Report(PaymentOutcome::Abandoned)
            },
            (DispatchPhase::Deriving, DispatchEvent::Derived { ok: true }) => {
                ledger.insert(attempt.payment_id, attempt.record);
                self.phase = DispatchPhase::Persisting;
                DispatchAction::WriteSnapshot
            },
            (DispatchPhase::Deriving, DispatchEvent::Derived { ok: false }) => {
                self.phase = DispatchPhase::Finished;
                DispatchAction::Report(PaymentOutcome::NoParameters)
            },
            (DispatchPhase::Persisting, DispatchEvent::SnapshotWritten) => {
                self.phase = DispatchPhase::Submitted;
                DispatchAction::Submit
            },
            (DispatchPhase::Submitted, DispatchEvent::EngineAnswered { accepted: true }) => {
                self.phase = DispatchPhase::Finished;
                DispatchAction::Report(PaymentOutcome::InFlight)
            },
            (DispatchPhase::Submitted, DispatchEvent::EngineAnswered { accepted: false }) => {
                ledger.mark_failed(&attempt.payment_id);
                self.phase = DispatchPhase::PersistingFailure;
                DispatchAction::WriteSnapshot
            },
            (DispatchPhase::PersistingFailure, DispatchEvent::SnapshotWritten) => {
                self.phase = DispatchPhase::Finished;
                DispatchAction::Report(PaymentOutcome::Refused)
            },
            (phase, _) => match phase {
                DispatchPhase::Confirming => DispatchAction::AskConfirmation,
                DispatchPhase::Deriving => DispatchAction::DeriveParameters,
                DispatchPhase::Persisting => DispatchAction::WriteSnapshot,
                DispatchPhase::Submitted => DispatchAction::Submit,
                DispatchPhase::PersistingFailure => DispatchAction::WriteSnapshot,
                DispatchPhase::Finished => DispatchAction::Rest,
            },
        }
    }
}

/// A dispatch together with what storage holds: the phase, the ledger in
/// memory and the ledger as it was last written.
pub struct World {
    pub phase: DispatchPhase,
    pub ledger: Map<Seq<u8>, PaymentInfo>,
    pub stored: Map<Seq<u8>, PaymentInfo>,
}

/// The world in which a dispatch starts.
pub open spec fn first_world(
    attempt: Attempt,
    ledger: Map<Seq<u8>, PaymentInfo>,
    stored: Map<Seq<u8>, PaymentInfo>,
) -> World {
    let step = first_step(attempt, ledger);
    World { phase: step.phase, ledger: step.ledger, stored }
}

/// The world after the caller has reported `event`. `SnapshotWritten`
/// says that storage holds the ledger as it stood; no other event touches
/// storage.
pub open spec fn world_step(attempt: Attempt, world: World, event: DispatchEvent) -> World {
    let step = next_step(attempt, world.phase, world.ledger, event);
    World {
        phase: step.phase,
        ledger: step.ledger,
        stored: if event == DispatchEvent::SnapshotWritten {
            world.ledger
        } else {
            world.stored
        },
    }
}

/// The world after the caller has reported `events`, one after the other.
pub open spec fn world_after(attempt: Attempt, world: World, events: Seq<DispatchEvent>) -> World
    decreases events.len(),
{
    if events.len() == 0 {
        world
    } else {
        world_step(attempt, world_after(attempt, world, events.drop_last()), events.last())
    }
}

/// What holds of a dispatch at every moment: while the ledger waits to be
/// written it holds the attempt's record, while the engine has the
/// payment, storage and memory agree and hold that record, and once the
/// engine has refused, the ledger holds the record as failed.
pub open spec fn consistent(attempt: Attempt, world: World) -> bool {
    &&& world.phase == DispatchPhase::Persisting ==> world.ledger.contains_pair(
        attempt.payment_id@,
        attempt.record,
    )
    &&& world.phase == DispatchPhase::Submitted ==> world.stored == world.ledger
        && world.stored.contains_pair(attempt.payment_id@, attempt.record)
    &&& world.phase == DispatchPhase::PersistingFailure ==> world.ledger.contains_pair(
        attempt.payment_id@,
        attempt.record.failed(),
    )
}

/// A dispatch starts consistent, whatever the ledger and storage hold.
pub proof fn lemma_first_world_consistent(
    attempt: Attempt,
    ledger: Map<Seq<u8>, PaymentInfo>,
    stored: Map<Seq<u8>, PaymentInfo>,
)
    ensures
        consistent(attempt, first_world(attempt, ledger, stored)),
{
}

/// Every event keeps a dispatch consistent.
pub proof fn lemma_step_consistent(attempt: Attempt, world: World, event: DispatchEvent)
    requires
        consistent(attempt, world),
    ensures
        consistent(attempt, world_step(attempt, world, event)),
{
}

/// A dispatch is consistent after any events, in turn or out of turn.
pub proof fn lemma_always_consistent(
    attempt: Attempt,
    ledger: Map<Seq<u8>, PaymentInfo>,
    stored: Map<Seq<u8>, PaymentInfo>,
    events: Seq<DispatchEvent>,
)
    ensures
        consistent(
            attempt,
            world_after(attempt, first_world(attempt, ledger, stored), events),
        ),
    decreases events.len(),
{
    let start = first_world(attempt, ledger, stored);
    if events.len() == 0 {
        lemma_first_world_consistent(attempt, ledger, stored);
    } else {
        lemma_always_consistent(attempt, ledger, stored, events.drop_last());
        lemma_step_consistent(
            attempt,
            world_after(attempt, start, events.drop_last()),
            events.last(),
        );
    }
}

/// The operator is told that a payment is in flight only when storage
/// already holds the payment's record: whenever, after any events, the
/// next event makes the dispatch report `InFlight`, the ledger that was
/// last written holds the record under the payment's identifier, and the
/// report leaves it there.
pub proof fn lemma_stored_before_in_flight(
    attempt: Attempt,
    ledger: Map<Seq<u8>, PaymentInfo>,
    stored: Map<Seq<u8>, PaymentInfo>,
    events: Seq<DispatchEvent>,
    event: DispatchEvent,
)
    requires
        next_step(
            attempt,
            world_after(attempt, first_world(attempt, ledger, stored), events).phase,
            world_after(attempt, first_world(attempt, ledger, stored), events).ledger,
            event,
        ).action == DispatchAction::Report(PaymentOutcome::InFlight),
    ensures
        world_after(attempt, first_world(attempt, ledger, stored), events).stored.contains_pair(
            attempt.payment_id@,
            attempt.record,
        ),
        world_step(
            attempt,
            world_after(attempt, first_world(attempt, ledger, stored), events),
            event,
        ).stored.contains_pair(attempt.payment_id@, attempt.record),
{
    lemma_always_consistent(attempt, ledger, stored, events);
}

/// No refused attempt is left pending, and the operator is told of a
/// refusal only when storage says so too: whenever, after any events, the
/// next event makes the dispatch report `Refused`, the ledger and the
/// ledger as written then both hold the attempt's record as failed. This
/// holds of a payment against an offer or a name as of one against an
/// invoice.
pub proof fn lemma_refused_is_stored_as_failed(
    attempt: Attempt,
    ledger: Map<Seq<u8>, PaymentInfo>,
    stored: Map<Seq<u8>, PaymentInfo>,
    events: Seq<DispatchEvent>,
    event: DispatchEvent,
)
    requires
        next_step(
            attempt,
            world_after(attempt, first_world(attempt, ledger, stored), events).phase,
            world_after(attempt, first_world(attempt, ledger, stored), events).ledger,
            event,
        ).action == DispatchAction::Report(PaymentOutcome::Refused),
    ensures
        ({
            let end = world_step(
                attempt,
                world_after(attempt, first_world(attempt, ledger, stored), events),
                event,
            );
            &&& end.stored == end.ledger
            &&& end.stored.contains_pair(attempt.payment_id@, attempt.record.failed())
            &&& attempt.record.status == HTLCStatus::Pending ==> end.stored[attempt.payment_id@].status
                == HTLCStatus::Failed
        }),
{
    lemma_always_consistent(attempt, ledger, stored, events);
}

/// Once the engine has refused a payment, the attempt is recorded as
/// failed at once and the ledger is to be written, whatever the payment
/// was made against.
pub proof fn lemma_refusal_marks_failed(attempt: Attempt, ledger: Map<Seq<u8>, PaymentInfo>)
    ensures
        next_step(
            attempt,
            DispatchPhase::Submitted,
            ledger,
            DispatchEvent::EngineAnswered { accepted: false },
        ) == (Step {
            phase: DispatchPhase::PersistingFailure,
            ledger: failed_at(ledger, attempt.payment_id@),
            action: DispatchAction::WriteSnapshot,
        }),
        ledger.contains_key(attempt.payment_id@) ==> failed_at(
            ledger,
            attempt.payment_id@,
        )[attempt.payment_id@].status != HTLCStatus::Pending,
{
}

/// A payment against an invoice starts by deriving the route parameters,
/// but for an invoice that names the amount zero: the engine derives none
/// for it, so its dispatch ends at once without parameters, and the
/// ledger stays as it is.
pub proof fn lemma_invoice_first_step(
    invoice: Bolt11Invoice,
    payment_hash: [u8; 32],
    secret: [u8; 32],
    asked_msat: Option<u64>,
    operator_msat: Option<u64>,
    ledger: Map<Seq<u8>, PaymentInfo>,
)
    requires
        invoice_plan(invoice, payment_hash, secret, asked_msat, operator_msat).is_ok(),
    ensures
        ({
            let plan = invoice_plan(
                invoice,
                payment_hash,
                secret,
                asked_msat,
                operator_msat,
            ).unwrap();
            let step = first_step(attempt_of(plan), ledger);
            &&& step.ledger == ledger
            &&& asked_msat == Some(0u64) ==> step.phase == DispatchPhase::Finished && step.action
                == DispatchAction::Report(PaymentOutcome::NoParameters)
            &&& asked_msat != Some(0u64) ==> step.phase == DispatchPhase::Deriving && step.action
                == DispatchAction::DeriveParameters
        }),
{
}

/// A step changes no record but the attempt's own.
pub proof fn lemma_other_records_kept(
    attempt: Attempt,
    phase: DispatchPhase,
    ledger: Map<Seq<u8>, PaymentInfo>,
    event: DispatchEvent,
    id: Seq<u8>,
)
    requires
        id != attempt.payment_id@,
    ensures
        next_step(attempt, phase, ledger, event).ledger.contains_key(id) == ledger.contains_key(
            id,
        ),
        ledger.contains_key(id) ==> next_step(attempt, phase, ledger, event).ledger[id]
            == ledger[id],
        first_step(attempt, ledger).ledger.contains_key(id) == ledger.contains_key(id),
        ledger.contains_key(id) ==> first_step(attempt, ledger).ledger[id] == ledger[id],
{
}

/// The world at the end of one whole dispatch of a payment against an
/// invoice for which the engine derives parameters, with every event
/// reported in turn: the parameters are derived, the ledger is written,
/// the engine answers, and where it refused the ledger is written once
/// more.
pub open spec fn invoice_dispatch(
    attempt: Attempt,
    ledger: Map<Seq<u8>, PaymentInfo>,
    stored: Map<Seq<u8>, PaymentInfo>,
    accepted: bool,
) -> World {
    let derived = world_step(
        attempt,
        first_world(attempt, ledger, stored),
        DispatchEvent::Derived { ok: true },
    );
    let written = world_step(attempt, derived, DispatchEvent::SnapshotWritten);
    let answered = world_step(attempt, written, DispatchEvent::EngineAnswered { accepted });
    if accepted {
        answered
    } else {
        world_step(attempt, answered, DispatchEvent::SnapshotWritten)
    }
}

/// The record that one whole dispatch of a payment against an invoice
/// leaves: pending where the engine accepted, failed where it refused.
pub open spec fn record_left(attempt: Attempt, accepted: bool) -> PaymentInfo {
    if accepted {
        attempt.record
    } else {
        attempt.record.failed()
    }
}

/// One whole dispatch against an invoice ends finished, leaves one record
/// under the payment's identifier, with the status that the engine's
/// answer gives, and leaves storage equal to the ledger.
pub proof fn lemma_invoice_dispatch(
    attempt: Attempt,
    ledger: Map<Seq<u8>, PaymentInfo>,
    stored: Map<Seq<u8>, PaymentInfo>,
    accepted: bool,
)
    requires
        attempt.by_invoice,
        attempt.derivable,
        !attempt.confirm,
    ensures
        invoice_dispatch(attempt, ledger, stored, accepted).phase == DispatchPhase::Finished,
        invoice_dispatch(attempt, ledger, stored, accepted).ledger == ledger.insert(
            attempt.payment_id@,
            record_left(attempt, accepted),
        ),
        invoice_dispatch(attempt, ledger, stored, accepted).stored == invoice_dispatch(
            attempt,
            ledger,
            stored,
            accepted,
        ).ledger,
{
    let end = invoice_dispatch(attempt, ledger, stored, accepted);
    assert(end.ledger =~= ledger.insert(attempt.payment_id@, record_left(attempt, accepted)));
}

/// Paying the same invoice twice leaves one record, not two: after two
/// whole dispatches of the same attempt the ledger is what the second
/// dispatch alone would have left, the record's status is the one that
/// the second answer gives, pending where the engine accepted and failed
/// where it refused, and the ledger has the identifiers that it had
/// before and the payment's own.
pub proof fn lemma_resubmission(
    attempt: Attempt,
    ledger: Map<Seq<u8>, PaymentInfo>,
    stored: Map<Seq<u8>, PaymentInfo>,
    first_accepted: bool,
    second_accepted: bool,
)
    requires
        attempt.by_invoice,
        attempt.derivable,
        !attempt.confirm,
        attempt.record.status == HTLCStatus::Pending,
    ensures
        ({
            let first = invoice_dispatch(attempt, ledger, stored, first_accepted);
            let second = invoice_dispatch(attempt, first.ledger, first.stored, second_accepted);
            &&& second.ledger == invoice_dispatch(attempt, ledger, stored, second_accepted).ledger
            &&& second.ledger == ledger.insert(
                attempt.payment_id@,
                record_left(attempt, second_accepted),
            )
            &&& second.ledger[attempt.payment_id@].status == if second_accepted {
                HTLCStatus::Pending
            } else {
                HTLCStatus::Failed
            }
            &&& second.ledger.dom() == ledger.dom().insert(attempt.payment_id@)
            &&& second.stored == second.ledger
            &&& ledger.dom() == Set::<Seq<u8>>::empty() ==> second.ledger.dom().len() == 1
        }),
{
    let first = invoice_dispatch(attempt, ledger, stored, first_accepted);
    lemma_invoice_dispatch(attempt, ledger, stored, first_accepted);
    lemma_invoice_dispatch(attempt, first.ledger, first.stored, second_accepted);
    lemma_invoice_dispatch(attempt, ledger, stored, second_accepted);
    let second = invoice_dispatch(attempt, first.ledger, first.stored, second_accepted);
    let left = record_left(attempt, second_accepted);
    assert(second.ledger =~= ledger.insert(attempt.payment_id@, left));
    assert(second.ledger.dom() =~= ledger.dom().insert(attempt.payment_id@));
    if ledger.dom() == Set::<Seq<u8>>::empty() {
        assert(second.ledger.dom() =~= set![attempt.payment_id@]);
    }
}

/// A dispatch keeps the ledger well formed: where every record of the
/// ledger and the attempt's own record are well formed, so is every record
/// after the first step and after any event.
pub proof fn lemma_dispatch_keeps_records_well_formed(
    attempt: Attempt,
    phase: DispatchPhase,
    ledger: Map<Seq<u8>, PaymentInfo>,
    event: DispatchEvent,
)
    requires
        records_wf(ledger),
        attempt.record.wf(),
    ensures
        records_wf(first_step(attempt, ledger).ledger),
        records_wf(next_step(attempt, phase, ledger, event).ledger),
{
}

/// For how long the engine may try other routes for a payment, in
/// seconds from the moment it is submitted.
pub const RETRY_TIMEOUT_SECS: u64 = 10;

/// The question put to the operator before an offer is paid.
pub open spec fn confirmation_prompt_text(amount: MillisatAmount) -> Seq<char> {
    "Paying offer for "@ + amount.text() + " msat. Continue (Y/N)? >"@
}

/// Writes the question put to the operator before an offer is paid.
pub fn confirmation_prompt(amount: MillisatAmount) -> (r: String)
    ensures
        r@ == confirmation_prompt_text(amount),
{
    let mut out = String::from_str("Paying offer for ");
    out.append(amount.to_string().as_str());
    out.append(" msat. Continue (Y/N)? >");
    out
}

impl PaymentOutcome {
    /// What the operator is told at the end of a dispatch over `route`.
    /// `said` is what the engine has to add: for an invoice in flight the
    /// payee, for a refused offer or invoice the engine's own words.
    /// Nothing is said of a payment that the operator did not confirm.
    pub open spec fn message_text(self, route: PaymentRoute, said: Seq<char>) -> Seq<char> {
        match self {
            PaymentOutcome::InFlight => match route {
                PaymentRoute::Invoice { amount, .. } => "EVENT: initiated sending "@
                    + decimal_digits(amount.msat() as nat) + " msats to "@ + said,
                _ => "Payment in flight"@,
            },
            PaymentOutcome::Refused => match route {
                PaymentRoute::Offer { .. } => "ERROR: Failed to pay: "@ + said,
                PaymentRoute::Name { .. } => "ERROR: Failed to pay"@,
                PaymentRoute::Invoice { .. } => "ERROR: failed to send payment: "@ + said,
            },
            PaymentOutcome::Abandoned => ""@,
            PaymentOutcome::NoParameters => "Failed to parse invoice: ()"@,
        }
    }

    /// Writes what the operator is told at the end of a dispatch.
    pub fn message(&self, route: &PaymentRoute, said: &str) -> (r: String)
        ensures
            r@ == self.message_text(*route, said@),
    {
        match self {
            PaymentOutcome::InFlight => match route {
                PaymentRoute::Invoice { amount, .. } => {
                    let mut out = String::from_str("EVENT: initiated sending ");
                    out.append(decimal_text(amount.amount_msat()).as_str());
                    out.append(" msats to ");
                    out.append(said);
                    out
                },
                _ => String::from_str("Payment in flight"),
            },
            PaymentOutcome::Refused => match route {
                PaymentRoute::Offer { .. } => {
                    let mut out = String::from_str("ERROR: Failed to pay: ");
                    out.append(said);
                    out
                },
                PaymentRoute::Name { .. } => String::from_str("ERROR: Failed to pay"),
                PaymentRoute::Invoice { .. } => {
                    let mut out = String::from_str("ERROR: failed to send payment: ");
                    out.append(said);
                    out
                },
            },
            PaymentOutcome::Abandoned => String::from_str(""),
            PaymentOutcome::NoParameters => String::from_str("Failed to parse invoice: ()"),
        }
    }
}

} // verus!
