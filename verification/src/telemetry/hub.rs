//! Who watches the program, and who switches its traffic.

use vstd::prelude::*;
use super::{
    field, field_or, finding_names_read_back, health_fields, health_of, state_names_read_back,
    EventView, HealthView, TraceEvent, TunnelHealth, TunnelState,
};
use super::snapshot::{
    fresh, has_room, ingested, shows, DashboardSnapshot, MonitorContext, SnapshotState, SnapshotView,
};
use crate::failure::Failure;
use crate::num::{
    decimal, decimal_reads_back, parse_unsigned, signed_decimal, to_decimal, to_signed_decimal,
    unsigned_value,
};
use crate::paths::str_view;
use crate::text::{cat, cat3};
use crate::textmap::TextMap;

verus! {

/// How many milliseconds an order may take.
pub const CONTROL_TIMEOUT: u64 = 10000;

// ---------------------------------------------------------------------------
// Traffic

/// Where traffic goes.
#[derive(Clone, Copy, Debug, PartialEq, Eq, Structural)]
pub enum TrafficState {
    Proxying,
    Bypass,
}

impl Default for TrafficState {
    fn default() -> (r: Self)
        ensures
            r == TrafficState::Proxying,
    {
        TrafficState::Proxying
    }
}

impl TrafficState {
    /// The name of a state.
    pub open spec fn name(self) -> Seq<char> {
        match self {
            TrafficState::Proxying => "proxying"@,
            TrafficState::Bypass => "bypass"@,
        }
    }

    /// The name of the state.
    pub fn as_str(self) -> (r: &'static str)
        ensures
            r@ == self.name(),
    {
        match self {
            TrafficState::Proxying => "proxying",
            TrafficState::Bypass => "bypass",
        }
    }
}

/// Where traffic is wanted.
#[derive(Clone, Copy, Debug, PartialEq, Eq, Structural)]
pub enum TrafficSwitchTarget {
    Toggle,
    Proxying,
    Bypass,
}

impl TrafficSwitchTarget {
    /// Where traffic goes after an order.
    pub open spec fn resolved(self, current: TrafficState) -> TrafficState {
        match self {
            TrafficSwitchTarget::Toggle => if current == TrafficState::Proxying {
                TrafficState::Bypass
            } else {
                TrafficState::Proxying
            },
            TrafficSwitchTarget::Proxying => TrafficState::Proxying,
            TrafficSwitchTarget::Bypass => TrafficState::Bypass,
        }
    }

    /// Where traffic goes after the order.
    pub fn resolve(self, current: TrafficState) -> (r: TrafficState)
        ensures
            r == self.resolved(current),
    {
        match self {
            TrafficSwitchTarget::Toggle => match current {
                TrafficState::Proxying => TrafficState::Bypass,
                TrafficState::Bypass => TrafficState::Proxying,
            },
            TrafficSwitchTarget::Proxying => TrafficState::Proxying,
            TrafficSwitchTarget::Bypass => TrafficState::Bypass,
        }
    }
}

/// Two toggles undo each other, and the other orders do not depend on what was.
pub proof fn toggling_twice_changes_nothing(current: TrafficState, other: TrafficState)
    ensures
        TrafficSwitchTarget::Toggle.resolved(TrafficSwitchTarget::Toggle.resolved(current))
            == current,
        TrafficSwitchTarget::Proxying.resolved(current) == TrafficSwitchTarget::Proxying.resolved(
            other,
        ),
        TrafficSwitchTarget::Bypass.resolved(current) == TrafficSwitchTarget::Bypass.resolved(
            other,
        ),
{
}

// ---------------------------------------------------------------------------
// Orders

/// What an order says.
#[derive(Clone, Copy, Debug, PartialEq, Eq, Structural)]
pub enum ControlCommand {
    Switch { target: TrafficSwitchTarget },
}

/// An order.
#[derive(Clone, Copy, Debug, PartialEq, Eq, Structural)]
pub struct ControlRequest {
    pub command: ControlCommand,
}

/// What became of an order.
#[derive(Debug)]
pub struct ControlResponse {
    pub ok: bool,
    pub previous_state: Option<TrafficState>,
    pub state: Option<TrafficState>,
    pub message: String,
}

/// What became of an order.
#[verifier::ext_equal]
pub struct ResponseView {
    pub ok: bool,
    pub previous_state: Option<TrafficState>,
    pub state: Option<TrafficState>,
    pub message: Seq<char>,
}

impl View for ControlResponse {
    type V = ResponseView;

    open spec fn view(&self) -> ResponseView {
        ResponseView {
            ok: self.ok,
            previous_state: self.previous_state,
            state: self.state,
            message: self.message@,
        }
    }
}

/// What is said of an order that was not carried out.
pub open spec fn refusal(message: Seq<char>) -> ResponseView {
    ResponseView { ok: false, previous_state: None, state: None, message }
}

impl ControlResponse {
    /// The traffic was switched.
    pub fn ok(previous_state: TrafficState, state: TrafficState) -> (r: Self)
        ensures
            r@ == (ResponseView {
                ok: true,
                previous_state: Some(previous_state),
                state: Some(state),
                message: "traffic state switched "@ + previous_state.name() + " -> "@
                    + state.name(),
            }),
    {
        let head = cat3("traffic state switched ", previous_state.as_str(), " -> ");
        ControlResponse {
            ok: true,
            previous_state: Some(previous_state),
            state: Some(state),
            message: cat(head.as_str(), state.as_str()),
        }
    }

    /// The order was not carried out.
    pub fn error(message: &str) -> (r: Self)
        ensures
            r@ == refusal(message@),
    {
        ControlResponse {
            ok: false,
            previous_state: None,
            state: None,
            message: message.to_owned(),
        }
    }
}

/// A response of a program that says too little, made up from what was known
/// before.
pub open spec fn completed(
    response: ResponseView,
    previous: TrafficState,
    target: TrafficSwitchTarget,
) -> ResponseView {
    ResponseView {
        previous_state: match response.previous_state {
            Some(p) => Some(p),
            None => Some(previous),
        },
        state: match response.state {
            Some(s) => Some(s),
            None => if response.ok {
                Some(target.resolved(previous))
            } else {
                None
            },
        },
        ..response
    }
}

/// Fills in what a response leaves out.
pub fn control_response_with_state_fallback(
    response: ControlResponse,
    previous_state: TrafficState,
    target: TrafficSwitchTarget,
) -> (r: ControlResponse)
    ensures
        r@ == completed(response@, previous_state, target),
{
    let mut response = response;
    if response.previous_state.is_none() {
        response.previous_state = Some(previous_state);
    }
    if response.ok && response.state.is_none() {
        response.state = Some(target.resolve(previous_state));
    }
    response
}

/// How far an order came.
pub enum Handling {
    /// Nobody takes orders.
    Unsupported,
    /// Whoever took orders is gone.
    Unavailable,
    Answered(ControlResponse),
    /// The order was dropped.
    Dropped,
    TimedOut,
}

/// What became of an order.
pub fn dispatch_control(handling: Handling) -> (r: ControlResponse)
    ensures
        r@ == match handling {
            Handling::Unsupported => refusal("runtime switch is not supported by this daemon"@),
            Handling::Unavailable => refusal("runtime switch handler is not available"@),
            Handling::Answered(a) => a@,
            Handling::Dropped => refusal("runtime switch handler closed"@),
            Handling::TimedOut => refusal("runtime switch handler timed out"@),
        },
{
    match handling {
        Handling::Unsupported => ControlResponse::error(
            "runtime switch is not supported by this daemon",
        ),
        Handling::Unavailable => ControlResponse::error("runtime switch handler is not available"),
        Handling::Answered(a) => a,
        Handling::Dropped => ControlResponse::error("runtime switch handler closed"),
        Handling::TimedOut => ControlResponse::error("runtime switch handler timed out"),
    }
}

// ---------------------------------------------------------------------------
// Messages

/// What is sent between a program and those who watch it.
pub enum WireMessage {
    Snapshot(DashboardSnapshot),
    Event(TraceEvent),
    Control(ControlRequest),
    ControlResponse(ControlResponse),
}

/// What reading a message gave.
pub enum LineRead {
    Failed(Failure),
    Closed,
    /// A line that is no message.
    Garbled(Failure),
    Message(WireMessage),
}

/// The failure of a first message that is no snapshot.
pub open spec fn first_failure(first: LineRead) -> Seq<Seq<char>> {
    match first {
        LineRead::Failed(e) => seq!["failed to read telemetry snapshot"@] + e@,
        LineRead::Closed => seq!["telemetry socket closed before snapshot"@],
        LineRead::Garbled(e) => seq!["failed to parse telemetry snapshot"@] + e@,
        LineRead::Message(_) => seq!["telemetry stream did not start with a snapshot"@],
    }
}

/// What one who watches starts from.
pub fn attach_socket(first: LineRead) -> (r: Result<DashboardSnapshot, Failure>)
    ensures
        match first {
            LineRead::Message(WireMessage::Snapshot(s)) => r == Ok::<DashboardSnapshot, Failure>(
                s,
            ),
            _ => r matches Err(e) && e@ == first_failure(first),
        },
{
    match first {
        LineRead::Failed(e) => Err(e.context("failed to read telemetry snapshot")),
        LineRead::Closed => Err(Failure::new("telemetry socket closed before snapshot")),
        LineRead::Garbled(e) => Err(e.context("failed to parse telemetry snapshot")),
        LineRead::Message(WireMessage::Snapshot(s)) => Ok(s),
        LineRead::Message(_) => Err(
            Failure::new("telemetry stream did not start with a snapshot"),
        ),
    }
}

/// What one who watches does with a message.
pub enum WatchMove {
    Stop,
    Skip,
    Show(TraceEvent),
}

/// What one who watches does with the next message.
pub fn watch_next(line: LineRead) -> (r: WatchMove)
    ensures
        r == match line {
            LineRead::Failed(_) | LineRead::Closed => WatchMove::Stop,
            LineRead::Message(WireMessage::Event(e)) => WatchMove::Show(e),
            _ => WatchMove::Skip,
        },
{
    match line {
        LineRead::Failed(_) => WatchMove::Stop,
        LineRead::Closed => WatchMove::Stop,
        LineRead::Garbled(_) => WatchMove::Skip,
        LineRead::Message(WireMessage::Event(e)) => WatchMove::Show(e),
        LineRead::Message(_) => WatchMove::Skip,
    }
}

/// Where an order stands.
pub enum SwitchStage {
    /// Before the first message.
    Start,
    /// The order is given. Where the traffic went, and since when it is given.
    Waiting(TrafficState, u64),
    Done,
}

/// What happens to an order.
pub enum SwitchEvent {
    Line(LineRead),
    /// The order could not be written.
    WriteFailed(Failure),
    /// No message came in time.
    TimedOut(Failure),
}

/// What is to be done for an order.
pub enum SwitchMove {
    /// Give the order, then wait so many milliseconds for a message.
    Order(ControlRequest, u64),
    Wait(u64),
    Finish(ControlResponse),
    Fail(Failure),
}

/// What is left of the time for an order, or the failure that there is none.
pub open spec fn time_left(since: u64, now: u64) -> Option<u64> {
    let elapsed = if now >= since {
        now - since
    } else {
        0
    };
    if elapsed <= CONTROL_TIMEOUT {
        Some((CONTROL_TIMEOUT - elapsed) as u64)
    } else {
        None
    }
}

fn remaining(since: u64, now: u64) -> (r: Option<u64>)
    ensures
        r == time_left(since, now),
{
    let elapsed: u64 = if now >= since { now - since } else { 0 };
    if elapsed <= CONTROL_TIMEOUT {
        Some(CONTROL_TIMEOUT - elapsed)
    } else {
        None
    }
}

/// The failure of an order that is under way, if the event is one.
pub open spec fn switch_failure(event: SwitchEvent) -> Option<Seq<Seq<char>>> {
    match event {
        SwitchEvent::WriteFailed(e) => Some(e@),
        SwitchEvent::TimedOut(e) => Some(seq!["timed out waiting for switch response"@] + e@),
        SwitchEvent::Line(LineRead::Failed(e)) => Some(
            seq!["failed to read switch response"@] + e@,
        ),
        SwitchEvent::Line(LineRead::Closed) => Some(
            seq!["telemetry socket closed before switch response"@],
        ),
        SwitchEvent::Line(LineRead::Garbled(e)) => Some(
            seq!["failed to parse switch response"@] + e@,
        ),
        SwitchEvent::Line(LineRead::Message(_)) => None,
    }
}

/// Gives an order to a program and waits for what becomes of it: the first
/// message tells where its traffic goes, then every message but a response is
/// passed over.
pub fn switch_socket(
    stage: SwitchStage,
    event: SwitchEvent,
    target: TrafficSwitchTarget,
    now: u64,
) -> (r: (SwitchStage, SwitchMove))
    requires
        !(stage is Done),
        stage is Start ==> event is Line,
    ensures
        match (stage, event) {
            (
                SwitchStage::Start,
                SwitchEvent::Line(LineRead::Message(WireMessage::Snapshot(s))),
            ) => {
                &&& r.0 == SwitchStage::Waiting(s.context.traffic_state, now)
                &&& r.1 == SwitchMove::Order(
                    ControlRequest { command: ControlCommand::Switch { target } },
                    CONTROL_TIMEOUT,
                )
            },
            (SwitchStage::Start, SwitchEvent::Line(first)) => {
                &&& r.0 is Done
                &&& r.1 matches SwitchMove::Fail(e)
                &&& e@ == first_failure(first)
            },
            (
                SwitchStage::Waiting(previous, since),
                SwitchEvent::Line(LineRead::Message(message)),
            ) => match message {
                WireMessage::ControlResponse(response) => {
                    &&& r.0 is Done
                    &&& r.1 matches SwitchMove::Finish(a)
                    &&& a@ == completed(response@, previous, target)
                },
                _ => match time_left(since, now) {
                    Some(left) => r.0 == stage && r.1 == SwitchMove::Wait(left),
                    None => {
                        &&& r.0 is Done
                        &&& r.1 matches SwitchMove::Fail(e)
                        &&& e@ == seq!["timed out waiting for switch response"@]
                    },
                },
            },
            (SwitchStage::Waiting(_, _), _) => {
                &&& r.0 is Done
                &&& r.1 matches SwitchMove::Fail(e)
                &&& Some(e@) == switch_failure(event)
            },
            _ => false,
        },
{
    match stage {
        SwitchStage::Start => match event {
            SwitchEvent::Line(first) => match attach_socket(first) {
                Ok(s) => (
                    SwitchStage::Waiting(s.context.traffic_state, now),
                    SwitchMove::Order(
                        ControlRequest { command: ControlCommand::Switch { target } },
                        CONTROL_TIMEOUT,
                    ),
                ),
                Err(e) => (SwitchStage::Done, SwitchMove::Fail(e)),
            },
            SwitchEvent::WriteFailed(e) => (SwitchStage::Done, SwitchMove::Fail(e)),
            SwitchEvent::TimedOut(e) => (SwitchStage::Done, SwitchMove::Fail(e)),
        },
        SwitchStage::Waiting(previous, since) => match event {
            SwitchEvent::WriteFailed(e) => (SwitchStage::Done, SwitchMove::Fail(e)),
            SwitchEvent::TimedOut(e) => (
                SwitchStage::Done,
                SwitchMove::Fail(e.context("timed out waiting for switch response")),
            ),
            SwitchEvent::Line(LineRead::Failed(e)) => (
                SwitchStage::Done,
                SwitchMove::Fail(e.context("failed to read switch response")),
            ),
            SwitchEvent::Line(LineRead::Closed) => (
                SwitchStage::Done,
                SwitchMove::Fail(Failure::new("telemetry socket closed before switch response")),
            ),
            SwitchEvent::Line(LineRead::Garbled(e)) => (
                SwitchStage::Done,
                SwitchMove::Fail(e.context("failed to parse switch response")),
            ),
            SwitchEvent::Line(LineRead::Message(WireMessage::ControlResponse(response))) => (
                SwitchStage::Done,
                SwitchMove::Finish(
                    control_response_with_state_fallback(response, previous, target),
                ),
            ),
            SwitchEvent::Line(LineRead::Message(_)) => match remaining(since, now) {
                Some(left) => (SwitchStage::Waiting(previous, since), SwitchMove::Wait(left)),
                None => (
                    SwitchStage::Done,
                    SwitchMove::Fail(Failure::new("timed out waiting for switch response")),
                ),
            },
        },
        SwitchStage::Done => (
            SwitchStage::Done,
            SwitchMove::Fail(Failure::new("timed out waiting for switch response")),
        ),
    }
}

/// What happens at the end of one who watches.
pub enum SubscriberEvent {
    Line(LineRead),
    Event(TraceEvent),
    /// Some events were missed.
    Lagged,
    /// No more events will come.
    Closed,
    /// What was to be written could not be.
    WriteFailed,
}

/// What is to be done for one who watches.
pub enum SubscriberMove {
    Wait,
    Stop,
    Fail(Failure),
    /// Have the order carried out, and write what becomes of it.
    Dispatch(ControlRequest),
    Write(TraceEvent),
}

/// What is written first to one who watches.
pub fn greet_subscriber(state: &SnapshotState, now: u64) -> (r: Result<DashboardSnapshot, Failure>)
    ensures
        match r {
            Ok(d) => shows(d, state@, now),
            Err(e) => state.context is None && e@ == seq!["telemetry context is not ready yet"@],
        },
{
    match state.snapshot(now) {
        Some(d) => Ok(d),
        None => Err(Failure::new("telemetry context is not ready yet")),
    }
}

/// What is done for one who watches: orders are carried out, events are passed
/// on, and what is neither is passed over.
pub fn handle_subscriber(event: SubscriberEvent) -> (r: SubscriberMove)
    ensures
        match event {
            SubscriberEvent::Line(LineRead::Failed(e)) => {
                &&& r matches SubscriberMove::Fail(f)
                &&& f@ == seq!["failed to read telemetry control message"@] + e@
            },
            SubscriberEvent::Line(LineRead::Message(WireMessage::Control(request))) => r
                == SubscriberMove::Dispatch(request),
            SubscriberEvent::Event(e) => r == SubscriberMove::Write(e),
            SubscriberEvent::Line(LineRead::Closed)
            | SubscriberEvent::Closed
            | SubscriberEvent::WriteFailed => r == SubscriberMove::Stop,
            _ => r == SubscriberMove::Wait,
        },
{
    match event {
        SubscriberEvent::Line(LineRead::Failed(e)) => SubscriberMove::Fail(
            e.context("failed to read telemetry control message"),
        ),
        SubscriberEvent::Line(LineRead::Closed) => SubscriberMove::Stop,
        SubscriberEvent::Line(LineRead::Garbled(_)) => SubscriberMove::Wait,
        SubscriberEvent::Line(LineRead::Message(WireMessage::Control(request))) => {
            SubscriberMove::Dispatch(request)
        },
        SubscriberEvent::Line(LineRead::Message(_)) => SubscriberMove::Wait,
        SubscriberEvent::Event(e) => SubscriberMove::Write(e),
        SubscriberEvent::Lagged => SubscriberMove::Wait,
        SubscriberEvent::Closed => SubscriberMove::Stop,
        SubscriberEvent::WriteFailed => SubscriberMove::Stop,
    }
}

// ---------------------------------------------------------------------------
// The socket

/// An id that a text gives.
pub open spec fn id_of(text: Option<Seq<char>>) -> Option<int> {
    match text {
        Some(t) => unsigned_value(t, u32::MAX as int),
        None => None,
    }
}

fn parse_id(text: Option<&str>) -> (r: Option<u32>)
    ensures
        match (r, id_of(str_view(text))) {
            (Some(n), Some(m)) => n == m,
            (None, None) => true,
            _ => false,
        },
{
    match text {
        Some(t) => match parse_unsigned(t, u32::MAX as u64) {
            Some(n) => Some(n as u32),
            None => None,
        },
        None => None,
    }
}

/// Who is to own the socket of a program that runs for another user.
pub fn socket_owner(euid: u32, sudo_uid: Option<&str>, sudo_gid: Option<&str>) -> (r: Option<
    (u32, u32),
>)
    ensures
        match (id_of(str_view(sudo_uid)), id_of(str_view(sudo_gid))) {
            (Some(u), Some(g)) => if euid == 0 {
                r == Some((u as u32, g as u32))
            } else {
                r is None
            },
            _ => r is None,
        },
{
    if euid != 0 {
        return None;
    }
    match (parse_id(sudo_uid), parse_id(sudo_gid)) {
        (Some(u), Some(g)) => Some((u, g)),
        _ => None,
    }
}

/// The access to the socket of a program: left alone unless the program runs as
/// root, shared with the owner that it was given to, or open to all.
pub fn socket_mode(euid: u32, given_away: bool) -> (r: Option<u32>)
    ensures
        r == if euid != 0 {
            None::<u32>
        } else if given_away {
            Some(0o660u32)
        } else {
            Some(0o666u32)
        },
{
    if euid != 0 {
        None
    } else if given_away {
        Some(0o660)
    } else {
        Some(0o666)
    }
}

// ---------------------------------------------------------------------------
// The hub

/// Where events come together.
#[derive(Debug)]
pub struct TelemetryHub {
    /// How many events may wait for one who watches.
    pub capacity: usize,
    pub snapshot: SnapshotState,
}

/// What is known at a hub, if there is one.
pub open spec fn known(hub: Option<TelemetryHub>) -> Option<SnapshotView> {
    match hub {
        Some(h) => Some(h.snapshot@),
        None => None,
    }
}

/// How many events a hub keeps for those who watch, if there is one.
pub open spec fn keeps(hub: Option<TelemetryHub>) -> Option<usize> {
    match hub {
        Some(h) => Some(h.capacity),
        None => None,
    }
}

/// Whether a hub is in order.
pub open spec fn in_order(hub: Option<TelemetryHub>) -> bool {
    hub matches Some(h) ==> h.snapshot.wf()
}

/// Whether a hub can take an event.
pub open spec fn can_take(hub: Option<TelemetryHub>, e: EventView, now: u64) -> bool {
    hub matches Some(h) ==> has_room(h.snapshot@, e, now)
}

/// A hub after an event.
pub open spec fn taken(hub: Option<TelemetryHub>, e: EventView, now: u64) -> Option<SnapshotView> {
    match hub {
        Some(h) => Some(ingested(h.snapshot@, e, now)),
        None => None,
    }
}

/// Sets the hub up. The first one stays.
pub fn init_channel(hub: &mut Option<TelemetryHub>, capacity: usize, now: u64)
    requires
        capacity > 0,
    ensures
        (*old(hub)) is Some ==> *final(hub) == *old(hub),
        (*old(hub)) is None ==> {
            &&& (*final(hub)) matches Some(h)
            &&& h.capacity == capacity
            &&& h.snapshot.wf()
            &&& h.snapshot@ == fresh(now)
        },
{
    if hub.is_none() {
        *hub = Some(TelemetryHub { capacity, snapshot: SnapshotState::new(now) });
    }
}

/// Says what is watched.
pub fn set_context(hub: &mut Option<TelemetryHub>, context: MonitorContext)
    ensures
        known(*final(hub)) == match known(*old(hub)) {
            Some(s) => Some(SnapshotView { context: Some(context), ..s }),
            None => None,
        },
        in_order(*old(hub)) ==> in_order(*final(hub)),
        keeps(*final(hub)) == keeps(*old(hub)),
{
    match hub {
        Some(h) => {
            h.snapshot.set_context(context);
        },
        None => {},
    }
}

/// Says where the traffic of what is watched goes.
pub fn set_traffic_state(hub: &mut Option<TelemetryHub>, state: TrafficState)
    ensures
        known(*final(hub)) == match known(*old(hub)) {
            Some(s) => Some(
                SnapshotView {
                    context: match s.context {
                        Some(c) => Some(MonitorContext { traffic_state: state, ..c }),
                        None => None,
                    },
                    ..s
                },
            ),
            None => None,
        },
        in_order(*old(hub)) ==> in_order(*final(hub)),
        keeps(*final(hub)) == keeps(*old(hub)),
{
    match hub {
        Some(h) => {
            h.snapshot.set_traffic_state(state);
        },
        None => {},
    }
}

fn take_event(hub: &mut Option<TelemetryHub>, event: TraceEvent, now: u64) -> (r: Option<
    TraceEvent,
>)
    requires
        in_order(*old(hub)),
        can_take(*old(hub), event@, now),
    ensures
        in_order(*final(hub)),
        keeps(*final(hub)) == keeps(*old(hub)),
        known(*final(hub)) == taken(*old(hub), event@, now),
        r == match *old(hub) {
            Some(_) => Some(event),
            None => None,
        },
{
    match hub {
        Some(h) => {
            h.snapshot.ingest(&event, now);
            Some(event)
        },
        None => None,
    }
}

/// Lets something happen. What is given back goes to those who watch.
pub fn emit(
    hub: &mut Option<TelemetryHub>,
    level: String,
    message: String,
    fields: TextMap,
    at_secs: u64,
    at_nanos: u32,
    now: u64,
) -> (r: Option<TraceEvent>)
    requires
        in_order(*old(hub)),
        can_take(
            *old(hub),
            EventView { at_secs, level: level@, message: message@, fields: fields@ },
            now,
        ),
    ensures
        in_order(*final(hub)),
        keeps(*final(hub)) == keeps(*old(hub)),
        known(*final(hub)) == taken(
            *old(hub),
            EventView { at_secs, level: level@, message: message@, fields: fields@ },
            now,
        ),
        match r {
            Some(e) => {
                &&& (*old(hub)) is Some
                &&& e@ == (EventView { at_secs, level: level@, message: message@, fields: fields@ })
                &&& e.at_nanos == at_nanos
            },
            None => (*old(hub)) is None,
        },
{
    take_event(hub, TraceEvent { at_secs, at_nanos, level, message, fields }, now)
}

/// The event that tells of the health of a tunnel.
pub open spec fn health_event(h: HealthView, at_secs: u64) -> EventView {
    EventView {
        at_secs,
        level: if h.state == TunnelState::Degraded {
            "WARN"@
        } else {
            "INFO"@
        },
        message: "tunnel health"@,
        fields: health_fields(h),
    }
}

/// The health that is told is the health that is read from the event.
pub proof fn health_reads_back(h: HealthView, at_secs: u64)
    ensures
        health_of(health_event(h, at_secs)) == Some(h),
{
    reveal_strlit("state");
    reveal_strlit("detail");
    reveal_strlit("dns");
    reveal_strlit("connectivity");
    reveal_strlit("handshake_age_secs");
    reveal_strlit("");
    assert("state"@.len() == 5);
    assert("detail"@.len() == 6);
    assert("dns"@.len() == 3);
    assert("connectivity"@.len() == 12);
    assert("handshake_age_secs"@.len() == 18);
    state_names_read_back(h.state);
    finding_names_read_back(h.dns);
    finding_names_read_back(h.connectivity);
    let e = health_event(h, at_secs);
    assert(field(e, "state"@) == Some(h.state.name()));
    assert(field(e, "dns"@) == Some(h.dns.name()));
    assert(field(e, "connectivity"@) == Some(h.connectivity.name()));
    assert(field_or(e, "detail"@, ""@) =~= h.detail);
    match h.handshake_age_secs {
        Some(age) => {
            decimal_reads_back(age as nat, u64::MAX as int);
            assert(field(e, "handshake_age_secs"@) == Some(decimal(age as nat)));
        },
        None => {
            assert(field(e, "handshake_age_secs"@) is None);
        },
    }
    assert(health_of(e)->0 =~= h);
}

/// Tells of the health of a tunnel.
pub fn set_tunnel_health(
    hub: &mut Option<TelemetryHub>,
    health: &TunnelHealth,
    at_secs: u64,
    at_nanos: u32,
    now: u64,
) -> (r: Option<TraceEvent>)
    requires
        in_order(*old(hub)),
        can_take(*old(hub), health_event(health@, at_secs), now),
    ensures
        in_order(*final(hub)),
        keeps(*final(hub)) == keeps(*old(hub)),
        known(*final(hub)) == taken(*old(hub), health_event(health@, at_secs), now),
        match r {
            Some(e) => {
                &&& (*old(hub)) is Some
                &&& e@ == health_event(health@, at_secs)
                &&& e.at_nanos == at_nanos
            },
            None => (*old(hub)) is None,
        },
{
    let level = if health.state == TunnelState::Degraded {
        "WARN"
    } else {
        "INFO"
    };
    emit(
        hub,
        level.to_owned(),
        "tunnel health".to_owned(),
        health.as_fields(),
        at_secs,
        at_nanos,
        now,
    )
}

/// Whether anybody watches.
pub fn has_live_subscribers(hub: &Option<TelemetryHub>, receivers: usize) -> (r: bool)
    ensures
        r == (hub is Some && receivers > 0),
{
    hub.is_some() && receivers > 0
}

/// What the hub shows to one who comes to watch.
pub fn current_snapshot(hub: &Option<TelemetryHub>, now: u64) -> (r: Option<DashboardSnapshot>)
    ensures
        match r {
            Some(d) => hub matches Some(h) && shows(d, h.snapshot@, now),
            None => hub matches Some(h) ==> h.snapshot.context is None,
        },
{
    match hub {
        Some(h) => h.snapshot.snapshot(now),
        None => None,
    }
}

// ---------------------------------------------------------------------------
// Records

/// Collects the fields of a record.
#[derive(Debug)]
pub struct EventVisitor {
    pub fields: TextMap,
}

impl EventVisitor {
    /// No fields.
    pub fn new() -> (r: Self)
        ensures
            r.fields@ == Map::<Seq<char>, Seq<char>>::empty(),
    {
        EventVisitor { fields: TextMap::new() }
    }

    /// A number.
    pub fn record_i64(&mut self, name: &str, value: i64)
        ensures
            final(self).fields@ == old(self).fields@.insert(name@, signed_decimal(value as int)),
    {
        self.fields.insert(name.to_owned(), to_signed_decimal(value));
    }

    /// A number.
    pub fn record_u64(&mut self, name: &str, value: u64)
        ensures
            final(self).fields@ == old(self).fields@.insert(name@, decimal(value as nat)),
    {
        self.fields.insert(name.to_owned(), to_decimal(value));
    }

    /// Yes or no.
    pub fn record_bool(&mut self, name: &str, value: bool)
        ensures
            final(self).fields@ == old(self).fields@.insert(
                name@,
                if value {
                    "true"@
                } else {
                    "false"@
                },
            ),
    {
        let text = if value {
            "true"
        } else {
            "false"
        };
        self.fields.insert(name.to_owned(), text.to_owned());
    }

    /// A text, or what another value is shown as.
    pub fn record_str(&mut self, name: &str, value: &str)
        ensures
            final(self).fields@ == old(self).fields@.insert(name@, value@),
    {
        self.fields.insert(name.to_owned(), value.to_owned());
    }
}

/// Hands records over to the hub.
#[derive(Debug)]
pub struct TelemetryLayer;

/// Hands records over to the hub.
pub fn layer() -> (r: TelemetryLayer)
    ensures
        r == TelemetryLayer,
{
    TelemetryLayer
}

/// The event that a record makes: its message is the field of that name, or
/// else the name of the record.
pub open spec fn event_of_record(
    fields: Map<Seq<char>, Seq<char>>,
    name: Seq<char>,
    level: Seq<char>,
    at_secs: u64,
) -> EventView {
    EventView {
        at_secs,
        level,
        message: if fields.contains_key("message"@) {
            fields["message"@]
        } else {
            name
        },
        fields: fields.remove("message"@),
    }
}

impl TelemetryLayer {
    /// Hands a record over to the hub. What is given back goes to those who
    /// watch.
    pub fn on_event(
        &self,
        hub: &mut Option<TelemetryHub>,
        visitor: EventVisitor,
        name: &str,
        level: &str,
        at_secs: u64,
        at_nanos: u32,
        now: u64,
    ) -> (r: Option<TraceEvent>)
        requires
            in_order(*old(hub)),
            can_take(*old(hub), event_of_record(visitor.fields@, name@, level@, at_secs), now),
        ensures
            in_order(*final(hub)),
            keeps(*final(hub)) == keeps(*old(hub)),
            known(*final(hub)) == taken(
                *old(hub),
                event_of_record(visitor.fields@, name@, level@, at_secs),
                now,
            ),
            match r {
                Some(e) => {
                    &&& (*old(hub)) is Some
                    &&& e@ == event_of_record(visitor.fields@, name@, level@, at_secs)
                    &&& e.at_nanos == at_nanos
                },
                None => (*old(hub)) is None,
            },
    {
        let mut fields = visitor.fields;
        let message = match fields.remove("message") {
            Some(m) => m,
            None => name.to_owned(),
        };
        emit(hub, level.to_owned(), message, fields, at_secs, at_nanos, now)
    }
}

// ---------------------------------------------------------------------------
// Laws

/// A switch leads to the state that it names, and a toggle to the other one, so that
/// two toggles lead back.
pub proof fn switches_lead_to_their_state(
    current: TrafficState,
    on: TrafficState,
    off: TrafficState,
    toggled: TrafficState,
    back: TrafficState,
)
    requires
        call_ensures(TrafficSwitchTarget::resolve, (TrafficSwitchTarget::Proxying, current), on),
        call_ensures(TrafficSwitchTarget::resolve, (TrafficSwitchTarget::Bypass, current), off),
        call_ensures(TrafficSwitchTarget::resolve, (TrafficSwitchTarget::Toggle, current), toggled),
        call_ensures(TrafficSwitchTarget::resolve, (TrafficSwitchTarget::Toggle, toggled), back),
    ensures
        on == TrafficState::Proxying,
        off == TrafficState::Bypass,
        toggled != current,
        back == current,
{
}

/// A switch is asked for once the service has told its state, and ends with what the
/// service answers, completed by the states where it left them open.
pub proof fn switches_end_with_the_answer(
    snapshot: DashboardSnapshot,
    target: TrafficSwitchTarget,
    t0: u64,
    first: (SwitchStage, SwitchMove),
    response: ControlResponse,
    t1: u64,
    second: (SwitchStage, SwitchMove),
    wanted: TrafficState,
)
    requires
        call_ensures(
            switch_socket,
            (
                SwitchStage::Start,
                SwitchEvent::Line(LineRead::Message(WireMessage::Snapshot(snapshot))),
                target,
                t0,
            ),
            first,
        ),
        call_ensures(
            switch_socket,
            (
                first.0,
                SwitchEvent::Line(LineRead::Message(WireMessage::ControlResponse(response))),
                target,
                t1,
            ),
            second,
        ),
        call_ensures(
            TrafficSwitchTarget::resolve,
            (target, snapshot.context.traffic_state),
            wanted,
        ),
    ensures
        first.1 matches SwitchMove::Order(request, _) && request == (ControlRequest {
            command: ControlCommand::Switch { target },
        }),
        second.0 is Done,
        second.1 matches SwitchMove::Finish(a) && a.ok == response.ok && a.message@
            == response.message@ && (response.previous_state is Some ==> a.previous_state
            == response.previous_state) && (response.previous_state is None ==> a.previous_state
            == Some(snapshot.context.traffic_state)) && (response.state is Some ==> a.state
            == response.state) && (response.state is None && response.ok ==> a.state == Some(
            wanted,
        )) && (response.state is None && !response.ok ==> a.state is None),
{
}

/// What comes before the answer to a switch is passed over while there is time, and
/// whatever breaks the connection fails it with its cause.
pub proof fn switches_wait_for_the_answer(
    previous: TrafficState,
    since: u64,
    now: u64,
    event: TraceEvent,
    target: TrafficSwitchTarget,
    r: (SwitchStage, SwitchMove),
    cause: Failure,
    broken: (SwitchStage, SwitchMove),
)
    requires
        since <= now,
        call_ensures(
            switch_socket,
            (
                SwitchStage::Waiting(previous, since),
                SwitchEvent::Line(LineRead::Message(WireMessage::Event(event))),
                target,
                now,
            ),
            r,
        ),
        call_ensures(
            switch_socket,
            (
                SwitchStage::Waiting(previous, since),
                SwitchEvent::Line(LineRead::Failed(cause)),
                target,
                now,
            ),
            broken,
        ),
    ensures
        now - since <= CONTROL_TIMEOUT ==> r.0 == SwitchStage::Waiting(previous, since) && (
        r.1 matches SwitchMove::Wait(left) && left + (now - since) == CONTROL_TIMEOUT),
        now - since > CONTROL_TIMEOUT ==> r.0 is Done && r.1 is Fail,
        broken.0 is Done,
        broken.1 matches SwitchMove::Fail(e) && e@.skip(1) == cause@,
{
    if let SwitchMove::Fail(e) = broken.1 {
        assert(e@.skip(1) =~= cause@);
    }
}

/// A dashboard is attached with the snapshot that the stream starts with, and with
/// nothing else; after that it shows every event, and ends with the stream.
pub proof fn dashboards_follow_the_stream(
    snapshot: DashboardSnapshot,
    event: TraceEvent,
    cause: Failure,
    attached: Result<DashboardSnapshot, Failure>,
    early: Result<DashboardSnapshot, Failure>,
    closed: Result<DashboardSnapshot, Failure>,
    shown: WatchMove,
    garbled: WatchMove,
    ended: WatchMove,
)
    requires
        call_ensures(
            attach_socket,
            (LineRead::Message(WireMessage::Snapshot(snapshot)),),
            attached,
        ),
        call_ensures(attach_socket, (LineRead::Message(WireMessage::Event(event)),), early),
        call_ensures(attach_socket, (LineRead::Closed,), closed),
        call_ensures(watch_next, (LineRead::Message(WireMessage::Event(event)),), shown),
        call_ensures(watch_next, (LineRead::Garbled(cause),), garbled),
        call_ensures(watch_next, (LineRead::Closed,), ended),
    ensures
        attached == Ok::<DashboardSnapshot, Failure>(snapshot),
        early is Err && closed is Err,
        shown == WatchMove::Show(event),
        garbled is Skip,
        ended is Stop,
{
}

/// A subscriber gets every event and has its commands carried out, until it is gone.
pub proof fn subscribers_get_every_event(
    event: TraceEvent,
    request: ControlRequest,
    cause: Failure,
    written: SubscriberMove,
    ordered: SubscriberMove,
    lagged: SubscriberMove,
    gone: SubscriberMove,
    failed: SubscriberMove,
)
    requires
        call_ensures(handle_subscriber, (SubscriberEvent::Event(event),), written),
        call_ensures(
            handle_subscriber,
            (SubscriberEvent::Line(LineRead::Message(WireMessage::Control(request))),),
            ordered,
        ),
        call_ensures(handle_subscriber, (SubscriberEvent::Lagged,), lagged),
        call_ensures(handle_subscriber, (SubscriberEvent::Line(LineRead::Closed),), gone),
        call_ensures(handle_subscriber, (SubscriberEvent::Line(LineRead::Failed(cause)),), failed),
    ensures
        written == SubscriberMove::Write(event),
        ordered == SubscriberMove::Dispatch(request),
        lagged is Wait,
        gone is Stop,
        failed matches SubscriberMove::Fail(e) && e@.skip(1) == cause@,
{
    if let SubscriberMove::Fail(e) = failed {
        assert(e@.skip(1) =~= cause@);
    }
}

/// A command is answered by what handles it; where nothing does, it is refused.
pub proof fn commands_are_answered(
    answer: ControlResponse,
    handling: Handling,
    r: ControlResponse,
    refused: ControlResponse,
    previous: TrafficState,
    state: TrafficState,
    done: ControlResponse,
)
    requires
        call_ensures(dispatch_control, (Handling::Answered(answer),), r),
        !(handling is Answered),
        call_ensures(dispatch_control, (handling,), refused),
        call_ensures(ControlResponse::ok, (previous, state), done),
    ensures
        r@ == answer@,
        !refused.ok && refused.state is None && refused.previous_state is None,
        done.ok && done.previous_state == Some(previous) && done.state == Some(state),
{
}

/// A hub is made once, and what is set in it is what it tells; without one, nothing
/// is.
pub proof fn hubs_tell_what_was_set(
    hub: &mut Option<TelemetryHub>,
    context: MonitorContext,
    switched: &mut Option<TelemetryHub>,
    state: TrafficState,
    now: u64,
    after: Option<DashboardSnapshot>,
    later: Option<DashboardSnapshot>,
)
    requires
        call_ensures(set_context, (hub, context), ()),
        *old(switched) == *final(hub),
        call_ensures(set_traffic_state, (switched, state), ()),
        call_ensures(current_snapshot, (final(hub), now), after),
        call_ensures(current_snapshot, (final(switched), now), later),
    ensures
        (*old(hub)) is Some ==> (after matches Some(d) && d.context.command_label@
            == context.command_label@ && d.context.traffic_state == context.traffic_state),
        (*old(hub)) is Some ==> (later matches Some(d) && d.context.command_label@
            == context.command_label@ && d.context.traffic_state == state),
        (*old(hub)) is None ==> after is None && later is None,
{
}

/// A hub that is there is not made again.
pub proof fn hubs_are_made_once(hub: &mut Option<TelemetryHub>, capacity: usize, now: u64)
    requires
        capacity > 0,
        call_ensures(init_channel, (hub, capacity, now), ()),
    ensures
        (*final(hub)) is Some,
        (*old(hub)) is Some ==> *final(hub) == *old(hub),
        (*old(hub)) is None ==> (*final(hub))->0.capacity == capacity,
{
}

/// What is told through a hub goes out as it was told, and is counted there; without
/// a hub nothing goes out.
pub proof fn events_go_out_as_told(
    hub: &mut Option<TelemetryHub>,
    level: String,
    message: String,
    fields: TextMap,
    at_secs: u64,
    at_nanos: u32,
    now: u64,
    r: Option<TraceEvent>,
)
    requires
        in_order(*old(hub)),
        can_take(
            *old(hub),
            EventView { at_secs, level: level@, message: message@, fields: fields@ },
            now,
        ),
        call_ensures(emit, (hub, level, message, fields, at_secs, at_nanos, now), r),
    ensures
        r is Some <==> (*old(hub)) is Some,
        r matches Some(e) ==> e@.level == level@ && e@.message == message@ && e@.fields == fields@
            && e@.at_secs == at_secs && e.at_nanos == at_nanos,
        (*final(hub)) is Some <==> (*old(hub)) is Some,
{
}

/// The health of a tunnel goes out as an event that tells it back, as a warning where
/// the tunnel is degraded.
pub proof fn health_goes_out_and_is_read_back(
    hub: &mut Option<TelemetryHub>,
    health: &TunnelHealth,
    at_secs: u64,
    at_nanos: u32,
    now: u64,
    r: Option<TraceEvent>,
    event: &TraceEvent,
    read: Option<TunnelHealth>,
)
    requires
        in_order(*old(hub)),
        can_take(*old(hub), health_event(health@, at_secs), now),
        call_ensures(set_tunnel_health, (hub, health, at_secs, at_nanos, now), r),
        r matches Some(e) ==> event@ == e@,
        call_ensures(TunnelHealth::from_event, (event,), read),
    ensures
        r is Some <==> (*old(hub)) is Some,
        r matches Some(e) ==> (read matches Some(h) && h@ == health@) && (e@.level == "WARN"@
            <==> health.state == TunnelState::Degraded) && e@.at_secs == at_secs,
{
    health_reads_back(health@, at_secs);
    reveal_strlit("WARN");
    reveal_strlit("INFO");
    assert("WARN"@[0] == 'W' && "INFO"@[0] == 'I');
}

/// What a record visits is told: its message as the message of the event, or its name
/// where it has none, and every other field under its name.
pub proof fn records_go_out_as_events(
    layer: &TelemetryLayer,
    hub: &mut Option<TelemetryHub>,
    visitor: EventVisitor,
    name: &str,
    level: &str,
    at_secs: u64,
    at_nanos: u32,
    now: u64,
    key: Seq<char>,
    r: Option<TraceEvent>,
)
    requires
        in_order(*old(hub)),
        can_take(*old(hub), event_of_record(visitor.fields@, name@, level@, at_secs), now),
        call_ensures(
            TelemetryLayer::on_event,
            (layer, hub, visitor, name, level, at_secs, at_nanos, now),
            r,
        ),
        key != "message"@,
    ensures
        r is Some <==> (*old(hub)) is Some,
        r matches Some(e) ==> {
            &&& e@.level == level@
            &&& visitor.fields@.contains_key("message"@) ==> e@.message
                == visitor.fields@["message"@]
            &&& !visitor.fields@.contains_key("message"@) ==> e@.message == name@
            &&& e@.fields.contains_key(key) <==> visitor.fields@.contains_key(key)
            &&& visitor.fields@.contains_key(key) ==> e@.fields[key] == visitor.fields@[key]
            &&& !e@.fields.contains_key("message"@)
        },
{
}

/// Each kind of value is recorded under its name, and leaves the others alone.
pub proof fn values_are_recorded_under_their_name(
    a: &mut EventVisitor,
    b: &mut EventVisitor,
    c: &mut EventVisitor,
    d: &mut EventVisitor,
    name: &str,
    signed: i64,
    unsigned: u64,
    flag: bool,
    text: &str,
    other: Seq<char>,
)
    requires
        call_ensures(EventVisitor::record_i64, (a, name, signed), ()),
        call_ensures(EventVisitor::record_u64, (b, name, unsigned), ()),
        call_ensures(EventVisitor::record_bool, (c, name, flag), ()),
        call_ensures(EventVisitor::record_str, (d, name, text), ()),
        other != name@,
    ensures
        final(a).fields@.contains_pair(name@, signed_decimal(signed as int)),
        final(b).fields@.contains_pair(name@, decimal(unsigned as nat)),
        final(c).fields@.contains_pair(
            name@,
            if flag {
                "true"@
            } else {
                "false"@
            },
        ),
        final(d).fields@.contains_pair(name@, text@),
        final(d).fields@.contains_key(other) == old(d).fields@.contains_key(other),
        old(d).fields@.contains_key(other) ==> final(d).fields@[other] == old(d).fields@[other],
{
}

/// A socket that root made is given to whoever called root, if that is known, and
/// then open to their group only; one that another made stays as it is.
pub proof fn sockets_are_given_to_the_caller(
    euid: u32,
    uid: u32,
    gid: u32,
    sudo_uid: &str,
    sudo_gid: &str,
    r: Option<(u32, u32)>,
    unknown: Option<(u32, u32)>,
    given: bool,
    mode: Option<u32>,
)
    requires
        sudo_uid@ == decimal(uid as nat),
        sudo_gid@ == decimal(gid as nat),
        call_ensures(socket_owner, (euid, Some(sudo_uid), Some(sudo_gid)), r),
        call_ensures(socket_owner, (euid, None, Some(sudo_gid)), unknown),
        call_ensures(socket_mode, (euid, given), mode),
    ensures
        euid == 0 ==> r == Some((uid, gid)),
        euid != 0 ==> r is None && mode is None,
        unknown is None,
        euid == 0 ==> mode == Some(if given {
            432u32
        } else {
            438u32
        }),
{
    crate::num::decimal_reads_back(uid as nat, u32::MAX as int);
    crate::num::decimal_reads_back(gid as nat, u32::MAX as int);
}

} // verus!
