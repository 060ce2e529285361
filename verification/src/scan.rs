//! The scan of one domain, as a machine that a driver steps.
//!
//! The machine asks for one piece of outside work at a time (the lookup of the domain's
//! nameservers, then one zone-transfer request per nameserver, in the order of the list),
//! and the driver hands back what came of it. Nothing is tried twice, and what fails is
//! passed over: the scan goes on with the next nameserver.

use crate::classify::{classify, is_vulnerable};
use crate::text::texts;
use vstd::prelude::*;

verus! {

/// What one zone-transfer request to one nameserver came to.
#[derive(Clone, Debug, PartialEq, Eq)]
pub struct ProbeOutcome {
    pub domain: String,
    pub nameserver: String,
    pub vulnerable: bool,
    pub raw_response: String,
    pub query_error: Option<String>,
}

/// Why a domain, or one of its nameservers, gave no outcome.
#[derive(Clone, Debug, PartialEq, Eq)]
pub enum ScanError {
    /// The lookup of the domain's nameservers failed.
    ResolutionFailed { domain: String, cause: String },
    /// The lookup named no nameserver.
    NoNameservers { domain: String },
    /// The zone-transfer request could not be made.
    QueryFailed { domain: String, nameserver: String, cause: String },
}

/// The outside work that a scan waits for.
#[derive(Debug, PartialEq, Eq)]
pub enum Request {
    /// Look up the nameservers of the domain.
    Resolve { domain: String },
    /// Ask the nameserver for the domain's zone.
    Probe { domain: String, nameserver: String },
    /// Nothing: the scan is over.
    Finished,
}

/// What came of a piece of outside work: its result, or the cause of its failure.
#[derive(Debug, PartialEq, Eq)]
pub enum Event {
    /// The nameservers that the lookup named.
    Resolved(Result<Vec<String>, String>),
    /// The raw answer to the zone-transfer request. A refusal is an answer, not a failure.
    Probed(Result<String, String>),
}

/// What a step of a scan hands to its caller.
#[derive(Debug, PartialEq, Eq)]
pub enum Emission {
    /// The outcome of a probe that was made.
    Outcome(ProbeOutcome),
    /// A failure, told only where diagnostics are on.
    Diagnostic(ScanError),
    /// Nothing to tell.
    Nothing,
}

/// The scan of one domain.
#[derive(Debug)]
pub struct DomainScan {
    domain: String,
    diagnostics: bool,
    resolving: bool,
    nameservers: Vec<String>,
    cursor: usize,
}

/// A probe outcome as the contracts see it.
pub struct OutcomeView {
    pub domain: Seq<char>,
    pub nameserver: Seq<char>,
    pub vulnerable: bool,
    pub raw_response: Seq<char>,
    pub query_error: Option<Seq<char>>,
}

/// A scan error as the contracts see it.
pub enum ScanErrorView {
    ResolutionFailed { domain: Seq<char>, cause: Seq<char> },
    NoNameservers { domain: Seq<char> },
    QueryFailed { domain: Seq<char>, nameserver: Seq<char>, cause: Seq<char> },
}

/// A request as the contracts see it.
pub enum RequestView {
    Resolve { domain: Seq<char> },
    Probe { domain: Seq<char>, nameserver: Seq<char> },
    Finished,
}

/// An event as the contracts see it.
pub enum EventView {
    Resolved(Result<Seq<Seq<char>>, Seq<char>>),
    Probed(Result<Seq<char>, Seq<char>>),
}

/// An emission as the contracts see it.
pub enum EmissionView {
    Outcome(OutcomeView),
    Diagnostic(ScanErrorView),
    Nothing,
}

/// A scan as the contracts see it: the domain, whether failures are told, whether the
/// lookup is still awaited, the nameservers to probe, and how many of them are done.
pub struct ScanState {
    pub domain: Seq<char>,
    pub diagnostics: bool,
    pub resolving: bool,
    pub nameservers: Seq<Seq<char>>,
    pub cursor: nat,
}

/// The text of `o`, if there is one.
pub open spec fn text_of(o: Option<String>) -> Option<Seq<char>> {
    match o {
        Some(s) => Some(s@),
        None => None,
    }
}

impl View for ProbeOutcome {
    type V = OutcomeView;

    open spec fn view(&self) -> OutcomeView {
        OutcomeView {
            domain: self.domain@,
            nameserver: self.nameserver@,
            vulnerable: self.vulnerable,
            raw_response: self.raw_response@,
            query_error: text_of(self.query_error),
        }
    }
}

impl View for ScanError {
    type V = ScanErrorView;

    open spec fn view(&self) -> ScanErrorView {
        match self {
            ScanError::ResolutionFailed { domain, cause } => ScanErrorView::ResolutionFailed {
                domain: domain@,
                cause: cause@,
            },
            ScanError::NoNameservers { domain } => ScanErrorView::NoNameservers { domain: domain@ },
            ScanError::QueryFailed { domain, nameserver, cause } => ScanErrorView::QueryFailed {
                domain: domain@,
                nameserver: nameserver@,
                cause: cause@,
            },
        }
    }
}

impl View for Request {
    type V = RequestView;

    open spec fn view(&self) -> RequestView {
        match self {
            Request::Resolve { domain } => RequestView::Resolve { domain: domain@ },
            Request::Probe { domain, nameserver } => RequestView::Probe {
                domain: domain@,
                nameserver: nameserver@,
            },
            Request::Finished => RequestView::Finished,
        }
    }
}

impl View for Event {
    type V = EventView;

    open spec fn view(&self) -> EventView {
        match self {
            Event::Resolved(Ok(names)) => EventView::Resolved(Ok(texts(names@))),
            Event::Resolved(Err(cause)) => EventView::Resolved(Err(cause@)),
            Event::Probed(Ok(raw)) => EventView::Probed(Ok(raw@)),
            Event::Probed(Err(cause)) => EventView::Probed(Err(cause@)),
        }
    }
}

impl View for Emission {
    type V = EmissionView;

    open spec fn view(&self) -> EmissionView {
        match self {
            Emission::Outcome(outcome) => EmissionView::Outcome(outcome@),
            Emission::Diagnostic(error) => EmissionView::Diagnostic(error@),
            Emission::Nothing => EmissionView::Nothing,
        }
    }
}

/// The scan of `domain` before anything was done. With an override the lookup is left
/// out, and the override is the one nameserver to probe.
pub open spec fn initial(
    domain: Seq<char>,
    nameserver_override: Option<Seq<char>>,
    diagnostics: bool,
) -> ScanState {
    match nameserver_override {
        Some(nameserver) => ScanState {
            domain,
            diagnostics,
            resolving: false,
            nameservers: seq![nameserver],
            cursor: 0,
        },
        None => ScanState {
            domain,
            diagnostics,
            resolving: true,
            nameservers: Seq::empty(),
            cursor: 0,
        },
    }
}

/// The outside work that the scan in state `s` waits for.
pub open spec fn request_of(s: ScanState) -> RequestView {
    if s.resolving {
        RequestView::Resolve { domain: s.domain }
    } else if s.cursor < s.nameservers.len() {
        RequestView::Probe { domain: s.domain, nameserver: s.nameservers[s.cursor as int] }
    } else {
        RequestView::Finished
    }
}

/// The event `e` is an answer to what the scan in state `s` waits for.
pub open spec fn answers(s: ScanState, e: EventView) -> bool {
    match e {
        EventView::Resolved(_) => request_of(s) is Resolve,
        EventView::Probed(_) => request_of(s) is Probe,
    }
}

/// The state after the scan in state `s` was handed `e`. An event that does not answer
/// what the scan waits for changes nothing. A lookup, failed or not, is over; a probe,
/// failed or not, is followed by the next nameserver.
pub open spec fn next_state(s: ScanState, e: EventView) -> ScanState {
    if !answers(s, e) {
        s
    } else {
        match e {
            EventView::Resolved(Ok(names)) => ScanState {
                resolving: false,
                nameservers: names,
                cursor: 0,
                ..s
            },
            EventView::Resolved(Err(_)) => ScanState {
                resolving: false,
                nameservers: Seq::empty(),
                cursor: 0,
                ..s
            },
            EventView::Probed(_) => ScanState { cursor: s.cursor + 1, ..s },
        }
    }
}

/// What the scan in state `s` hands out when it is handed `e`: for an answer to a probe,
/// the outcome with its verdict; for a failure or a lookup that named nobody, a diagnostic
/// where diagnostics are on and nothing where they are off; else nothing.
pub open spec fn emission_of(s: ScanState, e: EventView) -> EmissionView {
    if !answers(s, e) {
        EmissionView::Nothing
    } else {
        match e {
            EventView::Probed(Ok(raw)) => EmissionView::Outcome(
                OutcomeView {
                    domain: s.domain,
                    nameserver: s.nameservers[s.cursor as int],
                    vulnerable: is_vulnerable(raw),
                    raw_response: raw,
                    query_error: None,
                },
            ),
            EventView::Probed(Err(cause)) => if s.diagnostics {
                EmissionView::Diagnostic(
                    ScanErrorView::QueryFailed {
                        domain: s.domain,
                        nameserver: s.nameservers[s.cursor as int],
                        cause,
                    },
                )
            } else {
                EmissionView::Nothing
            },
            EventView::Resolved(Ok(names)) => if s.diagnostics && names.len() == 0 {
                EmissionView::Diagnostic(ScanErrorView::NoNameservers { domain: s.domain })
            } else {
                EmissionView::Nothing
            },
            EventView::Resolved(Err(cause)) => if s.diagnostics {
                EmissionView::Diagnostic(
                    ScanErrorView::ResolutionFailed { domain: s.domain, cause },
                )
            } else {
                EmissionView::Nothing
            },
        }
    }
}

impl View for DomainScan {
    type V = ScanState;

    closed spec fn view(&self) -> ScanState {
        ScanState {
            domain: self.domain@,
            diagnostics: self.diagnostics,
            resolving: self.resolving,
            nameservers: texts(self.nameservers@),
            cursor: self.cursor as nat,
        }
    }
}

/// Starts the scan of `domain`. With a nameserver override the scan probes that one
/// nameserver and never asks for a lookup.
pub fn scan_domain(
    domain: String,
    nameserver_override: Option<String>,
    diagnostics_enabled: bool,
) -> (scan: DomainScan)
    ensures
        scan@ == initial(domain@, text_of(nameserver_override), diagnostics_enabled),
{
    match nameserver_override {
        Some(nameserver) => {
            let mut nameservers: Vec<String> = Vec::new();
            nameservers.push(nameserver);
            assert(texts(nameservers@) == seq![nameserver@]);
            DomainScan { domain, diagnostics: diagnostics_enabled, resolving: false, nameservers, cursor: 0 }
        },
        None => {
            let nameservers: Vec<String> = Vec::new();
            assert(texts(nameservers@) == Seq::<Seq<char>>::empty());
            DomainScan { domain, diagnostics: diagnostics_enabled, resolving: true, nameservers, cursor: 0 }
        },
    }
}

impl DomainScan {
    /// The outside work that the scan waits for.
    pub fn next_request(&self) -> (request: Request)
        ensures
            request@ == request_of(self@),
    {
        if self.resolving {
            Request::Resolve { domain: self.domain.clone() }
        } else if self.cursor < self.nameservers.len() {
            Request::Probe {
                domain: self.domain.clone(),
                nameserver: self.nameservers[self.cursor].clone(),
            }
        } else {
            Request::Finished
        }
    }

    /// Takes what came of the outside work and moves on.
    pub fn step(&mut self, event: Event) -> (emission: Emission)
        ensures
            final(self)@ == next_state(old(self)@, event@),
            emission@ == emission_of(old(self)@, event@),
    {
        match event {
            Event::Resolved(reply) => {
                if !self.resolving {
                    return Emission::Nothing;
                }
                self.resolving = false;
                self.cursor = 0;
                match reply {
                    Ok(names) => {
                        let nobody = names.len() == 0;
                        self.nameservers = names;
                        if self.diagnostics && nobody {
                            Emission::Diagnostic(
                                ScanError::NoNameservers { domain: self.domain.clone() },
                            )
                        } else {
                            Emission::Nothing
                        }
                    },
                    Err(cause) => {
                        self.nameservers = Vec::new();
                        assert(texts(self.nameservers@) == Seq::<Seq<char>>::empty());
                        if self.diagnostics {
                            Emission::Diagnostic(
                                ScanError::ResolutionFailed { domain: self.domain.clone(), cause },
                            )
                        } else {
                            Emission::Nothing
                        }
                    },
                }
            },
            Event::Probed(reply) => {
                if self.resolving || self.cursor >= self.nameservers.len() {
                    return Emission::Nothing;
                }
                let nameserver = self.nameservers[self.cursor].clone();
                self.cursor = self.cursor + 1;
                match reply {
                    Ok(raw) => {
                        let vulnerable = classify(raw.as_str());
                        Emission::Outcome(
                            ProbeOutcome {
                                domain: self.domain.clone(),
                                nameserver,
                                vulnerable,
                                raw_response: raw,
                                query_error: None,
                            },
                        )
                    },
                    Err(cause) => {
                        if self.diagnostics {
                            Emission::Diagnostic(
                                ScanError::QueryFailed {
                                    domain: self.domain.clone(),
                                    nameserver,
                                    cause,
                                },
                            )
                        } else {
                            Emission::Nothing
                        }
                    },
                }
            },
        }
    }
}

/// The state of the scan after it was handed `events`, one after the other.
pub open spec fn run(s: ScanState, events: Seq<EventView>) -> ScanState
    decreases events.len(),
{
    if events.len() == 0 {
        s
    } else {
        next_state(run(s, events.drop_last()), events.last())
    }
}

/// What the scan handed out for each of `events`.
pub open spec fn emissions(s: ScanState, events: Seq<EventView>) -> Seq<EmissionView> {
    Seq::new(events.len(), |i: int| emission_of(run(s, events.take(i)), events[i]))
}

/// The answers to probes, as events.
pub open spec fn probe_events(replies: Seq<Result<Seq<char>, Seq<char>>>) -> Seq<EventView> {
    replies.map_values(|reply: Result<Seq<char>, Seq<char>>| EventView::Probed(reply))
}

/// A scan that does not wait for the lookup never comes to wait for it.
pub proof fn lemma_lookup_is_over(s: ScanState, events: Seq<EventView>)
    requires
        !s.resolving,
    ensures
        !run(s, events).resolving,
    decreases events.len(),
{
    if events.len() > 0 {
        lemma_lookup_is_over(s, events.drop_last());
    }
}

/// With a nameserver override a scan never asks for a lookup, whatever it is handed: it
/// starts with the probe of the override.
pub proof fn lemma_override_skips_lookup(
    domain: Seq<char>,
    nameserver: Seq<char>,
    diagnostics: bool,
    events: Seq<EventView>,
)
    ensures
        request_of(initial(domain, Some(nameserver), diagnostics)) == (RequestView::Probe {
            domain,
            nameserver,
        }),
        !(request_of(run(initial(domain, Some(nameserver), diagnostics), events)) is Resolve),
{
    lemma_lookup_is_over(initial(domain, Some(nameserver), diagnostics), events);
}

/// A probe that failed is passed over: the scan keeps its list and waits for the probe of
/// the next nameserver, if there is one.
pub proof fn lemma_failed_probe_moves_on(s: ScanState, cause: Seq<char>)
    requires
        request_of(s) is Probe,
    ensures
        next_state(s, EventView::Probed(Err(cause))) == (ScanState { cursor: s.cursor + 1, ..s }),
        !(emission_of(s, EventView::Probed(Err(cause))) is Outcome),
        s.cursor + 1 < s.nameservers.len() ==> request_of(
            next_state(s, EventView::Probed(Err(cause))),
        ) == (RequestView::Probe {
            domain: s.domain,
            nameserver: s.nameservers[s.cursor as int + 1],
        }),
{
}

/// Each nameserver of the list is probed, in the order of the list, whatever came of the
/// probes before it: after as many answers as there are nameservers left, or fewer, the
/// scan has moved on by that many, and what it handed out for each answer depends on that
/// answer alone.
pub proof fn lemma_probes_follow_the_list(s: ScanState, replies: Seq<Result<Seq<char>, Seq<char>>>)
    requires
        !s.resolving,
        s.cursor + replies.len() <= s.nameservers.len(),
    ensures
        run(s, probe_events(replies)) == (ScanState { cursor: s.cursor + replies.len(), ..s }),
        emissions(s, probe_events(replies)).len() == replies.len(),
        forall|i: int|
            0 <= i < replies.len() ==> #[trigger] emissions(s, probe_events(replies))[i]
                == emission_of(
                ScanState { cursor: (s.cursor + i) as nat, ..s },
                EventView::Probed(replies[i]),
            ),
    decreases replies.len(),
{
    let events = probe_events(replies);
    if replies.len() > 0 {
        lemma_probes_follow_the_list(s, replies.drop_last());
        assert(events.drop_last() == probe_events(replies.drop_last()));
    }
    assert forall|i: int| 0 <= i < replies.len() implies #[trigger] emissions(s, events)[i]
        == emission_of(
        ScanState { cursor: (s.cursor + i) as nat, ..s },
        EventView::Probed(replies[i]),
    ) by {
        lemma_probes_follow_the_list(s, replies.take(i));
        assert(events.take(i) == probe_events(replies.take(i)));
    }
}

/// The whole scan of a domain whose lookup named `names`: the scan asks for the probe of
/// each name in turn, whatever came of the probes before it, and is over after the last.
/// For each probe that was answered it hands out one outcome, with the verdict on that
/// answer; for each that failed, the diagnostic where diagnostics are on, and nothing where
/// they are off.
pub proof fn lemma_scan_of_a_list(
    domain: Seq<char>,
    diagnostics: bool,
    names: Seq<Seq<char>>,
    replies: Seq<Result<Seq<char>, Seq<char>>>,
)
    requires
        replies.len() == names.len(),
    ensures
        ({
            let start = initial(domain, None, diagnostics);
            let events = seq![EventView::Resolved(Ok(names))] + probe_events(replies);
            &&& request_of(start) == (RequestView::Resolve { domain })
            &&& request_of(run(start, events)) is Finished
            &&& forall|i: int|
                0 <= i < names.len() ==> #[trigger] request_of(run(start, events.take(i + 1)))
                    == (RequestView::Probe { domain, nameserver: names[i] })
            &&& forall|i: int|
                0 <= i < names.len() ==> emission_of(
                    run(start, events.take(i + 1)),
                    events[i + 1],
                ) == match #[trigger] replies[i] {
                    Ok(raw) => EmissionView::Outcome(
                        OutcomeView {
                            domain,
                            nameserver: names[i],
                            vulnerable: is_vulnerable(raw),
                            raw_response: raw,
                            query_error: None,
                        },
                    ),
                    Err(cause) => if diagnostics {
                        EmissionView::Diagnostic(
                            ScanErrorView::QueryFailed { domain, nameserver: names[i], cause },
                        )
                    } else {
                        EmissionView::Nothing
                    },
                }
        }),
{
    let start = initial(domain, None, diagnostics);
    let first = seq![EventView::Resolved(Ok(names))];
    let events = first + probe_events(replies);
    let listed = ScanState { resolving: false, nameservers: names, cursor: 0, ..start };
    assert(run(start, first.drop_last()) == start);
    assert(first.last() == EventView::Resolved(Ok(names)));
    assert(run(start, first) == listed);
    assert forall|k: int| 0 <= k <= names.len() implies #[trigger] run(start, events.take(k + 1))
        == (ScanState { cursor: k as nat, ..listed }) by {
        lemma_probes_follow_the_list(listed, replies.take(k));
        assert(events.take(k + 1) == first + probe_events(replies.take(k)));
        lemma_run_append(start, first, probe_events(replies.take(k)));
    }
    assert(events.take(names.len() as int + 1) == events);
    assert(replies.take(names.len() as int) == replies);
}

/// Handing over two runs of events one after the other is handing over both in one.
pub proof fn lemma_run_append(s: ScanState, first: Seq<EventView>, second: Seq<EventView>)
    ensures
        run(s, first + second) == run(run(s, first), second),
    decreases second.len(),
{
    if second.len() == 0 {
        assert(first + second == first);
    } else {
        lemma_run_append(s, first, second.drop_last());
        assert((first + second).drop_last() == first + second.drop_last());
    }
}

} // verus!
