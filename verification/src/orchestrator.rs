//! What a run over many domains is made of: its configuration, where its domains come
//! from, one scan per domain, and what the run as a whole comes to. A file or the standard
//! input lists its domains one on each line, as `split_lines` of the text gives them.
//!
//! The scans of a run share nothing but the configuration. Each is a value of its own, so
//! no failure in one reaches another. The caller drives them, all at once if it wishes: the
//! limit in the configuration is carried along and bounds nothing.

use crate::scan::{initial, scan_domain, text_of, DomainScan};
use vstd::prelude::*;

verus! {

/// The limit on simultaneous scans of a configuration that names none.
pub const DEFAULT_CONCURRENCY_LIMIT: usize = 10;

/// What holds for every domain of a run.
#[derive(Debug, PartialEq, Eq)]
pub struct ScanConfig {
    /// The one nameserver to probe for every domain, in place of a lookup.
    pub nameserver_override: Option<String>,
    /// The number of domains to scan at a time. It is recorded and not enforced.
    pub concurrency_limit: usize,
    /// Whether failures are told.
    pub diagnostics_enabled: bool,
}

impl Default for ScanConfig {
    fn default() -> (config: ScanConfig)
        ensures
            config.nameserver_override is None,
            config.concurrency_limit == DEFAULT_CONCURRENCY_LIMIT,
            !config.diagnostics_enabled,
    {
        ScanConfig {
            nameserver_override: None,
            concurrency_limit: DEFAULT_CONCURRENCY_LIMIT,
            diagnostics_enabled: false,
        }
    }
}

/// Where the domains of a run come from.
#[derive(Debug, PartialEq, Eq)]
pub enum InputSource {
    /// One domain, given as it is.
    Domain(String),
    /// A file with one domain on each line, by its path.
    File(String),
    /// The standard input, with one domain on each line.
    Stdin,
}

/// A configuration that no run can start from.
#[derive(Clone, Copy, Debug, PartialEq, Eq)]
pub enum ConfigError {
    /// No source of domains was given.
    MissingInput,
    /// More than one source of domains was given.
    AmbiguousInput,
}

/// A source of domains as the contracts see it.
pub enum InputSourceView {
    Domain(Seq<char>),
    File(Seq<char>),
    Stdin,
}

impl View for InputSource {
    type V = InputSourceView;

    open spec fn view(&self) -> InputSourceView {
        match self {
            InputSource::Domain(domain) => InputSourceView::Domain(domain@),
            InputSource::File(path) => InputSourceView::File(path@),
            InputSource::Stdin => InputSourceView::Stdin,
        }
    }
}

/// The source that the three settings name between them: the one that is given, where
/// exactly one is.
pub open spec fn chosen_source(
    domain: Option<Seq<char>>,
    file: Option<Seq<char>>,
    stdin: bool,
) -> Result<InputSourceView, ConfigError> {
    match (domain, file, stdin) {
        (Some(domain), None, false) => Ok(InputSourceView::Domain(domain)),
        (None, Some(path), false) => Ok(InputSourceView::File(path)),
        (None, None, true) => Ok(InputSourceView::Stdin),
        (None, None, false) => Err(ConfigError::MissingInput),
        _ => Err(ConfigError::AmbiguousInput),
    }
}

/// The view of a choice of source.
pub open spec fn choice_view(
    choice: Result<InputSource, ConfigError>,
) -> Result<InputSourceView, ConfigError> {
    match choice {
        Ok(source) => Ok(source@),
        Err(error) => Err(error),
    }
}

/// Picks the source of the domains. A single domain, a file and the standard input shut
/// each other out: with none of them, or more than one, there is nothing to run.
pub fn select_input(domain: Option<String>, file: Option<String>, stdin: bool) -> (choice: Result<
    InputSource,
    ConfigError,
>)
    ensures
        choice_view(choice) == chosen_source(text_of(domain), text_of(file), stdin),
{
    match (domain, file, stdin) {
        (Some(domain), None, false) => Ok(InputSource::Domain(domain)),
        (None, Some(path), false) => Ok(InputSource::File(path)),
        (None, None, true) => Ok(InputSource::Stdin),
        (None, None, false) => Err(ConfigError::MissingInput),
        _ => Err(ConfigError::AmbiguousInput),
    }
}

/// The scans of a run: one for each domain, in the order of the domains, each started
/// with the override and the diagnostics of the configuration.
pub fn plan_scans(domains: Vec<String>, config: &ScanConfig) -> (scans: Vec<DomainScan>)
    ensures
        scans.len() == domains.len(),
        forall|i: int|
            0 <= i < scans.len() ==> (#[trigger] scans[i])@ == initial(
                domains[i]@,
                text_of(config.nameserver_override),
                config.diagnostics_enabled,
            ),
{
    let mut scans: Vec<DomainScan> = Vec::new();
    let mut i: usize = 0;
    while i < domains.len()
        invariant
            i <= domains.len(),
            scans.len() == i,
            forall|k: int|
                0 <= k < i ==> (#[trigger] scans[k])@ == initial(
                    domains[k]@,
                    text_of(config.nameserver_override),
                    config.diagnostics_enabled,
                ),
        decreases domains.len() - i,
    {
        let nameserver = match &config.nameserver_override {
            Some(nameserver) => Some(nameserver.clone()),
            None => None,
        };
        scans.push(scan_domain(domains[i].clone(), nameserver, config.diagnostics_enabled));
        i += 1;
    }
    scans
}

/// What a run comes to once every task has ended. `faults` holds, for each task in the
/// order in which the tasks were started, the internal fault that ended it, if one did.
/// The run fails with the first of them, and succeeds where there is none. A domain that
/// gave no outcome is no fault.
pub fn first_fault(faults: Vec<Option<String>>) -> (end: Result<(), String>)
    ensures
        end is Ok <==> forall|i: int| 0 <= i < faults.len() ==> faults[i] is None,
        end matches Err(told) ==> exists|i: int|
            0 <= i < faults.len() && text_of(#[trigger] faults[i]) == Some(told@) && forall|j: int|
                0 <= j < i ==> faults[j] is None,
{
    let mut i: usize = 0;
    while i < faults.len()
        invariant
            i <= faults.len(),
            forall|j: int| 0 <= j < i ==> faults[j] is None,
        decreases faults.len() - i,
    {
        match &faults[i] {
            Some(fault) => {
                let told = fault.clone();
                assert(text_of(faults[i as int]) == Some(told@));
                return Err(told);
            },
            None => {},
        }
        i += 1;
    }
    Ok(())
}

} // verus!
