//! The typed manifest: entries, the machine's identity and their validation.
use vstd::prelude::*;
use crate::document::same_text;

verus! {

/// The text of each string in a list.
pub open spec fn texts(v: Seq<String>) -> Seq<Seq<char>> {
    v.map_values(|s: String| s@)
}

/// How an entry is deployed.
#[derive(Debug, Clone, Copy, PartialEq, Eq, Structural)]
pub enum Strategy {
    Hardlink,
    Symlink,
}

/// A required field of a manifest document.
#[derive(Debug, Clone, Copy, PartialEq, Eq, Structural)]
pub enum Field {
    Dots,
    Location,
    Destination,
    Strategy,
    Identifiers,
}

/// What is wrong with one document, or with one entry of the manifest.
#[derive(Debug, PartialEq, Eq)]
pub enum Fault {
    /// The document or entry is not a table.
    NotATable,
    /// A required field is absent.
    Missing(Field),
    /// A field holds a value of the wrong type.
    WrongType(Field),
    /// A `strategy` value other than `symlink` or `hardlink`.
    InvalidStrategy(String),
    /// The document's text could not be read as a document; the reason.
    Syntax(String),
}

/// The strategy that a `strategy` value names, if any.
pub open spec fn strategy_named(s: Seq<char>) -> Option<Strategy> {
    if s == "symlink"@ {
        Some(Strategy::Symlink)
    } else if s == "hardlink"@ {
        Some(Strategy::Hardlink)
    } else {
        None
    }
}

impl Strategy {
    /// Reads a `strategy` value: exactly `symlink` or `hardlink`.
    pub fn from_str(s: &str) -> (r: Result<Strategy, Fault>)
        ensures
            match strategy_named(s@) {
                Some(st) => r == Ok::<Strategy, Fault>(st),
                None => r matches Err(Fault::InvalidStrategy(v)) && v@ == s@,
            },
    {
        if same_text(s, "symlink") {
            Ok(Strategy::Symlink)
        } else if same_text(s, "hardlink") {
            Ok(Strategy::Hardlink)
        } else {
            Err(Fault::InvalidStrategy(String::from_str(s)))
        }
    }
}

/// The identity of the host that deploys: its tags.
#[derive(Debug)]
pub struct Machine {
    pub identifiers: Vec<String>,
}

impl View for Machine {
    type V = Seq<Seq<char>>;

    open spec fn view(&self) -> Seq<Seq<char>> {
        texts(self.identifiers@)
    }
}

/// One deployment entry. Paths are kept verbatim, as the manifest wrote them.
#[derive(Debug)]
pub struct Dotfile {
    pub location: String,
    pub destination: String,
    pub strategy: Strategy,
    pub identifiers: Vec<String>,
}

/// The mathematical value of a `Dotfile`.
pub struct DotfileView {
    pub location: Seq<char>,
    pub destination: Seq<char>,
    pub strategy: Strategy,
    pub identifiers: Seq<Seq<char>>,
}

impl View for Dotfile {
    type V = DotfileView;

    open spec fn view(&self) -> DotfileView {
        DotfileView {
            location: self.location@,
            destination: self.destination@,
            strategy: self.strategy,
            identifiers: texts(self.identifiers@),
        }
    }
}

/// A whole manifest: the machine's identity and the entries in manifest order.
#[derive(Debug)]
pub struct Dartfile {
    pub machine: Machine,
    pub dots: Vec<Dotfile>,
}

/// The mathematical value of a `Dartfile`.
pub struct DartfileView {
    pub machine: Seq<Seq<char>>,
    pub dots: Seq<DotfileView>,
}

impl View for Dartfile {
    type V = DartfileView;

    open spec fn view(&self) -> DartfileView {
        DartfileView {
            machine: self.machine@,
            dots: self.dots@.map_values(|d: Dotfile| d@),
        }
    }
}

/// What an existence check on an entry's `location` reported.
#[derive(Debug, Clone, Copy, PartialEq, Eq, Structural)]
pub enum Probe {
    /// The path exists, symlinks followed.
    Exists,
    /// The path does not exist, or is a broken symlink.
    Missing,
    /// The check itself failed (permission denied on an ancestor, ...).
    Unreadable,
}

/// Why an entry's source is not usable.
#[derive(Debug, Clone, Copy, PartialEq, Eq, Structural)]
pub enum SourceFault {
    /// The source does not exist: a mistake in the manifest.
    BrokenSource,
    /// Its existence could not be checked: a problem of the environment.
    PathUnreadable,
}

/// A failed validation, naming the entry by its position in the manifest.
#[derive(Debug, PartialEq, Eq)]
pub struct ValidationError {
    pub index: usize,
    pub location: String,
    pub fault: SourceFault,
}

/// The verdict on one entry given the check on its location.
pub open spec fn probe_verdict(p: Probe) -> Result<(), SourceFault> {
    match p {
        Probe::Exists => Ok(()),
        Probe::Missing => Err(SourceFault::BrokenSource),
        Probe::Unreadable => Err(SourceFault::PathUnreadable),
    }
}

impl Dotfile {
    /// Validates the entry from the existence check made on its `location`.
    pub fn validate(&self, probe: Probe) -> (r: Result<(), SourceFault>)
        ensures
            r == probe_verdict(probe),
    {
        match probe {
            Probe::Exists => Ok(()),
            Probe::Missing => Err(SourceFault::BrokenSource),
            Probe::Unreadable => Err(SourceFault::PathUnreadable),
        }
    }
}

impl Dartfile {
    /// Validates every entry, given the check made on each entry's `location`
    /// (`probes[i]` for entry `i`). Stops at the first entry whose source is
    /// not usable and names it.
    pub fn validate(&self, probes: &[Probe]) -> (r: Result<(), ValidationError>)
        requires
            probes@.len() == self.dots@.len(),
        ensures
            (forall|k: int| 0 <= k < probes@.len() ==> probes@[k] == Probe::Exists) <==> r is Ok,
            match r {
                Ok(()) => true,
                Err(e) => {
                    &&& 0 <= e.index < probes@.len()
                    &&& forall|j: int| 0 <= j < e.index ==> probes@[j] == Probe::Exists
                    &&& probe_verdict(probes@[e.index as int]) == Err::<(), SourceFault>(e.fault)
                    &&& e.location@ == self.dots@[e.index as int].location@
                },
            },
    {
        let n = self.dots.len();
        let mut i: usize = 0;
        while i < n
            invariant
                n == self.dots@.len(),
                n == probes@.len(),
                i <= n,
                forall|j: int| 0 <= j < i ==> probes@[j] == Probe::Exists,
            decreases n - i,
        {
            match self.dots[i].validate(probes[i]) {
                Ok(()) => {},
                Err(fault) => {
                    return Err(
                        ValidationError {
                            index: i,
                            location: self.dots[i].location.clone(),
                            fault,
                        },
                    );
                },
            }
            i = i + 1;
        }
        Ok(())
    }
}

} // verus!
