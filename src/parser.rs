//! Turns the manifest and machine-identity documents into a `Dartfile`.
//!
//! Manifest schema: a top-level `dots` array of tables, each with string
//! fields `location`, `destination`, `strategy` and an array of strings
//! `identifiers`. Machine schema: a top-level array of strings `identifiers`.
use vstd::prelude::*;
use crate::document::{Doc, get, lookup};
use crate::model::{
    texts, strategy_named, Dartfile, DartfileView, Dotfile, DotfileView, Fault, Field, Machine,
    Strategy,
};

verus! {

/// Which document, or which manifest entry, a parse error is about.
#[derive(Debug, Clone, Copy, PartialEq, Eq, Structural)]
pub enum Section {
    Manifest,
    Machine,
    /// The entry at this position of `dots`.
    Entry(usize),
}

/// A structural error, or an invalid strategy, and where it was found.
#[derive(Debug, PartialEq, Eq)]
pub struct ParseError {
    pub section: Section,
    pub fault: Fault,
}

/// A required string field of a table.
pub open spec fn str_field(t: Seq<(String, Doc)>, key: Seq<char>, f: Field) -> Result<String, Fault> {
    match lookup(t, key) {
        None => Err(Fault::Missing(f)),
        Some(Doc::Str(s)) => Ok(s),
        Some(_) => Err(Fault::WrongType(f)),
    }
}

/// Whether every item is a string.
pub open spec fn all_strings(items: Seq<Doc>) -> bool {
    forall|i: int| 0 <= i < items.len() ==> items[i] is Str
}

/// The texts of a list of string items.
pub open spec fn string_texts(items: Seq<Doc>) -> Seq<Seq<char>> {
    items.map_values(
        |d: Doc|
            match d {
                Doc::Str(s) => s@,
                _ => Seq::empty(),
            },
    )
}

/// A required field of a table that holds an array of strings.
pub open spec fn list_field(t: Seq<(String, Doc)>, key: Seq<char>, f: Field) -> Result<
    Seq<Seq<char>>,
    Fault,
> {
    match lookup(t, key) {
        None => Err(Fault::Missing(f)),
        Some(Doc::Array(items)) => if all_strings(items@) {
            Ok(string_texts(items@))
        } else {
            Err(Fault::WrongType(f))
        },
        Some(_) => Err(Fault::WrongType(f)),
    }
}

/// One manifest entry: fields are read in the order location, destination,
/// strategy, identifiers; the strategy value is checked last.
pub open spec fn entry_of(doc: Doc) -> Result<DotfileView, Fault> {
    match doc {
        Doc::Table(t) => match str_field(t@, "location"@, Field::Location) {
            Err(e) => Err(e),
            Ok(loc) => match str_field(t@, "destination"@, Field::Destination) {
                Err(e) => Err(e),
                Ok(dest) => match str_field(t@, "strategy"@, Field::Strategy) {
                    Err(e) => Err(e),
                    Ok(st) => match list_field(t@, "identifiers"@, Field::Identifiers) {
                        Err(e) => Err(e),
                        Ok(ids) => match strategy_named(st@) {
                            None => Err(Fault::InvalidStrategy(st)),
                            Some(s) => Ok(
                                DotfileView {
                                    location: loc@,
                                    destination: dest@,
                                    strategy: s,
                                    identifiers: ids,
                                },
                            ),
                        },
                    },
                },
            },
        },
        _ => Err(Fault::NotATable),
    }
}

/// The first `n` entries, or the error of the first one that fails.
pub open spec fn entries_of(items: Seq<Doc>, n: int) -> Result<Seq<DotfileView>, ParseError>
    decreases n,
{
    if n <= 0 {
        Ok(Seq::empty())
    } else {
        match entries_of(items, n - 1) {
            Err(e) => Err(e),
            Ok(prev) => match entry_of(items[n - 1]) {
                Err(f) => Err(ParseError { section: Section::Entry((n - 1) as usize), fault: f }),
                Ok(d) => Ok(prev.push(d)),
            },
        }
    }
}

/// The entry documents under the manifest's `dots` key.
pub open spec fn dots_of(manifest: Doc) -> Result<Seq<Doc>, Fault> {
    match manifest {
        Doc::Table(t) => match lookup(t@, "dots"@) {
            None => Err(Fault::Missing(Field::Dots)),
            Some(Doc::Array(items)) => Ok(items@),
            Some(_) => Err(Fault::WrongType(Field::Dots)),
        },
        _ => Err(Fault::NotATable),
    }
}

/// The machine's tags from its identity document.
pub open spec fn machine_of(machine: Doc) -> Result<Seq<Seq<char>>, Fault> {
    match machine {
        Doc::Table(t) => list_field(t@, "identifiers"@, Field::Identifiers),
        _ => Err(Fault::NotATable),
    }
}

/// The whole parse: the `dots` key first, then the machine, then each entry in order.
pub open spec fn parse_of(manifest: Doc, machine: Doc) -> Result<DartfileView, ParseError> {
    match dots_of(manifest) {
        Err(f) => Err(ParseError { section: Section::Manifest, fault: f }),
        Ok(items) => match machine_of(machine) {
            Err(f) => Err(ParseError { section: Section::Machine, fault: f }),
            Ok(ids) => match entries_of(items, items.len() as int) {
                Err(e) => Err(e),
                Ok(ds) => Ok(DartfileView { machine: ids, dots: ds }),
            },
        },
    }
}

/// Reads a required string field.
fn read_str(t: &Vec<(String, Doc)>, key: &str, f: Field) -> (r: Result<String, Fault>)
    ensures
        r == str_field(t@, key@, f),
{
    match get(t, key) {
        None => Err(Fault::Missing(f)),
        Some(Doc::Str(s)) => Ok(s.clone()),
        Some(_) => Err(Fault::WrongType(f)),
    }
}

/// Copies the strings of an array of string items.
fn read_strings(items: &Vec<Doc>) -> (r: Option<Vec<String>>)
    ensures
        match r {
            Some(v) => all_strings(items@) && texts(v@) == string_texts(items@),
            None => !all_strings(items@),
        },
{
    let mut out: Vec<String> = Vec::new();
    let n = items.len();
    let mut i: usize = 0;
    while i < n
        invariant
            n == items@.len(),
            i <= n,
            out@.len() == i,
            forall|j: int| 0 <= j < i ==> (#[trigger] items@[j] matches Doc::Str(s) && out@[j]@ == s@),
        decreases n - i,
    {
        match &items[i] {
            Doc::Str(s) => {
                out.push(s.clone());
            },
            _ => {
                assert(!(items@[i as int] is Str));
                return None;
            },
        }
        i = i + 1;
    }
    assert(texts(out@) =~= string_texts(items@));
    Some(out)
}

/// Reads a required field holding an array of strings.
fn read_list(t: &Vec<(String, Doc)>, key: &str, f: Field) -> (r: Result<Vec<String>, Fault>)
    ensures
        match r {
            Ok(v) => list_field(t@, key@, f) == Ok::<Seq<Seq<char>>, Fault>(texts(v@)),
            Err(e) => list_field(t@, key@, f) == Err::<Seq<Seq<char>>, Fault>(e),
        },
{
    match get(t, key) {
        None => Err(Fault::Missing(f)),
        Some(Doc::Array(items)) => match read_strings(items) {
            Some(v) => Ok(v),
            None => Err(Fault::WrongType(f)),
        },
        Some(_) => Err(Fault::WrongType(f)),
    }
}

/// Copies a list of strings.
fn copy_texts(v: &Vec<String>) -> (r: Vec<String>)
    ensures
        texts(r@) == texts(v@),
{
    let mut out: Vec<String> = Vec::new();
    let mut i: usize = 0;
    while i < v.len()
        invariant
            i <= v@.len(),
            out@.len() == i,
            forall|j: int| 0 <= j < i ==> out@[j]@ == v@[j]@,
        decreases v@.len() - i,
    {
        out.push(v[i].clone());
        i = i + 1;
    }
    assert(texts(out@) =~= texts(v@));
    out
}

/// An entry's fields as they stand in the manifest, before the strategy is read.
struct DotfileRaw {
    location: String,
    destination: String,
    strategy: String,
    identifiers: Vec<String>,
}

impl DotfileRaw {
    fn determine_strategy(&self) -> (r: Result<Strategy, Fault>)
        ensures
            match strategy_named(self.strategy@) {
                Some(st) => r == Ok::<Strategy, Fault>(st),
                None => r == Err::<Strategy, Fault>(Fault::InvalidStrategy(self.strategy)),
            },
    {
        match Strategy::from_str(self.strategy.as_str()) {
            Ok(st) => Ok(st),
            Err(_) => Err(Fault::InvalidStrategy(self.strategy.clone())),
        }
    }

    fn to_dotfile(&self) -> (r: Result<Dotfile, Fault>)
        ensures
            match strategy_named(self.strategy@) {
                Some(st) => r matches Ok(d) && d@ == (DotfileView {
                    location: self.location@,
                    destination: self.destination@,
                    strategy: st,
                    identifiers: texts(self.identifiers@),
                }),
                None => r == Err::<Dotfile, Fault>(Fault::InvalidStrategy(self.strategy)),
            },
    {
        let strategy = match self.determine_strategy() {
            Ok(st) => st,
            Err(e) => return Err(e),
        };
        Ok(
            Dotfile {
                location: self.location.clone(),
                destination: self.destination.clone(),
                strategy,
                identifiers: copy_texts(&self.identifiers),
            },
        )
    }

    fn from_table(t: &Vec<(String, Doc)>) -> (r: Result<DotfileRaw, Fault>)
        ensures
            match r {
                Ok(raw) => {
                    &&& str_field(t@, "location"@, Field::Location) == Ok::<String, Fault>(raw.location)
                    &&& str_field(t@, "destination"@, Field::Destination) == Ok::<String, Fault>(raw.destination)
                    &&& str_field(t@, "strategy"@, Field::Strategy) == Ok::<String, Fault>(raw.strategy)
                    &&& list_field(t@, "identifiers"@, Field::Identifiers) == Ok::<Seq<Seq<char>>, Fault>(texts(raw.identifiers@))
                },
                Err(e) => {
                    ||| str_field(t@, "location"@, Field::Location) == Err::<String, Fault>(e)
                    ||| read_before(t@, Field::Destination) && str_field(t@, "destination"@, Field::Destination) == Err::<String, Fault>(e)
                    ||| read_before(t@, Field::Strategy) && str_field(t@, "strategy"@, Field::Strategy) == Err::<String, Fault>(e)
                    ||| read_before(t@, Field::Identifiers) && list_field(t@, "identifiers"@, Field::Identifiers) == Err::<Seq<Seq<char>>, Fault>(e)
                },
            },
    {
        let location = match read_str(t, "location", Field::Location) {
            Ok(s) => s,
            Err(e) => return Err(e),
        };
        let destination = match read_str(t, "destination", Field::Destination) {
            Ok(s) => s,
            Err(e) => return Err(e),
        };
        let strategy = match read_str(t, "strategy", Field::Strategy) {
            Ok(s) => s,
            Err(e) => return Err(e),
        };
        let identifiers = match read_list(t, "identifiers", Field::Identifiers) {
            Ok(v) => v,
            Err(e) => return Err(e),
        };
        Ok(DotfileRaw { location, destination, strategy, identifiers })
    }
}

/// Once a prefix of the entries fails, every longer prefix fails the same way.
proof fn lemma_entries_error_persists(items: Seq<Doc>, i: int, m: int)
    requires
        0 < i <= m,
        entries_of(items, i) is Err,
    ensures
        entries_of(items, m) == entries_of(items, i),
    decreases m - i,
{
    if m > i {
        lemma_entries_error_persists(items, i, m - 1);
    }
}

/// Reads one manifest entry.
fn parse_entry(doc: &Doc) -> (r: Result<Dotfile, Fault>)
    ensures
        match r {
            Ok(d) => entry_of(*doc) == Ok::<DotfileView, Fault>(d@),
            Err(e) => entry_of(*doc) == Err::<DotfileView, Fault>(e),
        },
{
    match doc {
        Doc::Table(t) => {
            let raw = match DotfileRaw::from_table(t) {
                Ok(raw) => raw,
                Err(e) => return Err(e),
            };
            raw.to_dotfile()
        },
        _ => Err(Fault::NotATable),
    }
}

impl Machine {
    /// Reads the machine-identity document.
    fn from_table(doc: &Doc) -> (r: Result<Machine, Fault>)
        ensures
            match r {
                Ok(m) => machine_of(*doc) == Ok::<Seq<Seq<char>>, Fault>(m@),
                Err(e) => machine_of(*doc) == Err::<Seq<Seq<char>>, Fault>(e),
            },
    {
        match doc {
            Doc::Table(t) => match read_list(t, "identifiers", Field::Identifiers) {
                Ok(identifiers) => Ok(Machine { identifiers }),
                Err(e) => Err(e),
            },
            _ => Err(Fault::NotATable),
        }
    }
}

/// Builds a `Dartfile` from the manifest document and the machine-identity
/// document. Paths are copied verbatim; nothing is looked up on disk. Any
/// missing field, field of the wrong type or invalid strategy fails the whole
/// parse, naming the document or entry and the field.
pub fn parse(manifest: &Doc, machine: &Doc) -> (r: Result<Dartfile, ParseError>)
    ensures
        match r {
            Ok(d) => parse_of(*manifest, *machine) == Ok::<DartfileView, ParseError>(d@),
            Err(e) => parse_of(*manifest, *machine) == Err::<DartfileView, ParseError>(e),
        },
{
    let items = match manifest {
        Doc::Table(t) => match get(t, "dots") {
            None => {
                return Err(
                    ParseError { section: Section::Manifest, fault: Fault::Missing(Field::Dots) },
                )
            },
            Some(Doc::Array(items)) => items,
            Some(_) => {
                return Err(
                    ParseError { section: Section::Manifest, fault: Fault::WrongType(Field::Dots) },
                )
            },
        },
        _ => return Err(ParseError { section: Section::Manifest, fault: Fault::NotATable }),
    };
    let identity = match Machine::from_table(machine) {
        Ok(m) => m,
        Err(f) => return Err(ParseError { section: Section::Machine, fault: f }),
    };
    let mut dots: Vec<Dotfile> = Vec::new();
    let n = items.len();
    let mut i: usize = 0;
    assert(dots@.map_values(|d: Dotfile| d@) =~= Seq::<DotfileView>::empty());
    while i < n
        invariant
            n == items@.len(),
            i <= n,
            dots_of(*manifest) == Ok::<Seq<Doc>, Fault>(items@),
            machine_of(*machine) == Ok::<Seq<Seq<char>>, Fault>(identity@),
            entries_of(items@, i as int) == Ok::<Seq<DotfileView>, ParseError>(
                dots@.map_values(|d: Dotfile| d@),
            ),
        decreases n - i,
    {
        match parse_entry(&items[i]) {
            Ok(d) => {
                let ghost before = dots@;
                dots.push(d);
                assert(dots@.map_values(|d: Dotfile| d@) =~= before.map_values(|d: Dotfile| d@).push(
                    d@,
                ));
            },
            Err(f) => {
                proof {
                    assert(entries_of(items@, i + 1) == Err::<Seq<DotfileView>, ParseError>(
                        ParseError { section: Section::Entry(i), fault: f },
                    ));
                    lemma_entries_error_persists(items@, i + 1, n as int);
                }
                return Err(ParseError { section: Section::Entry(i), fault: f });
            },
        }
        i = i + 1;
    }
    Ok(Dartfile { machine: identity, dots })
}

/// Whether every field that an entry table reads before `f` is present and well typed.
pub open spec fn read_before(t: Seq<(String, Doc)>, f: Field) -> bool {
    let loc = str_field(t, "location"@, Field::Location) is Ok;
    let dest = str_field(t, "destination"@, Field::Destination) is Ok;
    let st = str_field(t, "strategy"@, Field::Strategy) is Ok;
    match f {
        Field::Location => true,
        Field::Destination => loc,
        Field::Strategy => loc && dest,
        Field::Identifiers => loc && dest && st,
        Field::Dots => false,
    }
}

/// The key under which an entry holds a field.
pub open spec fn entry_key(f: Field) -> Seq<char> {
    match f {
        Field::Location => "location"@,
        Field::Destination => "destination"@,
        Field::Strategy => "strategy"@,
        Field::Identifiers => "identifiers"@,
        Field::Dots => "dots"@,
    }
}

/// A manifest with an entry that does not read fails to parse as a whole; when
/// the machine and the entries before it read, the error is that entry's.
pub proof fn lemma_entry_fault_fails_parse(manifest: Doc, machine: Doc, k: int)
    requires
        dots_of(manifest) is Ok,
        0 <= k < dots_of(manifest)->Ok_0.len(),
        entry_of(dots_of(manifest)->Ok_0[k]) is Err,
    ensures
        parse_of(manifest, machine) is Err,
        machine_of(machine) is Ok && entries_of(dots_of(manifest)->Ok_0, k) is Ok ==> parse_of(
            manifest,
            machine,
        ) == Err::<DartfileView, ParseError>(
            ParseError {
                section: Section::Entry(k as usize),
                fault: entry_of(dots_of(manifest)->Ok_0[k])->Err_0,
            },
        ),
{
    let items = dots_of(manifest)->Ok_0;
    if k > 0 && entries_of(items, k) is Err {
        lemma_entries_error_persists(items, k, items.len() as int);
    } else {
        assert(entries_of(items, k + 1) is Err);
        lemma_entries_error_persists(items, k + 1, items.len() as int);
    }
}

/// Parsing fails when any entry lacks a required field; when the machine, the
/// entries before it and the fields it reads first are well formed, the error
/// names that entry and the missing field.
pub proof fn lemma_missing_field_fails(manifest: Doc, machine: Doc, k: int, f: Field)
    requires
        dots_of(manifest) is Ok,
        0 <= k < dots_of(manifest)->Ok_0.len(),
        dots_of(manifest)->Ok_0[k] is Table,
        lookup(dots_of(manifest)->Ok_0[k]->Table_0@, entry_key(f)) is None,
        f != Field::Dots,
    ensures
        parse_of(manifest, machine) is Err,
        machine_of(machine) is Ok && entries_of(dots_of(manifest)->Ok_0, k) is Ok && read_before(
            dots_of(manifest)->Ok_0[k]->Table_0@,
            f,
        ) ==> parse_of(manifest, machine) == Err::<DartfileView, ParseError>(
            ParseError { section: Section::Entry(k as usize), fault: Fault::Missing(f) },
        ),
{
    let doc = dots_of(manifest)->Ok_0[k];
    assert(entry_of(doc) is Err);
    if read_before(doc->Table_0@, f) {
        assert(entry_of(doc) == Err::<DotfileView, Fault>(Fault::Missing(f)));
    }
    lemma_entry_fault_fails_parse(manifest, machine, k);
}

/// Parsing fails when an otherwise well-formed entry names a strategy other
/// than `symlink` or `hardlink`; when the machine and the entries before it
/// read, the error names that entry and the value.
pub proof fn lemma_invalid_strategy_fails(manifest: Doc, machine: Doc, k: int)
    requires
        dots_of(manifest) is Ok,
        0 <= k < dots_of(manifest)->Ok_0.len(),
        dots_of(manifest)->Ok_0[k] is Table,
        read_before(dots_of(manifest)->Ok_0[k]->Table_0@, Field::Identifiers),
        list_field(dots_of(manifest)->Ok_0[k]->Table_0@, "identifiers"@, Field::Identifiers) is Ok,
        strategy_named(
            str_field(dots_of(manifest)->Ok_0[k]->Table_0@, "strategy"@, Field::Strategy)->Ok_0@,
        ) is None,
    ensures
        parse_of(manifest, machine) is Err,
        machine_of(machine) is Ok && entries_of(dots_of(manifest)->Ok_0, k) is Ok ==> parse_of(
            manifest,
            machine,
        ) == Err::<DartfileView, ParseError>(
            ParseError {
                section: Section::Entry(k as usize),
                fault: Fault::InvalidStrategy(
                    str_field(
                        dots_of(manifest)->Ok_0[k]->Table_0@,
                        "strategy"@,
                        Field::Strategy,
                    )->Ok_0,
                ),
            },
        ),
{
    lemma_entry_fault_fails_parse(manifest, machine, k);
}

} // verus!
