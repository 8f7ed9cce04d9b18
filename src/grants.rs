use vstd::prelude::*;

use crate::data::{PatentGrant, PatentGrantView};
use crate::decode::{initial_state, spec_step, Assembler, AssemblerView, Progress, Step};
use crate::error::{error_view, plain_error, DeserError, DeserErrorView, ErrorKind};
use crate::event::{is_closed_stream, lexes, tokenize, EventKind, XmlEvent};

verus! {

pub open spec fn result_view(r: Result<PatentGrant, DeserError>) -> Result<PatentGrantView, DeserErrorView> {
    match r {
        Ok(g) => Ok(g@),
        Err(e) => Err(e@),
    }
}

pub open spec fn outcome_view(r: Option<Result<PatentGrant, DeserError>>) -> Option<
    Result<PatentGrantView, DeserErrorView>,
> {
    match r {
        Some(x) => Some(result_view(x)),
        None => None,
    }
}

/// The record that the events from `pos` on complete, starting from the
/// assembler state `s`, and the position after the event that ended it.
pub open spec fn run(evs: Seq<XmlEvent>, pos: int, s: AssemblerView) -> (
    Result<PatentGrantView, DeserErrorView>,
    int,
)
    decreases evs.len() - pos,
{
    if pos < 0 || pos >= evs.len() {
        (Err(plain_error(ErrorKind::UnterminatedRecord)), pos)
    } else {
        match spec_step(s, evs[pos]) {
            Step::Next(s2) => run(evs, pos + 1, s2),
            Step::Done(g) => (Ok(g), pos + 1),
            Step::Fail(e) => (Err(e), pos + 1),
        }
    }
}

/// A record ends within the events, or where it was asked for.
pub proof fn lemma_run_position(evs: Seq<XmlEvent>, pos: int, s: AssemblerView)
    ensures
        run(evs, pos, s).1 <= evs.len() || run(evs, pos, s).1 == pos,
    decreases evs.len() - pos,
{
    if 0 <= pos < evs.len() {
        if let Step::Next(s2) = spec_step(s, evs[pos]) {
            lemma_run_position(evs, pos + 1, s2);
        }
    }
}

/// What the head of a record is.
pub enum Header {
    /// No record starts here: the input has ended.
    NoMore,
    /// A malformed head, and the position after it.
    Bad(DeserErrorView, int),
    /// A declaration and a doctype, and the position after them.
    Good(int),
}

pub open spec fn lexical_error(e: XmlEvent) -> DeserErrorView {
    error_view(ErrorKind::Lexical, Seq::empty(), Seq::empty(), e.raw@)
}

/// Reads the declaration and the doctype that open a record.
pub open spec fn header(evs: Seq<XmlEvent>, pos: int) -> Header {
    if pos < 0 || pos >= evs.len() || evs[pos].kind == EventKind::Eof {
        Header::NoMore
    } else if evs[pos].kind == EventKind::Fault {
        Header::Bad(lexical_error(evs[pos]), pos + 1)
    } else if evs[pos].kind != EventKind::Decl {
        Header::Bad(plain_error(ErrorKind::MissingDecl), pos + 1)
    } else if pos + 1 >= evs.len() {
        Header::Bad(plain_error(ErrorKind::MissingDocType), pos + 1)
    } else if evs[pos + 1].kind == EventKind::DocType {
        Header::Good(pos + 2)
    } else if evs[pos + 1].kind == EventKind::Fault {
        Header::Bad(lexical_error(evs[pos + 1]), pos + 2)
    } else {
        Header::Bad(plain_error(ErrorKind::MissingDocType), pos + 2)
    }
}

/// The outcome of asking for the record at `pos`: nothing at the end of the
/// input, else the record or its error; and the position after it.
pub open spec fn next_record(evs: Seq<XmlEvent>, pos: int) -> (
    Option<Result<PatentGrantView, DeserErrorView>>,
    int,
) {
    match header(evs, pos) {
        Header::NoMore => (None, pos),
        Header::Bad(e, p) => (Some(Err(e)), p),
        Header::Good(p) => {
            let (r, q) = run(evs, p, initial_state());
            (Some(r), q)
        },
    }
}

/// The outcome of reading the head of a record.
pub enum HeaderScan {
    NoMore,
    Bad(DeserError, usize),
    Good(usize),
}

pub open spec fn header_scan_view(h: HeaderScan) -> Header {
    match h {
        HeaderScan::NoMore => Header::NoMore,
        HeaderScan::Bad(e, p) => Header::Bad(e@, p as int),
        HeaderScan::Good(p) => Header::Good(p as int),
    }
}

/// Reads the declaration and the doctype that open the record at `pos`.
pub fn deser_header(events: &Vec<XmlEvent>, pos: usize) -> (r: HeaderScan)
    requires
        events@.len() < usize::MAX - 2,
    ensures
        header_scan_view(r) == header(events@, pos as int),
{
    let n = events.len();
    if pos >= n || events[pos].kind == EventKind::Eof {
        return HeaderScan::NoMore;
    }
    if events[pos].kind == EventKind::Fault {
        return HeaderScan::Bad(
            DeserError::new(ErrorKind::Lexical, Vec::new(), Vec::new(), events[pos].raw.clone()),
            pos + 1,
        );
    }
    if events[pos].kind != EventKind::Decl {
        return HeaderScan::Bad(DeserError::plain(ErrorKind::MissingDecl), pos + 1);
    }
    if pos + 1 >= n {
        return HeaderScan::Bad(DeserError::plain(ErrorKind::MissingDocType), pos + 1);
    }
    if events[pos + 1].kind == EventKind::DocType {
        HeaderScan::Good(pos + 2)
    } else if events[pos + 1].kind == EventKind::Fault {
        HeaderScan::Bad(
            DeserError::new(ErrorKind::Lexical, Vec::new(), Vec::new(), events[pos + 1].raw.clone()),
            pos + 2,
        )
    } else {
        HeaderScan::Bad(DeserError::plain(ErrorKind::MissingDocType), pos + 2)
    }
}

/// Assembles one record from the events that follow its head at `start`.
pub fn assemble(events: &Vec<XmlEvent>, start: usize) -> (r: (Result<PatentGrant, DeserError>, usize))
    requires
        events@.len() < usize::MAX - 2,
        start <= events@.len() + 2,
    ensures
        (result_view(r.0), r.1 as int) == run(events@, start as int, initial_state()),
{
    let mut builder = Assembler::new();
    let mut pos: usize = start;
    while pos < events.len()
        invariant
            start <= pos,
            pos <= events@.len() || pos == start,
            start <= events@.len() + 2,
            events@.len() < usize::MAX - 2,
            builder.depth <= pos - start,
            run(events@, start as int, initial_state()) == run(events@, pos as int, builder@),
        decreases events@.len() - pos,
    {
        match builder.step(&events[pos]) {
            Progress::Continue => {
                pos = pos + 1;
            },
            Progress::Finished => {
                return (Ok(builder.grant), pos + 1);
            },
            Progress::Failed(e) => {
                return (Err(e), pos + 1);
            },
        }
    }
    (Err(DeserError::plain(ErrorKind::UnterminatedRecord)), pos)
}

/// The records of a run of concatenated pseudo-documents, one per call of
/// `next`, in input order.
pub struct PatentGrants {
    events: Vec<XmlEvent>,
    pos: usize,
}

impl PatentGrants {
    /// The events of the input, ending with its end or a fault.
    pub closed spec fn events(&self) -> Seq<XmlEvent> {
        self.events@
    }

    /// The position of the next record among the events.
    pub closed spec fn position(&self) -> int {
        self.pos as int
    }

    pub closed spec fn wf(&self) -> bool {
        &&& is_closed_stream(self.events@)
        &&& self.events@.len() < usize::MAX - 2
        &&& self.pos <= self.events@.len() + 2
    }

    /// A stream over the events that quick_xml reads from `input`, at its
    /// first record.
    pub fn from_reader(input: &[u8]) -> (r: PatentGrants)
        requires
            input@.len() < usize::MAX - 4,
        ensures
            r.wf(),
            is_closed_stream(r.events()),
            lexes(r.events(), input@),
            r.position() == 0,
    {
        let events = tokenize(input);
        PatentGrants { events, pos: 0 }
    }

    /// A stream over the given events, at its first record.
    pub fn from_events(events: Vec<XmlEvent>) -> (r: PatentGrants)
        requires
            is_closed_stream(events@),
            events@.len() < usize::MAX - 2,
        ensures
            r.wf(),
            r.events() == events@,
            r.position() == 0,
    {
        PatentGrants { events, pos: 0 }
    }

    /// The next record: `None` once the input has ended, else the record or
    /// the error that ended it.
    pub fn next(&mut self) -> (r: Option<Result<PatentGrant, DeserError>>)
        requires
            old(self).wf(),
        ensures
            final(self).wf(),
            final(self).events() == old(self).events(),
            (outcome_view(r), final(self).position()) == next_record(
                old(self).events(),
                old(self).position(),
            ),
    {
        let pos = self.pos;
        match deser_header(&self.events, pos) {
            HeaderScan::NoMore => None,
            HeaderScan::Bad(e, p) => {
                self.pos = p;
                Some(Err(e))
            },
            HeaderScan::Good(p) => {
                let (r, q) = assemble(&self.events, p);
                proof {
                    lemma_run_position(self.events@, p as int, initial_state());
                }
                self.pos = q;
                Some(r)
            },
        }
    }
}

} // verus!
