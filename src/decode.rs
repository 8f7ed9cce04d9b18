use vstd::prelude::*;
use vstd::string::{StringExecFns, StringSliceAdditionalSpecFns};

use crate::data::{
    empty_grant, insert_description, BibliographicDataGrantView, ClassificationLocarno,
    ClassificationLocarnoView, ClassificationNational, ClassificationNationalView, DocumentId,
    DocumentIdView, PatentGrant, PatentGrantView,
};
use crate::error::{error_view, plain_error, DeserError, DeserErrorView, ErrorKind};
use crate::event::{EventKind, XmlEvent};
use crate::text::{append_bytes, bytes_eq, is_tag, split_words, unescape_text, unescaped, utf8_text, words_of};

verus! {

/// The bytes of a tag name.
pub open spec fn tag(t: &str) -> Seq<u8> {
    t.spec_bytes()
}

/// The nested containers whose children are mapped onto fields.
#[derive(Clone, Copy, Debug, PartialEq, Eq, Structural)]
pub enum Container {
    Publication,
    Application,
    Locarno,
    National,
}

/// The fields that a mapped container can fill.
#[derive(Clone, Copy, Debug, PartialEq, Eq, Structural)]
pub enum Slot {
    Country,
    DocNumber,
    Date,
    Kind,
    Edition,
    MainClassification,
    AdditionalInfo,
    FurtherClassification,
}

/// Where collected element text goes once its element closes.
#[derive(Clone, Copy, Debug, PartialEq, Eq, Structural)]
pub enum TextTarget {
    ClaimStatement,
    Claim,
    SeriesCode,
    Field(Container, Slot),
}

/// What the assembler is inside of.
#[derive(Clone, Copy, Debug, PartialEq, Eq, Structural)]
pub enum Mode {
    /// Directly inside the record's root element.
    Top,
    /// Inside the claims list, between claims.
    Claims,
    /// Just inside a claim, before its text.
    ClaimOpen,
    /// Inside the bibliographic data.
    Biblio,
    /// Inside a reference, before its document id.
    DocIdOpen(Container),
    /// Inside a mapped container, between fields.
    Fields(Container),
    /// Collecting the text of an element.
    Text(TextTarget),
    /// Collecting the raw bytes of a text block.
    Block,
}

/// The closing tag that ends a mapped container, which error messages name.
pub open spec fn container_tag(c: Container) -> Seq<u8> {
    match c {
        Container::Publication | Container::Application => tag("document-id"),
        Container::Locarno => tag("classification-locarno"),
        Container::National => tag("classification-national"),
    }
}

/// The schema of each mapped container: which child fills which field.
pub open spec fn field_slot(c: Container, n: Seq<u8>) -> Option<Slot> {
    match c {
        Container::Publication | Container::Application => {
            if n == tag("country") {
                Some(Slot::Country)
            } else if n == tag("doc-number") {
                Some(Slot::DocNumber)
            } else if n == tag("date") {
                Some(Slot::Date)
            } else if n == tag("kind") {
                Some(Slot::Kind)
            } else {
                None
            }
        },
        Container::Locarno => {
            if n == tag("edition") {
                Some(Slot::Edition)
            } else if n == tag("main-classification") {
                Some(Slot::MainClassification)
            } else {
                None
            }
        },
        Container::National => {
            if n == tag("country") {
                Some(Slot::Country)
            } else if n == tag("additional-info") {
                Some(Slot::AdditionalInfo)
            } else if n == tag("main-classification") {
                Some(Slot::MainClassification)
            } else if n == tag("further-classification") {
                Some(Slot::FurtherClassification)
            } else {
                None
            }
        },
    }
}

pub open spec fn set_doc(d: DocumentIdView, s: Slot, t: Seq<char>) -> DocumentIdView {
    match s {
        Slot::Country => DocumentIdView { country: t, ..d },
        Slot::DocNumber => DocumentIdView { doc_number: t, ..d },
        Slot::Date => DocumentIdView { date: t, ..d },
        Slot::Kind => DocumentIdView { kind: Some(t), ..d },
        _ => d,
    }
}

pub open spec fn set_locarno(d: ClassificationLocarnoView, s: Slot, t: Seq<char>) -> ClassificationLocarnoView {
    match s {
        Slot::Edition => ClassificationLocarnoView { edition: t, ..d },
        Slot::MainClassification => ClassificationLocarnoView { main_classification: t, ..d },
        _ => d,
    }
}

pub open spec fn set_national(d: ClassificationNationalView, s: Slot, t: Seq<char>) -> ClassificationNationalView {
    match s {
        Slot::Country => ClassificationNationalView { country: t, ..d },
        Slot::AdditionalInfo => ClassificationNationalView { additional_info: t, ..d },
        Slot::MainClassification => ClassificationNationalView { main_classification: t, ..d },
        Slot::FurtherClassification => ClassificationNationalView { further_classification: Some(t), ..d },
        _ => d,
    }
}

/// The bibliographic data with one field of a mapped container set.
pub open spec fn set_field(
    b: BibliographicDataGrantView,
    c: Container,
    s: Slot,
    t: Seq<char>,
) -> BibliographicDataGrantView {
    match c {
        Container::Publication => BibliographicDataGrantView {
            publication_reference: set_doc(b.publication_reference, s, t),
            ..b
        },
        Container::Application => BibliographicDataGrantView {
            application_reference: set_doc(b.application_reference, s, t),
            ..b
        },
        Container::Locarno => BibliographicDataGrantView {
            classification_locarno: set_locarno(b.classification_locarno, s, t),
            ..b
        },
        Container::National => BibliographicDataGrantView {
            classification_national: set_national(b.classification_national, s, t),
            ..b
        },
    }
}

/// The state of the assembler between two events.
pub struct AssemblerView {
    pub mode: Mode,
    pub grant: PatentGrantView,
    /// Text collected for the element being read.
    pub text: Seq<char>,
    /// How many elements deep the text being collected is nested.
    pub depth: int,
    /// The name of the text block being read.
    pub block_name: Seq<char>,
    /// The bytes of the text block being read.
    pub block: Seq<u8>,
}

pub open spec fn initial_state() -> AssemblerView {
    AssemblerView {
        mode: Mode::Top,
        grant: empty_grant(),
        text: Seq::empty(),
        depth: 0,
        block_name: Seq::empty(),
        block: Seq::empty(),
    }
}

/// What one event does to the assembler.
pub enum Step {
    Next(AssemblerView),
    Done(PatentGrantView),
    Fail(DeserErrorView),
}

pub open spec fn with_mode(s: AssemblerView, m: Mode) -> AssemblerView {
    AssemblerView { mode: m, ..s }
}

pub open spec fn begin_text(s: AssemblerView, t: TextTarget) -> Step {
    Step::Next(AssemblerView { mode: Mode::Text(t), text: Seq::empty(), depth: 0, ..s })
}

/// Files the collected text where its target says, and leaves the element.
pub open spec fn finish_text(s: AssemblerView, t: TextTarget) -> AssemblerView {
    let g = s.grant;
    let b = g.us_bibliographic_data_grant;
    match t {
        TextTarget::ClaimStatement => AssemblerView {
            mode: Mode::Top,
            grant: PatentGrantView { us_claim_statement: Some(s.text), ..g },
            ..s
        },
        TextTarget::Claim => AssemblerView {
            mode: Mode::Claims,
            grant: PatentGrantView { claims: g.claims.push(s.text), ..g },
            ..s
        },
        TextTarget::SeriesCode => AssemblerView {
            mode: Mode::Biblio,
            grant: PatentGrantView {
                us_bibliographic_data_grant: BibliographicDataGrantView {
                    us_application_series_code: s.text,
                    ..b
                },
                ..g
            },
            ..s
        },
        TextTarget::Field(c, f) => AssemblerView {
            mode: Mode::Fields(c),
            grant: PatentGrantView { us_bibliographic_data_grant: set_field(b, c, f, s.text), ..g },
            ..s
        },
    }
}

/// Whether a word list marks the role `role`: its last word is `role`.
pub open spec fn role_is(w: Seq<Seq<char>>, role: Seq<char>) -> bool {
    w.len() > 0 && w.last() == role
}

/// Whether the instruction data `raw` is a marker of the role `role`.
pub open spec fn is_role(raw: Seq<u8>, role: Seq<char>) -> bool {
    unescaped(raw) matches Some(d) && role_is(words_of(d), role)
}

/// The section name that a marker carries: its first word.
pub open spec fn marker_name(raw: Seq<u8>) -> Seq<char> {
    words_of(unescaped(raw)->0)[0]
}

/// Directly inside the record: text blocks, the claim statement, the claims
/// and the bibliographic data are entered; other elements are passed over.
pub open spec fn step_top(s: AssemblerView, e: XmlEvent) -> Step {
    if e.kind == EventKind::Pi {
        if is_role(e.raw@, "end=\"lead\""@) {
            Step::Next(
                AssemblerView { mode: Mode::Block, block_name: marker_name(e.raw@), block: Seq::empty(), ..s },
            )
        } else {
            Step::Next(s)
        }
    } else if e.kind == EventKind::Start {
        if e.name@ == tag("us-claim-statement") {
            begin_text(s, TextTarget::ClaimStatement)
        } else if e.name@ == tag("claims") {
            Step::Next(with_mode(s, Mode::Claims))
        } else if e.name@ == tag("us-bibliographic-data-grant") {
            Step::Next(with_mode(s, Mode::Biblio))
        } else {
            Step::Next(s)
        }
    } else if e.kind == EventKind::End && e.name@ == tag("us-patent-grant") {
        Step::Done(s.grant)
    } else {
        Step::Next(s)
    }
}

/// Inside a text block: everything up to a tail marker is kept as bytes.
pub open spec fn step_block(s: AssemblerView, e: XmlEvent) -> Step {
    if e.kind == EventKind::Pi && is_role(e.raw@, "end=\"tail\""@) {
        if vstd::utf8::valid_utf8(s.block) {
            Step::Next(
                AssemblerView {
                    mode: Mode::Top,
                    grant: PatentGrantView {
                        descriptions: s.grant.descriptions.insert(
                            s.block_name,
                            vstd::utf8::decode_utf8(s.block),
                        ),
                        ..s.grant
                    },
                    block: Seq::empty(),
                    ..s
                },
            )
        } else {
            Step::Fail(plain_error(ErrorKind::InvalidUtf8))
        }
    } else {
        Step::Next(AssemblerView { block: s.block + e.raw@, ..s })
    }
}

/// Collecting element text: text of nested elements is flattened in.
pub open spec fn step_text(s: AssemblerView, t: TextTarget, e: XmlEvent) -> Step {
    if e.kind == EventKind::Text {
        match unescaped(e.raw@) {
            None => Step::Fail(plain_error(ErrorKind::UndecodableText)),
            Some(x) => Step::Next(AssemblerView { text: s.text + x, ..s }),
        }
    } else if e.kind == EventKind::Start {
        Step::Next(AssemblerView { depth: s.depth + 1, ..s })
    } else if e.kind == EventKind::End {
        if s.depth == 0 {
            Step::Next(finish_text(s, t))
        } else {
            Step::Next(AssemblerView { depth: s.depth - 1, ..s })
        }
    } else {
        Step::Next(s)
    }
}

/// Inside the bibliographic data: known sections are entered, others passed
/// over.
pub open spec fn step_biblio(s: AssemblerView, e: XmlEvent) -> Step {
    if e.kind == EventKind::Start {
        if e.name@ == tag("publication-reference") {
            Step::Next(with_mode(s, Mode::DocIdOpen(Container::Publication)))
        } else if e.name@ == tag("application-reference") {
            Step::Next(with_mode(s, Mode::DocIdOpen(Container::Application)))
        } else if e.name@ == tag("us-application-series-code") {
            begin_text(s, TextTarget::SeriesCode)
        } else if e.name@ == tag("classification-locarno") {
            Step::Next(with_mode(s, Mode::Fields(Container::Locarno)))
        } else if e.name@ == tag("classification-national") {
            Step::Next(with_mode(s, Mode::Fields(Container::National)))
        } else {
            Step::Next(s)
        }
    } else if e.kind == EventKind::End && e.name@ == tag("us-bibliographic-data-grant") {
        Step::Next(with_mode(s, Mode::Top))
    } else {
        Step::Next(s)
    }
}

/// Inside a reference: a document id must open next.
pub open spec fn step_doc_id_open(s: AssemblerView, c: Container, e: XmlEvent) -> Step {
    if e.kind == EventKind::Start {
        if e.name@ == tag("document-id") {
            Step::Next(with_mode(s, Mode::Fields(c)))
        } else {
            Step::Fail(error_view(ErrorKind::UnexpectedElement, e.name@, tag("document-id"), Seq::empty()))
        }
    } else {
        Step::Fail(error_view(ErrorKind::NotStartElement, Seq::empty(), tag("document-id"), Seq::empty()))
    }
}

/// Inside a mapped container: each child must be in its schema.
pub open spec fn step_fields(s: AssemblerView, c: Container, e: XmlEvent) -> Step {
    if e.kind == EventKind::Start || e.kind == EventKind::Empty {
        match field_slot(c, e.name@) {
            Some(f) => if e.kind == EventKind::Start {
                begin_text(s, TextTarget::Field(c, f))
            } else {
                Step::Next(finish_text(AssemblerView { text: Seq::empty(), ..s }, TextTarget::Field(c, f)))
            },
            None => Step::Fail(
                error_view(ErrorKind::UnrecognizedElement, e.name@, container_tag(c), Seq::empty()),
            ),
        }
    } else if e.kind == EventKind::End && e.name@ == container_tag(c) {
        Step::Next(with_mode(s, Mode::Biblio))
    } else {
        Step::Next(s)
    }
}

/// What one event does to the assembler in state `s`.
pub open spec fn spec_step(s: AssemblerView, e: XmlEvent) -> Step {
    if e.kind == EventKind::Fault {
        Step::Fail(error_view(ErrorKind::Lexical, Seq::empty(), Seq::empty(), e.raw@))
    } else if e.kind == EventKind::Eof {
        if s.mode == Mode::Block {
            Step::Fail(plain_error(ErrorKind::UnterminatedTextBlock))
        } else {
            Step::Fail(plain_error(ErrorKind::UnterminatedRecord))
        }
    } else {
        match s.mode {
            Mode::Top => step_top(s, e),
            Mode::Claims => {
                if e.kind == EventKind::Start && e.name@ == tag("claim") {
                    Step::Next(with_mode(s, Mode::ClaimOpen))
                } else if (e.kind == EventKind::End && e.name@ == tag("claim")) || e.kind
                    == EventKind::Other {
                    Step::Next(s)
                } else {
                    step_top(with_mode(s, Mode::Top), e)
                }
            },
            Mode::ClaimOpen => {
                if e.kind == EventKind::Start && e.name@ == tag("claim-text") {
                    begin_text(s, TextTarget::Claim)
                } else if e.kind == EventKind::Other {
                    Step::Next(s)
                } else {
                    step_top(with_mode(s, Mode::Top), e)
                }
            },
            Mode::Biblio => step_biblio(s, e),
            Mode::DocIdOpen(c) => step_doc_id_open(s, c, e),
            Mode::Fields(c) => step_fields(s, c, e),
            Mode::Text(t) => step_text(s, t, e),
            Mode::Block => step_block(s, e),
        }
    }
}

/// The assembler that builds one record from events.
pub struct Assembler {
    pub mode: Mode,
    pub grant: PatentGrant,
    pub text: String,
    pub depth: usize,
    pub block_name: String,
    pub block: Vec<u8>,
}

impl View for Assembler {
    type V = AssemblerView;

    open spec fn view(&self) -> AssemblerView {
        AssemblerView {
            mode: self.mode,
            grant: self.grant@,
            text: self.text@,
            depth: self.depth as int,
            block_name: self.block_name@,
            block: self.block@,
        }
    }
}

/// What an executed step reports.
pub enum Progress {
    Continue,
    Finished,
    Failed(DeserError),
}

/// The executed step `r`, which left the assembler in state `after`, is the
/// step `st`: a finished record is the assembler's grant.
pub open spec fn realizes(st: Step, r: Progress, after: AssemblerView) -> bool {
    match st {
        Step::Next(s2) => r is Continue && after == s2,
        Step::Done(g) => r is Finished && after.grant == g,
        Step::Fail(e) => r matches Progress::Failed(x) && x@ == e,
    }
}

fn set_doc_field(d: &mut DocumentId, f: Slot, t: String)
    ensures
        final(d)@ == set_doc(old(d)@, f, t@),
{
    match f {
        Slot::Country => d.country = t,
        Slot::DocNumber => d.doc_number = t,
        Slot::Date => d.date = t,
        Slot::Kind => d.kind = Some(t),
        _ => {},
    }
}

fn set_locarno_field(d: &mut ClassificationLocarno, f: Slot, t: String)
    ensures
        final(d)@ == set_locarno(old(d)@, f, t@),
{
    match f {
        Slot::Edition => d.edition = t,
        Slot::MainClassification => d.main_classification = t,
        _ => {},
    }
}

fn set_national_field(d: &mut ClassificationNational, f: Slot, t: String)
    ensures
        final(d)@ == set_national(old(d)@, f, t@),
{
    match f {
        Slot::Country => d.country = t,
        Slot::AdditionalInfo => d.additional_info = t,
        Slot::MainClassification => d.main_classification = t,
        Slot::FurtherClassification => d.further_classification = Some(t),
        _ => {},
    }
}

/// The field that child `n` of container `c` fills, if the schema has it.
pub fn lookup_slot(c: Container, n: &Vec<u8>) -> (r: Option<Slot>)
    ensures
        r == field_slot(c, n@),
{
    match c {
        Container::Publication | Container::Application => {
            if is_tag(n, "country") {
                Some(Slot::Country)
            } else if is_tag(n, "doc-number") {
                Some(Slot::DocNumber)
            } else if is_tag(n, "date") {
                Some(Slot::Date)
            } else if is_tag(n, "kind") {
                Some(Slot::Kind)
            } else {
                None
            }
        },
        Container::Locarno => {
            if is_tag(n, "edition") {
                Some(Slot::Edition)
            } else if is_tag(n, "main-classification") {
                Some(Slot::MainClassification)
            } else {
                None
            }
        },
        Container::National => {
            if is_tag(n, "country") {
                Some(Slot::Country)
            } else if is_tag(n, "additional-info") {
                Some(Slot::AdditionalInfo)
            } else if is_tag(n, "main-classification") {
                Some(Slot::MainClassification)
            } else if is_tag(n, "further-classification") {
                Some(Slot::FurtherClassification)
            } else {
                None
            }
        },
    }
}

fn container_name(c: Container) -> (r: Vec<u8>)
    ensures
        r@ == container_tag(c),
{
    match c {
        Container::Publication | Container::Application => vstd::slice::slice_to_vec("document-id".as_bytes()),
        Container::Locarno => vstd::slice::slice_to_vec("classification-locarno".as_bytes()),
        Container::National => vstd::slice::slice_to_vec("classification-national".as_bytes()),
    }
}

/// Checks that `ev` opens the element `element`: an error names what stood
/// there instead.
pub fn consume_start(ev: &XmlEvent, element: &[u8]) -> (r: Result<(), DeserError>)
    ensures
        ev.kind == EventKind::Start && ev.name@ == element@ ==> r is Ok,
        ev.kind == EventKind::Start && ev.name@ != element@ ==> (r matches Err(e) && e@
            == error_view(ErrorKind::UnexpectedElement, ev.name@, element@, Seq::empty())),
        ev.kind == EventKind::Fault ==> (r matches Err(e) && e@ == error_view(
            ErrorKind::Lexical,
            Seq::empty(),
            Seq::empty(),
            ev.raw@,
        )),
        ev.kind != EventKind::Start && ev.kind != EventKind::Fault ==> (r matches Err(e) && e@
            == error_view(ErrorKind::NotStartElement, Seq::empty(), element@, Seq::empty())),
{
    if ev.kind == EventKind::Fault {
        Err(DeserError::new(ErrorKind::Lexical, Vec::new(), Vec::new(), ev.raw.clone()))
    } else if ev.kind != EventKind::Start {
        Err(DeserError::new(ErrorKind::NotStartElement, Vec::new(), vstd::slice::slice_to_vec(element), Vec::new()))
    } else if bytes_eq(ev.name.as_slice(), element) {
        Ok(())
    } else {
        Err(
            DeserError::new(
                ErrorKind::UnexpectedElement,
                ev.name.clone(),
                vstd::slice::slice_to_vec(element),
                Vec::new(),
            ),
        )
    }
}

/// Whether the words of an instruction mark the role `role`: there is a
/// word, and the last one is `role`.
pub fn marker_role(words: &Vec<String>, role: &str) -> (r: bool)
    ensures
        r == role_is(words@.map_values(|x: String| x@), role@),
{
    let ghost wv = words@.map_values(|x: String| x@);
    if words.len() == 0 {
        return false;
    }
    let role_text = role.to_owned();
    assert(wv[wv.len() - 1] == words@[words@.len() - 1]@);
    words[words.len() - 1] == role_text
}

/// The section name of the instruction `raw` where it is a marker of the
/// role `role`.
fn instruction_role(raw: &Vec<u8>, role: &str) -> (r: Option<String>)
    ensures
        r is Some <==> is_role(raw@, role@),
        r is Some ==> r->0@ == marker_name(raw@),
{
    match unescape_text(raw) {
        None => None,
        Some(d) => {
            let w = split_words(&d);
            if marker_role(&w, role) {
                let ghost wv = w@.map_values(|x: String| x@);
                assert(wv[0] == w@[0]@);
                Some(w[0].clone())
            } else {
                None
            }
        },
    }
}

impl Assembler {
    pub fn new() -> (r: Assembler)
        ensures
            r@ == initial_state(),
    {
        Assembler {
            mode: Mode::Top,
            grant: PatentGrant::default(),
            text: String::new(),
            depth: 0,
            block_name: String::new(),
            block: Vec::new(),
        }
    }

    fn begin_text(&mut self, t: TextTarget) -> (r: Progress)
        ensures
            realizes(begin_text(old(self)@, t), r, final(self)@),
            final(self).depth <= old(self).depth,
    {
        self.mode = Mode::Text(t);
        self.text = String::new();
        self.depth = 0;
        Progress::Continue
    }

    fn finish_text(&mut self, t: TextTarget)
        ensures
            final(self)@ == finish_text(old(self)@, t),
    {
        let text = self.text.clone();
        match t {
            TextTarget::ClaimStatement => {
                self.grant.us_claim_statement = Some(text);
                self.mode = Mode::Top;
            },
            TextTarget::Claim => {
                let ghost before = self.grant.claims@;
                self.grant.claims.push(text);
                assert(self.grant.claims@.map_values(|c: String| c@) =~= before.map_values(
                    |c: String| c@,
                ).push(text@));
                self.mode = Mode::Claims;
            },
            TextTarget::SeriesCode => {
                self.grant.us_bibliographic_data_grant.us_application_series_code = text;
                self.mode = Mode::Biblio;
            },
            TextTarget::Field(c, f) => {
                match c {
                    Container::Publication => set_doc_field(
                        &mut self.grant.us_bibliographic_data_grant.publication_reference,
                        f,
                        text,
                    ),
                    Container::Application => set_doc_field(
                        &mut self.grant.us_bibliographic_data_grant.application_reference,
                        f,
                        text,
                    ),
                    Container::Locarno => set_locarno_field(
                        &mut self.grant.us_bibliographic_data_grant.classification_locarno,
                        f,
                        text,
                    ),
                    Container::National => set_national_field(
                        &mut self.grant.us_bibliographic_data_grant.classification_national,
                        f,
                        text,
                    ),
                }
                self.mode = Mode::Fields(c);
            },
        }
    }
}

impl Assembler {
    fn step_top(&mut self, ev: &XmlEvent) -> (r: Progress)
        ensures
            realizes(step_top(old(self)@, *ev), r, final(self)@),
            final(self).depth <= old(self).depth,
    {
        if ev.kind == EventKind::Pi {
            match instruction_role(&ev.raw, "end=\"lead\"") {
                Some(name) => {
                    self.mode = Mode::Block;
                    self.block_name = name;
                    self.block = Vec::new();
                },
                None => {},
            }
            Progress::Continue
        } else if ev.kind == EventKind::Start {
            if is_tag(&ev.name, "us-claim-statement") {
                self.begin_text(TextTarget::ClaimStatement)
            } else if is_tag(&ev.name, "claims") {
                self.mode = Mode::Claims;
                Progress::Continue
            } else if is_tag(&ev.name, "us-bibliographic-data-grant") {
                self.mode = Mode::Biblio;
                Progress::Continue
            } else {
                Progress::Continue
            }
        } else if ev.kind == EventKind::End && is_tag(&ev.name, "us-patent-grant") {
            Progress::Finished
        } else {
            Progress::Continue
        }
    }

    fn step_block(&mut self, ev: &XmlEvent) -> (r: Progress)
        ensures
            realizes(step_block(old(self)@, *ev), r, final(self)@),
            final(self).depth <= old(self).depth,
    {
        let is_tail = ev.kind == EventKind::Pi && instruction_role(&ev.raw, "end=\"tail\"").is_some();
        if is_tail {
            let bytes = self.block.clone();
            assert(bytes@ == self.block@);
            match utf8_text(bytes) {
                None => Progress::Failed(DeserError::plain(ErrorKind::InvalidUtf8)),
                Some(t) => {
                    insert_description(&mut self.grant.descriptions, self.block_name.clone(), t);
                    self.mode = Mode::Top;
                    self.block = Vec::new();
                    Progress::Continue
                },
            }
        } else {
            append_bytes(&mut self.block, &ev.raw);
            Progress::Continue
        }
    }

    fn step_text(&mut self, t: TextTarget, ev: &XmlEvent) -> (r: Progress)
        requires
            old(self).depth < usize::MAX,
        ensures
            realizes(step_text(old(self)@, t, *ev), r, final(self)@),
            final(self).depth <= old(self).depth + 1,
    {
        if ev.kind == EventKind::Text {
            match unescape_text(&ev.raw) {
                None => Progress::Failed(DeserError::plain(ErrorKind::UndecodableText)),
                Some(x) => {
                    self.text.append(x.as_str());
                    Progress::Continue
                },
            }
        } else if ev.kind == EventKind::Start {
            self.depth = self.depth + 1;
            Progress::Continue
        } else if ev.kind == EventKind::End {
            if self.depth == 0 {
                self.finish_text(t);
            } else {
                self.depth = self.depth - 1;
            }
            Progress::Continue
        } else {
            Progress::Continue
        }
    }

    fn step_biblio(&mut self, ev: &XmlEvent) -> (r: Progress)
        ensures
            realizes(step_biblio(old(self)@, *ev), r, final(self)@),
            final(self).depth <= old(self).depth,
    {
        if ev.kind == EventKind::Start {
            if is_tag(&ev.name, "publication-reference") {
                self.mode = Mode::DocIdOpen(Container::Publication);
                Progress::Continue
            } else if is_tag(&ev.name, "application-reference") {
                self.mode = Mode::DocIdOpen(Container::Application);
                Progress::Continue
            } else if is_tag(&ev.name, "us-application-series-code") {
                self.begin_text(TextTarget::SeriesCode)
            } else if is_tag(&ev.name, "classification-locarno") {
                self.mode = Mode::Fields(Container::Locarno);
                Progress::Continue
            } else if is_tag(&ev.name, "classification-national") {
                self.mode = Mode::Fields(Container::National);
                Progress::Continue
            } else {
                Progress::Continue
            }
        } else if ev.kind == EventKind::End && is_tag(&ev.name, "us-bibliographic-data-grant") {
            self.mode = Mode::Top;
            Progress::Continue
        } else {
            Progress::Continue
        }
    }

    fn step_doc_id_open(&mut self, c: Container, ev: &XmlEvent) -> (r: Progress)
        requires
            ev.kind != EventKind::Fault,
        ensures
            realizes(step_doc_id_open(old(self)@, c, *ev), r, final(self)@),
            final(self).depth <= old(self).depth,
    {
        match consume_start(ev, "document-id".as_bytes()) {
            Ok(()) => {
                self.mode = Mode::Fields(c);
                Progress::Continue
            },
            Err(e) => Progress::Failed(e),
        }
    }

    fn step_fields(&mut self, c: Container, ev: &XmlEvent) -> (r: Progress)
        ensures
            realizes(step_fields(old(self)@, c, *ev), r, final(self)@),
            final(self).depth <= old(self).depth,
    {
        if ev.kind == EventKind::Start || ev.kind == EventKind::Empty {
            match lookup_slot(c, &ev.name) {
                Some(f) => {
                    if ev.kind == EventKind::Start {
                        self.begin_text(TextTarget::Field(c, f))
                    } else {
                        self.text = String::new();
                        self.finish_text(TextTarget::Field(c, f));
                        Progress::Continue
                    }
                },
                None => Progress::Failed(
                    DeserError::new(
                        ErrorKind::UnrecognizedElement,
                        ev.name.clone(),
                        container_name(c),
                        Vec::new(),
                    ),
                ),
            }
        } else if ev.kind == EventKind::End {
            let closing = container_name(c);
            if bytes_eq(ev.name.as_slice(), closing.as_slice()) {
                self.mode = Mode::Biblio;
            }
            Progress::Continue
        } else {
            Progress::Continue
        }
    }

    /// Applies one event to the assembler.
    pub fn step(&mut self, ev: &XmlEvent) -> (r: Progress)
        requires
            old(self).depth < usize::MAX,
        ensures
            realizes(spec_step(old(self)@, *ev), r, final(self)@),
            final(self).depth <= old(self).depth + 1,
    {
        if ev.kind == EventKind::Fault {
            return Progress::Failed(DeserError::new(ErrorKind::Lexical, Vec::new(), Vec::new(), ev.raw.clone()));
        }
        if ev.kind == EventKind::Eof {
            if self.mode == Mode::Block {
                return Progress::Failed(DeserError::plain(ErrorKind::UnterminatedTextBlock));
            } else {
                return Progress::Failed(DeserError::plain(ErrorKind::UnterminatedRecord));
            }
        }
        match self.mode {
            Mode::Top => self.step_top(ev),
            Mode::Claims => {
                if ev.kind == EventKind::Start && is_tag(&ev.name, "claim") {
                    self.mode = Mode::ClaimOpen;
                    Progress::Continue
                } else if (ev.kind == EventKind::End && is_tag(&ev.name, "claim")) || ev.kind
                    == EventKind::Other {
                    Progress::Continue
                } else {
                    self.mode = Mode::Top;
                    self.step_top(ev)
                }
            },
            Mode::ClaimOpen => {
                if ev.kind == EventKind::Start && is_tag(&ev.name, "claim-text") {
                    self.begin_text(TextTarget::Claim)
                } else if ev.kind == EventKind::Other {
                    Progress::Continue
                } else {
                    self.mode = Mode::Top;
                    self.step_top(ev)
                }
            },
            Mode::Biblio => self.step_biblio(ev),
            Mode::DocIdOpen(c) => self.step_doc_id_open(c, ev),
            Mode::Fields(c) => self.step_fields(c, ev),
            Mode::Text(t) => self.step_text(t, ev),
            Mode::Block => self.step_block(ev),
        }
    }
}

} // verus!
