use vstd::prelude::*;

use quick_xml::events::Event::{
    CData as XCData, Comment as XComment, Decl as XDecl, DocType as XDocType, Empty as XEmpty,
    End as XEnd, Eof as XEof, Start as XStart, Text as XText, PI as XPi,
};

verus! {

use EventKind::{Decl, DocType, Empty, End, Eof, Fault, Other, Pi, Start, Text};

/// The kinds of lexical event that the tokenizer reports.
#[derive(Clone, Copy, Debug, PartialEq, Eq, Structural)]
pub enum EventKind {
    Decl,
    DocType,
    Start,
    Empty,
    End,
    Pi,
    Text,
    /// A comment or a CDATA section.
    Other,
    Eof,
    /// The tokenizer could not read the input; `raw` holds its message.
    Fault,
}

/// One lexical event: its kind, the element name for tags, and the bytes that
/// the tokenizer collected for it (tag contents without the angle brackets,
/// escaped text, instruction data).
#[derive(Clone, Debug)]
pub struct XmlEvent {
    pub kind: EventKind,
    pub name: Vec<u8>,
    pub raw: Vec<u8>,
}

/// The tokenizer: a quick_xml reader over the input bytes, which Verus sees
/// only through the methods below.
#[verifier::external_body]
pub struct Tokenizer<'a> {
    rdr: quick_xml::Reader<&'a [u8]>,
}

pub open spec fn is_xml_space(b: u8) -> bool {
    b == 32u8 || b == 13u8 || b == 10u8 || b == 9u8
}

/// The name of a tag: its bytes up to the first whitespace.
pub open spec fn name_of(raw: Seq<u8>) -> Seq<u8>
    decreases raw.len(),
{
    if raw.len() == 0 || is_xml_space(raw[0]) {
        Seq::empty()
    } else {
        seq![raw[0]] + name_of(raw.drop_first())
    }
}

proof fn lemma_name_prefix(raw: Seq<u8>, i: int)
    requires
        0 <= i <= raw.len(),
        forall|j: int| 0 <= j < i ==> !is_xml_space(#[trigger] raw[j]),
        i == raw.len() || is_xml_space(raw[i]),
    ensures
        name_of(raw) == raw.subrange(0, i),
    decreases i,
{
    if i > 0 {
        let t = raw.drop_first();
        assert forall|j: int| 0 <= j < i - 1 implies !is_xml_space(#[trigger] t[j]) by {
            assert(t[j] == raw[j + 1]);
        }
        if i - 1 < t.len() {
            assert(t[i - 1] == raw[i]);
        }
        lemma_name_prefix(t, i - 1);
        assert(seq![raw[0]] + t.subrange(0, i - 1) =~= raw.subrange(0, i));
    }
}

/// The element name that a tag event carries: the bytes before the first
/// whitespace (attributes follow it).
pub fn element_name(raw: &Vec<u8>) -> (r: Vec<u8>)
    ensures
        r@ == name_of(raw@),
{
    let mut r: Vec<u8> = Vec::new();
    let mut i: usize = 0;
    while i < raw.len() && !(raw[i] == 32u8 || raw[i] == 13u8 || raw[i] == 10u8 || raw[i] == 9u8)
        invariant
            0 <= i <= raw.len(),
            r@ == raw@.subrange(0, i as int),
            forall|j: int| 0 <= j < i ==> !is_xml_space(#[trigger] raw@[j]),
        decreases raw.len() - i,
    {
        r.push(raw[i]);
        i = i + 1;
        assert(r@ =~= raw@.subrange(0, i as int));
    }
    proof {
        lemma_name_prefix(raw@, i as int);
    }
    r
}

/// The events, as kind and bytes, that quick_xml reads from `input` with
/// text trimmed, through the end of input or its first error.
pub uninterp spec fn lexed(input: Seq<u8>) -> Seq<(EventKind, Seq<u8>)>;

/// The events that the tokenizer has yet to hand out.
pub uninterp spec fn upcoming(t: Tokenizer) -> Seq<(EventKind, Seq<u8>)>;

/// Reading one event takes the first of the events ahead, or gives the end
/// of input once none is left.
pub open spec fn hands_out(
    before: Seq<(EventKind, Seq<u8>)>,
    after: Seq<(EventKind, Seq<u8>)>,
    kind: EventKind,
    bytes: Seq<u8>,
) -> bool {
    if before.len() > 0 {
        (kind, bytes) == before[0] && after == before.drop_first()
    } else {
        kind == EventKind::Eof && bytes.len() == 0 && after.len() == 0
    }
}

impl<'a> Tokenizer<'a> {
    /// Relies on quick_xml::Reader::from_reader and Reader::trim_text: a reader
    /// over the given bytes that trims text, which has all their events ahead.
    #[verifier::external_body]
    fn new(input: &'a [u8]) -> (r: Tokenizer<'a>)
        ensures
            upcoming(r) == lexed(input@),
    {
        let mut rdr = quick_xml::Reader::from_reader(input);
        rdr.trim_text(true);
        Tokenizer { rdr }
    }

    /// Relies on quick_xml::Reader::read_event: the next event, told apart by
    /// variant, with its bytes; once the events are spent, the end of input.
    #[verifier::external_body]
    fn read_event(&mut self) -> (r: (EventKind, Vec<u8>))
        ensures
            hands_out(upcoming(*old(self)), upcoming(*final(self)), r.0, r.1@),
    {
        match self.rdr.read_event(&mut Vec::new()) {
            Ok(XStart(b)) => (Start, b.to_vec()),
            Ok(XEnd(b)) => (End, b.to_vec()),
            Ok(XEmpty(b)) => (Empty, b.to_vec()),
            Ok(XText(b)) => (Text, b.to_vec()),
            Ok(XPi(b)) => (Pi, b.to_vec()),
            Ok(XDocType(b)) => (DocType, b.to_vec()),
            Ok(XComment(b) | XCData(b)) => (Other, b.to_vec()),
            Ok(XDecl(_)) => (Decl, Vec::new()),
            Ok(XEof) => (Eof, Vec::new()),
            Err(err) => (Fault, err.to_string().into_bytes()),
        }
    }
}

/// The `i`-th event of a lexed sequence, and the end of input past it.
pub open spec fn lexed_at(s: Seq<(EventKind, Seq<u8>)>, i: int) -> (EventKind, Seq<u8>) {
    if 0 <= i < s.len() {
        s[i]
    } else {
        (EventKind::Eof, Seq::empty())
    }
}

/// The events of a lexed sequence from the `k`-th on.
pub open spec fn lexed_from(s: Seq<(EventKind, Seq<u8>)>, k: int) -> Seq<(EventKind, Seq<u8>)> {
    if k <= s.len() {
        s.skip(k)
    } else {
        Seq::empty()
    }
}

/// The events `evs` are those that quick_xml reads from `input`, but for a
/// last fault after more events than the input has bytes.
pub open spec fn lexes(evs: Seq<XmlEvent>, input: Seq<u8>) -> bool {
    forall|i: int|
        0 <= i < evs.len() && i <= input.len() ==> ((#[trigger] evs[i]).kind, evs[i].raw@)
            == lexed_at(lexed(input), i)
}

/// A stream of events is closed when its last event, and only that one, is
/// the end of input or a fault.
pub open spec fn is_closed_stream(evs: Seq<XmlEvent>) -> bool {
    &&& evs.len() > 0
    &&& (evs.last().kind == EventKind::Eof || evs.last().kind == EventKind::Fault)
    &&& forall|i: int|
        0 <= i < evs.len() - 1 ==> (#[trigger] evs[i]).kind != EventKind::Eof
            && evs[i].kind != EventKind::Fault
    &&& forall|i: int| 0 <= i < evs.len() ==> (#[trigger] evs[i]).name@ == name_of(evs[i].raw@)
}

/// Reads every event of `input`, up to and including the end of input or the
/// first fault. Each event takes at least one byte, so a stream that has not
/// ended after `input.len() + 1` events is reported as a fault.
pub fn tokenize(input: &[u8]) -> (r: Vec<XmlEvent>)
    requires
        input@.len() < usize::MAX,
    ensures
        is_closed_stream(r@),
        r@.len() <= input@.len() + 2,
        lexes(r@, input@),
{
    let mut rdr = Tokenizer::new(input);
    let mut evs: Vec<XmlEvent> = Vec::new();
    let limit: usize = input.len() + 1;
    let mut count: usize = 0;
    loop
        invariant
            count == evs@.len(),
            count <= limit,
            limit == input@.len() + 1,
            forall|i: int|
                0 <= i < evs@.len() ==> (#[trigger] evs@[i]).kind != EventKind::Eof
                    && evs@[i].kind != EventKind::Fault,
            forall|i: int| 0 <= i < evs@.len() ==> (#[trigger] evs@[i]).name@ == name_of(evs@[i].raw@),
            upcoming(rdr) == lexed_from(lexed(input@), count as int),
            forall|i: int|
                0 <= i < evs@.len() ==> ((#[trigger] evs@[i]).kind, evs@[i].raw@) == lexed_at(
                    lexed(input@),
                    i,
                ),
        decreases limit - count,
    {
        if count == limit {
            let mut msg: Vec<u8> = Vec::new();
            msg.push(0x3fu8);
            let name = element_name(&msg);
            evs.push(XmlEvent { kind: EventKind::Fault, name, raw: msg });
            return evs;
        }
        let (kind, raw) = rdr.read_event();
        proof {
            let l = lexed(input@);
            if count < l.len() {
                assert(lexed_from(l, count as int)[0] == l[count as int]);
                assert(lexed_from(l, count as int).drop_first() =~= lexed_from(l, count + 1));
            } else {
                assert(lexed_from(l, count + 1) =~= Seq::<(EventKind, Seq<u8>)>::empty());
                assert(raw@ =~= Seq::<u8>::empty());
            }
            assert((kind, raw@) == lexed_at(l, count as int));
        }
        let name = element_name(&raw);
        let done = kind == EventKind::Eof || kind == EventKind::Fault;
        evs.push(XmlEvent { kind, name, raw });
        count = count + 1;
        if done {
            return evs;
        }
    }
}

} // verus!
