use vstd::prelude::*;

use crate::data::{empty_grant, PatentGrantView};
use crate::decode::{
    container_tag, field_slot, is_role, marker_name, finish_text, set_field, spec_step, step_top, tag, with_mode, AssemblerView,
    Container, Mode, Step, TextTarget,
};
use crate::error::{error_view, plain_error, DeserErrorView, ErrorKind};
use crate::event::{EventKind, XmlEvent};
use crate::decode::initial_state;
use crate::grants::{header, next_record, run, Header};
use crate::text::unescaped;

verus! {

/// The events of several records, one after another.
pub open spec fn concat(bs: Seq<Seq<XmlEvent>>) -> Seq<XmlEvent>
    decreases bs.len(),
{
    if bs.len() == 0 {
        Seq::empty()
    } else {
        concat(bs.drop_last()) + bs.last()
    }
}

/// The events of one well-formed record: a declaration, a doctype, and a
/// body that decodes to a record ending exactly with its last event.
pub open spec fn is_record_block(b: Seq<XmlEvent>) -> bool {
    &&& b.len() >= 2
    &&& b[0].kind == EventKind::Decl
    &&& b[1].kind == EventKind::DocType
    &&& run(b, 2, initial_state()).0 is Ok
    &&& run(b, 2, initial_state()).1 == b.len()
}

/// Where the `i`-th record of `bs` starts in their concatenation.
pub open spec fn block_start(bs: Seq<Seq<XmlEvent>>, i: int) -> int {
    concat(bs.take(i)).len() as int
}

/// A record that decodes within its own events decodes the same way with
/// other events before and after it.
proof fn lemma_run_shift(
    pre: Seq<XmlEvent>,
    b: Seq<XmlEvent>,
    post: Seq<XmlEvent>,
    p: int,
    s: AssemblerView,
)
    requires
        0 <= p,
        run(b, p, s).0 is Ok,
    ensures
        run(pre + b + post, pre.len() + p, s) == (run(b, p, s).0, run(b, p, s).1 + pre.len()),
    decreases b.len() - p,
{
    let all = pre + b + post;
    if p < b.len() {
        assert(all[pre.len() + p] == b[p]);
        if let Step::Next(s2) = spec_step(s, b[p]) {
            lemma_run_shift(pre, b, post, p + 1, s2);
        }
    }
}

proof fn lemma_concat_prefix(bs: Seq<Seq<XmlEvent>>, k: int)
    requires
        0 <= k <= bs.len(),
    ensures
        concat(bs.take(k)).len() <= concat(bs).len(),
        concat(bs).subrange(0, concat(bs.take(k)).len() as int) == concat(bs.take(k)),
    decreases bs.len(),
{
    if k == bs.len() {
        assert(bs.take(k) =~= bs);
        assert(concat(bs).subrange(0, concat(bs).len() as int) =~= concat(bs));
    } else {
        let t = bs.drop_last();
        assert(bs.take(k) =~= t.take(k));
        lemma_concat_prefix(t, k);
        let n = concat(t.take(k)).len() as int;
        assert(concat(bs).subrange(0, n) =~= concat(t).subrange(0, n));
    }
}

proof fn lemma_concat_step(bs: Seq<Seq<XmlEvent>>, i: int)
    requires
        0 <= i < bs.len(),
    ensures
        concat(bs.take(i + 1)) == concat(bs.take(i)) + bs[i],
{
    assert(bs.take(i + 1).drop_last() =~= bs.take(i));
}

/// Well-formed records read one after another come out in input order, each
/// as its own events decode it, and the end of input follows them.
pub proof fn law_records_in_order(bs: Seq<Seq<XmlEvent>>, end: XmlEvent)
    requires
        forall|i: int| 0 <= i < bs.len() ==> is_record_block(#[trigger] bs[i]),
        end.kind == EventKind::Eof,
    ensures
        forall|i: int|
            0 <= i < bs.len() ==> next_record(concat(bs).push(end), #[trigger] block_start(bs, i))
                == (Some(run(bs[i], 2, initial_state()).0), block_start(bs, i + 1)),
        next_record(concat(bs).push(end), concat(bs).len() as int) == (
            None::<Result<PatentGrantView, DeserErrorView>>,
            concat(bs).len() as int,
        ),
{
    let evs = concat(bs).push(end);
    assert forall|i: int| 0 <= i < bs.len() implies next_record(evs, #[trigger] block_start(bs, i))
        == (Some(run(bs[i], 2, initial_state()).0), block_start(bs, i + 1)) by {
        let b = bs[i];
        let pre = concat(bs.take(i));
        lemma_concat_step(bs, i);
        lemma_concat_prefix(bs, i + 1);
        let m = pre.len() + b.len() as int;
        let post = evs.subrange(m, evs.len() as int);
        assert(concat(bs).subrange(0, m) == pre + b);
        assert(evs =~= pre + b + post);
        assert(evs[pre.len() as int] == b[0]);
        assert(evs[pre.len() as int + 1] == b[1]);
        lemma_run_shift(pre, b, post, 2, initial_state());
        assert(header(evs, pre.len() as int) == Header::Good(pre.len() as int + 2));
    }
    assert(evs[concat(bs).len() as int] == end);
}

/// A declaration that no doctype follows is a header error, never the end of
/// the input.
pub proof fn law_missing_doctype(evs: Seq<XmlEvent>, pos: int)
    requires
        0 <= pos < evs.len(),
        evs[pos].kind == EventKind::Decl,
        pos + 1 >= evs.len() || (evs[pos + 1].kind != EventKind::DocType && evs[pos
            + 1].kind != EventKind::Fault),
    ensures
        next_record(evs, pos).0 == Some(
            Err::<PatentGrantView, DeserErrorView>(plain_error(ErrorKind::MissingDocType)),
        ),
{
}

/// Inside a mapped container, a child outside its schema is an error that
/// names the child and the container.
pub proof fn law_unrecognized_child(s: AssemblerView, c: Container, e: XmlEvent)
    requires
        s.mode == Mode::Fields(c),
        e.kind == EventKind::Start,
        field_slot(c, e.name@) is None,
    ensures
        spec_step(s, e) == Step::Fail(
            error_view(ErrorKind::UnrecognizedElement, e.name@, container_tag(c), Seq::empty()),
        ),
{
}

/// Inside a text block, every event but a tail marker (nested lead markers,
/// other instructions, and instructions without words included) is kept as
/// content.
pub proof fn law_block_keeps_content(s: AssemblerView, e: XmlEvent)
    requires
        s.mode == Mode::Block,
        e.kind != EventKind::Eof,
        e.kind != EventKind::Fault,
        !(e.kind == EventKind::Pi && is_role(e.raw@, "end=\"tail\""@)),
    ensures
        spec_step(s, e) == Step::Next(AssemblerView { block: s.block + e.raw@, ..s }),
{
}

/// Directly inside the record, an instruction that is not a lead marker
/// (one without words or that cannot be unescaped included) is passed over.
pub proof fn law_other_instruction_ignored(s: AssemblerView, e: XmlEvent)
    requires
        s.mode == Mode::Top,
        e.kind == EventKind::Pi,
        !is_role(e.raw@, "end=\"lead\""@),
    ensures
        spec_step(s, e) == Step::Next(s),
{
}

/// A start tag other than a claim ends the claims list and is handled as if
/// it stood directly inside the record.
pub proof fn law_claims_end_at_sibling(s: AssemblerView, e: XmlEvent)
    requires
        s.mode == Mode::Claims,
        e.kind == EventKind::Start,
        e.name@ != tag("claim"),
    ensures
        spec_step(s, e) == step_top(with_mode(s, Mode::Top), e),
{
}

/// What a run of events does to the assembler in state `s`.
pub open spec fn steps(s: AssemblerView, evs: Seq<XmlEvent>) -> Step
    decreases evs.len(),
{
    if evs.len() == 0 {
        Step::Next(s)
    } else {
        match spec_step(s, evs[0]) {
            Step::Next(s2) => steps(s2, evs.drop_first()),
            other => other,
        }
    }
}

/// The events of one claim whose text is `t`: the claim opens, its text
/// element opens, holds `t` escaped, and both close.
pub open spec fn is_claim(evs: Seq<XmlEvent>, t: Seq<char>) -> bool {
    &&& evs.len() == 5
    &&& evs[0].kind == EventKind::Start && evs[0].name@ == tag("claim")
    &&& evs[1].kind == EventKind::Start && evs[1].name@ == tag("claim-text")
    &&& evs[2].kind == EventKind::Text && unescaped(evs[2].raw@) == Some(t)
    &&& evs[3].kind == EventKind::End
    &&& evs[4].kind == EventKind::End && evs[4].name@ == tag("claim")
}

/// The events of a list of claims with the given texts, in order.
pub open spec fn is_claim_list(evs: Seq<XmlEvent>, texts: Seq<Seq<char>>) -> bool {
    &&& evs.len() == 5 * texts.len()
    &&& forall|i: int|
        0 <= i < texts.len() ==> is_claim(#[trigger] evs.subrange(5 * i, 5 * i + 5), texts[i])
}

proof fn lemma_steps_append(s: AssemblerView, a: Seq<XmlEvent>, b: Seq<XmlEvent>)
    ensures
        steps(s, a + b) == (match steps(s, a) {
            Step::Next(s2) => steps(s2, b),
            other => other,
        }),
    decreases a.len(),
{
    if a.len() > 0 {
        assert((a + b).drop_first() =~= a.drop_first() + b);
        assert((a + b)[0] == a[0]);
        if let Step::Next(s2) = spec_step(s, a[0]) {
            lemma_steps_append(s2, a.drop_first(), b);
        }
    } else {
        assert(a + b =~= b);
    }
}

/// Inside the claims list, the claims are appended to the record in
/// document order, and the list stays open for more.
pub proof fn law_claims_in_order(s: AssemblerView, evs: Seq<XmlEvent>, texts: Seq<Seq<char>>)
    requires
        s.mode == Mode::Claims,
        is_claim_list(evs, texts),
    ensures
        steps(s, evs) matches Step::Next(s2) && s2.mode == Mode::Claims && s2.grant == (
        PatentGrantView { claims: s.grant.claims + texts, ..s.grant }),
    decreases texts.len(),
{
    if texts.len() == 0 {
        assert(s.grant.claims + texts =~= s.grant.claims);
    } else {
        let first = evs.subrange(0, 5);
        let rest = evs.subrange(5, evs.len() as int);
        assert(evs =~= first + rest);
        let z: int = 0;
        assert(is_claim(evs.subrange(5 * z, 5 * z + 5), texts[z]));
        assert(evs.subrange(5 * z, 5 * z + 5) == first);
        let t = texts[0];
        let s1 = with_mode(s, Mode::ClaimOpen);
        let s2 = AssemblerView {
            mode: Mode::Text(TextTarget::Claim),
            text: Seq::empty(),
            depth: 0,
            ..s1
        };
        let s3 = AssemblerView { text: s2.text + t, ..s2 };
        let s4 = finish_text(s3, TextTarget::Claim);
        assert(spec_step(s, first[0]) == Step::Next(s1));
        assert(spec_step(s1, first[1]) == Step::Next(s2));
        assert(spec_step(s2, first[2]) == Step::Next(s3));
        assert(spec_step(s3, first[3]) == Step::Next(s4));
        assert(spec_step(s4, first[4]) == Step::Next(s4));
        assert(first.drop_first().drop_first().drop_first().drop_first().drop_first().len() == 0);
        reveal_with_fuel(steps, 6);
        assert(steps(s, first) == Step::Next(s4));
        lemma_steps_append(s, first, rest);
        let more = texts.drop_first();
        assert forall|i: int| 0 <= i < more.len() implies is_claim(
            #[trigger] rest.subrange(5 * i, 5 * i + 5),
            more[i],
        ) by {
            assert(rest.subrange(5 * i, 5 * i + 5) =~= evs.subrange(5 * (i + 1), 5 * (i + 1) + 5));
            assert(is_claim(evs.subrange(5 * (i + 1), 5 * (i + 1) + 5), texts[i + 1]));
        }
        law_claims_in_order(s4, rest, more);
        assert(s.grant.claims.push(t) + more =~= s.grant.claims + texts);
    }
}

/// Inside a mapped container, a child of its schema that holds `t` escaped
/// fills its field with `t`, and the container stays open for more.
pub proof fn law_field_filled(s: AssemblerView, c: Container, evs: Seq<XmlEvent>, t: Seq<char>)
    requires
        s.mode == Mode::Fields(c),
        evs.len() == 3,
        evs[0].kind == EventKind::Start,
        field_slot(c, evs[0].name@) is Some,
        evs[1].kind == EventKind::Text,
        unescaped(evs[1].raw@) == Some(t),
        evs[2].kind == EventKind::End,
    ensures
        steps(s, evs) matches Step::Next(s2) && s2.mode == Mode::Fields(c)
            && s2.grant == (PatentGrantView {
            us_bibliographic_data_grant: set_field(
                s.grant.us_bibliographic_data_grant,
                c,
                field_slot(c, evs[0].name@)->0,
                t,
            ),
            ..s.grant
        }),
{
    let f = field_slot(c, evs[0].name@)->0;
    let s1 = AssemblerView { mode: Mode::Text(TextTarget::Field(c, f)), text: Seq::empty(), depth: 0, ..s };
    let s2 = AssemblerView { text: s1.text + t, ..s1 };
    assert(s2.text =~= t);
    let s3 = finish_text(s2, TextTarget::Field(c, f));
    assert(spec_step(s, evs[0]) == Step::Next(s1));
    assert(spec_step(s1, evs[1]) == Step::Next(s2));
    assert(spec_step(s2, evs[2]) == Step::Next(s3));
    assert(evs.drop_first().drop_first().drop_first().len() == 0);
    reveal_with_fuel(steps, 4);
}

/// Whether `e` stays inside a text block as content: anything but the end
/// of input, a fault, or a tail marker.
pub open spec fn is_block_content(e: XmlEvent) -> bool {
    &&& e.kind != EventKind::Eof
    &&& e.kind != EventKind::Fault
    &&& !(e.kind == EventKind::Pi && is_role(e.raw@, "end=\"tail\""@))
}

/// Whether `e` is a marker instruction whose last word is `role` and whose
/// first word is `name`.
pub open spec fn is_marker(e: XmlEvent, role: Seq<char>, name: Seq<char>) -> bool {
    &&& e.kind == EventKind::Pi
    &&& is_role(e.raw@, role)
    &&& marker_name(e.raw@) == name
}

/// The bytes that a run of events carries, one after another.
pub open spec fn raw_bytes(evs: Seq<XmlEvent>) -> Seq<u8>
    decreases evs.len(),
{
    if evs.len() == 0 {
        Seq::empty()
    } else {
        raw_bytes(evs.drop_last()) + evs.last().raw@
    }
}

proof fn lemma_block_content(s: AssemblerView, content: Seq<XmlEvent>)
    requires
        s.mode == Mode::Block,
        forall|i: int| 0 <= i < content.len() ==> is_block_content(#[trigger] content[i]),
    ensures
        steps(s, content) == Step::Next(AssemblerView { block: s.block + raw_bytes(content), ..s }),
    decreases content.len(),
{
    if content.len() == 0 {
        assert(s.block + raw_bytes(content) =~= s.block);
    } else {
        let init = content.drop_last();
        let e = content.last();
        lemma_block_content(s, init);
        let s1 = AssemblerView { block: s.block + raw_bytes(init), ..s };
        lemma_steps_append(s, init, seq![e]);
        assert(init + seq![e] =~= content);
        law_block_keeps_content(s1, e);
        assert(seq![e].drop_first().len() == 0);
        reveal_with_fuel(steps, 2);
        assert(s1.block + e.raw@ =~= s.block + raw_bytes(content));
    }
}

/// A text block, from its lead marker through content to a tail marker, is
/// stored under the lead marker's name as the text of the content's bytes,
/// replacing any earlier block of that name.
pub proof fn law_text_block_stored(
    s: AssemblerView,
    lead: XmlEvent,
    content: Seq<XmlEvent>,
    tail: XmlEvent,
    name: Seq<char>,
    tail_name: Seq<char>,
)
    requires
        s.mode == Mode::Top,
        is_marker(lead, "end=\"lead\""@, name),
        forall|i: int| 0 <= i < content.len() ==> is_block_content(#[trigger] content[i]),
        is_marker(tail, "end=\"tail\""@, tail_name),
        vstd::utf8::valid_utf8(raw_bytes(content)),
    ensures
        steps(s, seq![lead] + content + seq![tail]) matches Step::Next(s2) && s2.mode == Mode::Top
            && s2.grant == (PatentGrantView {
            descriptions: s.grant.descriptions.insert(name, vstd::utf8::decode_utf8(raw_bytes(content))),
            ..s.grant
        }),
{
    let s1 = AssemblerView { mode: Mode::Block, block_name: name, block: Seq::empty(), ..s };
    assert(spec_step(s, lead) == Step::Next(s1));
    assert(seq![lead].drop_first().len() == 0);
    reveal_with_fuel(steps, 2);
    assert(steps(s, seq![lead]) == Step::Next(s1));
    lemma_block_content(s1, content);
    let s2 = AssemblerView { block: s1.block + raw_bytes(content), ..s1 };
    assert(s2.block =~= raw_bytes(content));
    assert(seq![tail].drop_first().len() == 0);
    assert(steps(s2, seq![tail]) == spec_step(s2, tail));
    lemma_steps_append(s, seq![lead], content);
    lemma_steps_append(s, seq![lead] + content, seq![tail]);
}

/// Whether `e` is a tag event of kind `k` for the element `t`.
pub open spec fn is_tag_event(e: XmlEvent, k: EventKind, t: &str) -> bool {
    e.kind == k && e.name@ == tag(t)
}

proof fn lemma_tags_differ()
    ensures
        tag("us-patent-grant") != tag("us-claim-statement"),
        tag("us-patent-grant") != tag("claims"),
        tag("us-patent-grant") != tag("us-bibliographic-data-grant"),
        tag("claims") != tag("us-claim-statement"),
        tag("claims") != tag("claim"),
{
    reveal_strlit("us-patent-grant");
    reveal_strlit("us-claim-statement");
    reveal_strlit("claims");
    reveal_strlit("claim");
    reveal_strlit("us-bibliographic-data-grant");
    vstd::string::is_ascii_spec_bytes("us-patent-grant");
    vstd::string::is_ascii_spec_bytes("us-claim-statement");
    vstd::string::is_ascii_spec_bytes("claims");
    vstd::string::is_ascii_spec_bytes("claim");
    vstd::string::is_ascii_spec_bytes("us-bibliographic-data-grant");
}

/// Running over events that a segment of steps covers is running from the
/// state after them.
proof fn lemma_run_steps(evs: Seq<XmlEvent>, p: int, s: AssemblerView, seg: Seq<XmlEvent>, s2: AssemblerView)
    requires
        0 <= p,
        p + seg.len() <= evs.len(),
        evs.subrange(p, p + seg.len()) == seg,
        steps(s, seg) == Step::Next(s2),
    ensures
        run(evs, p, s) == run(evs, p + seg.len(), s2),
    decreases seg.len(),
{
    if seg.len() > 0 {
        assert(evs[p] == seg[0]);
        if let Step::Next(s1) = spec_step(s, seg[0]) {
            assert(evs.subrange(p + 1, p + 1 + seg.drop_first().len()) =~= seg.drop_first());
            lemma_run_steps(evs, p + 1, s1, seg.drop_first(), s2);
        }
    }
}

/// The events of a record per the input format: declaration, doctype, the
/// root element holding a text block and a claims list, and the end of input.
pub open spec fn record_events(
    head: Seq<XmlEvent>,
    root: XmlEvent,
    block: Seq<XmlEvent>,
    open_claims: XmlEvent,
    claims: Seq<XmlEvent>,
    close_claims: XmlEvent,
    close_root: XmlEvent,
    end: XmlEvent,
) -> Seq<XmlEvent> {
    head + seq![root] + block + seq![open_claims] + claims + seq![close_claims, close_root, end]
}

/// A record made of a text block and a list of claims decodes to exactly that
/// content: the block's text under its name, the claims in document order,
/// everything else empty; the input then ends.
pub proof fn law_record_decodes(
    head: Seq<XmlEvent>,
    root: XmlEvent,
    lead: XmlEvent,
    content: Seq<XmlEvent>,
    tail: XmlEvent,
    name: Seq<char>,
    tail_name: Seq<char>,
    open_claims: XmlEvent,
    claims: Seq<XmlEvent>,
    texts: Seq<Seq<char>>,
    close_claims: XmlEvent,
    close_root: XmlEvent,
    end: XmlEvent,
)
    requires
        head.len() == 2,
        head[0].kind == EventKind::Decl,
        head[1].kind == EventKind::DocType,
        is_tag_event(root, EventKind::Start, "us-patent-grant"),
        is_marker(lead, "end=\"lead\""@, name),
        forall|i: int| 0 <= i < content.len() ==> is_block_content(#[trigger] content[i]),
        is_marker(tail, "end=\"tail\""@, tail_name),
        vstd::utf8::valid_utf8(raw_bytes(content)),
        is_tag_event(open_claims, EventKind::Start, "claims"),
        is_claim_list(claims, texts),
        is_tag_event(close_claims, EventKind::End, "claims"),
        is_tag_event(close_root, EventKind::End, "us-patent-grant"),
        end.kind == EventKind::Eof,
    ensures
        ({
            let evs = record_events(
                head,
                root,
                seq![lead] + content + seq![tail],
                open_claims,
                claims,
                close_claims,
                close_root,
                end,
            );
            &&& next_record(evs, 0) == (
                Some(
                    Ok::<PatentGrantView, DeserErrorView>(
                        PatentGrantView {
                            descriptions: Map::empty().insert(
                                name,
                                vstd::utf8::decode_utf8(raw_bytes(content)),
                            ),
                            claims: texts,
                            ..empty_grant()
                        },
                    ),
                ),
                evs.len() - 1,
            )
            &&& next_record(evs, evs.len() - 1).0 is None
        }),
{
    lemma_tags_differ();
    let block = seq![lead] + content + seq![tail];
    let evs = record_events(head, root, block, open_claims, claims, close_claims, close_root, end);
    let s0 = initial_state();
    reveal_with_fuel(steps, 2);
    assert(seq![root].drop_first().len() == 0);
    assert(steps(s0, seq![root]) == Step::Next(s0));
    law_text_block_stored(s0, lead, content, tail, name, tail_name);
    let b1 = steps(s0, block)->Next_0;
    let s2 = with_mode(b1, Mode::Claims);
    assert(seq![open_claims].drop_first().len() == 0);
    assert(steps(b1, seq![open_claims]) == Step::Next(s2));
    law_claims_in_order(s2, claims, texts);
    let c1 = steps(s2, claims)->Next_0;
    let s3 = with_mode(c1, Mode::Top);
    assert(seq![close_claims].drop_first().len() == 0);
    assert(steps(c1, seq![close_claims]) == Step::Next(s3));
    let body = seq![root] + block + seq![open_claims] + claims + seq![close_claims];
    lemma_steps_append(s0, seq![root], block);
    lemma_steps_append(s0, seq![root] + block, seq![open_claims]);
    lemma_steps_append(s0, seq![root] + block + seq![open_claims], claims);
    lemma_steps_append(s0, seq![root] + block + seq![open_claims] + claims, seq![close_claims]);
    assert(steps(s0, body) == Step::Next(s3));
    assert(evs =~= head + body + seq![close_root, end]);
    assert(evs.subrange(2, 2 + body.len() as int) =~= body);
    lemma_run_steps(evs, 2, s0, body, s3);
    assert(evs[2 + body.len() as int] == close_root);
    assert(header(evs, 0) == Header::Good(2));
    assert(s3.grant == PatentGrantView {
        descriptions: Map::empty().insert(name, vstd::utf8::decode_utf8(raw_bytes(content))),
        claims: texts,
        ..empty_grant()
    }) by {
        assert(Seq::<Seq<char>>::empty() + texts =~= texts);
    }
    assert(evs[evs.len() - 1] == end);
}

} // verus!
