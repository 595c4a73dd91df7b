use vstd::prelude::*;

use crate::ast::{BinaryOperation, ExprKindV, ExprV, Expression, ExpressionKind, Literal,
    LiteralKind, LiteralV};
use crate::emit::{rendered, write_characters, write_end, write_start, writer_into_string,
    writer_new, writer_events};
use crate::location::Location;
use crate::text::{loc_text, usize_to_string};
use vstd::string::StringExecFns;

verus! {

// ---------------------------------------------------------------------------
// The serialized form, as a sequence of events.
// ---------------------------------------------------------------------------
/// One piece of the structured output: the beginning of an element with its
/// one attribute, character content, or the end of the innermost open
/// element.
#[derive(Debug, PartialEq)]
pub enum XmlOut {
    Start { name: String, attr_name: String, attr_value: String },
    Characters { text: String },
    End,
}

/// The mathematical model of an output event.
pub ghost enum XmlOutV {
    Start { name: Seq<char>, attr_name: Seq<char>, attr_value: Seq<char> },
    Characters { text: Seq<char> },
    End,
}

impl View for XmlOut {
    type V = XmlOutV;

    open spec fn view(&self) -> XmlOutV {
        match self {
            XmlOut::Start { name, attr_name, attr_value } => XmlOutV::Start {
                name: name@,
                attr_name: attr_name@,
                attr_value: attr_value@,
            },
            XmlOut::Characters { text } => XmlOutV::Characters { text: text@ },
            XmlOut::End => XmlOutV::End,
        }
    }
}

/// The model of a whole event list.
pub open spec fn events_view(v: Seq<XmlOut>) -> Seq<XmlOutV> {
    v.map_values(|e: XmlOut| e@)
}

/// The element name a binary operation renders as.
pub open spec fn op_name(op: BinaryOperation) -> Seq<char> {
    match op {
        BinaryOperation::Add => "Add"@,
        BinaryOperation::Subtract => "Subtract"@,
        BinaryOperation::Multiply => "Multiply"@,
        BinaryOperation::Divide => "Divide"@,
    }
}

/// The events of a literal: an `Integer` element carrying the literal's
/// location, whose character content is the literal's text.
pub open spec fn spec_literal_events(lit: LiteralV) -> Seq<XmlOutV> {
    seq![
        XmlOutV::Start {
            name: "Integer"@,
            attr_name: "location"@,
            attr_value: loc_text(lit.location),
        },
        XmlOutV::Characters { text: lit.node->0 },
        XmlOutV::End,
    ]
}

/// The events of an expression tree: one element per node. A literal is an
/// `Integer` element; a binary node is an `Add`/`Subtract`/`Multiply`/
/// `Divide` element carrying the node's location and containing, in
/// left-then-right order, the serialized operands.
pub open spec fn spec_events(e: ExprV) -> Seq<XmlOutV>
    decreases e,
{
    match e.node {
        ExprKindV::Literal(lit) => spec_literal_events(*lit),
        ExprKindV::Binary(op, a, b) => seq![
            XmlOutV::Start {
                name: op_name(op),
                attr_name: "location"@,
                attr_value: loc_text(e.location),
            },
        ] + spec_events(*a) + spec_events(*b) + seq![XmlOutV::End],
    }
}

// ---------------------------------------------------------------------------
// The output determines the tree: re-parsing the structural shape of the
// event sequence reconstructs the tree up to locations.
// ---------------------------------------------------------------------------
/// The shape of a tree: operators and literal texts, without locations.
pub ghost enum ShapeV {
    Lit { value: Seq<char> },
    Bin { op: BinaryOperation, left: Box<ShapeV>, right: Box<ShapeV> },
}

pub open spec fn shape_of(e: ExprV) -> ShapeV
    decreases e,
{
    match e.node {
        ExprKindV::Literal(lit) => ShapeV::Lit { value: lit.node->0 },
        ExprKindV::Binary(op, a, b) => ShapeV::Bin {
            op,
            left: Box::new(shape_of(*a)),
            right: Box::new(shape_of(*b)),
        },
    }
}

/// The operation named by an element name, if any.
pub open spec fn op_of_name(name: Seq<char>) -> Option<BinaryOperation> {
    if name == "Add"@ {
        Some(BinaryOperation::Add)
    } else if name == "Subtract"@ {
        Some(BinaryOperation::Subtract)
    } else if name == "Multiply"@ {
        Some(BinaryOperation::Multiply)
    } else if name == "Divide"@ {
        Some(BinaryOperation::Divide)
    } else {
        None
    }
}

/// Re-parsing the structural shape from the events starting at `i`: an
/// `Integer` element with character content makes a literal; an operator
/// element containing two shapes makes a binary node. Yields the shape and
/// the position just past its events.
pub open spec fn decode_at(evs: Seq<XmlOutV>, i: int) -> Option<(ShapeV, int)>
    decreases evs.len() - i, 1int,
    when 0 <= i <= evs.len()
{
    if i < evs.len() {
        match evs[i] {
            XmlOutV::Start { name, .. } => {
                if name == "Integer"@ {
                    if i + 2 < evs.len() && (evs[i + 1] is Characters) && evs[i + 2]
                        == XmlOutV::End {
                        Some((ShapeV::Lit { value: evs[i + 1]->text }, i + 3))
                    } else {
                        None
                    }
                } else if op_of_name(name) is Some {
                    match decode_at(evs, i + 1) {
                        Some((left, j)) => {
                            if i < j <= evs.len() {
                                decode_bin(evs, i, name, left, j)
                            } else {
                                None
                            }
                        },
                        None => None,
                    }
                } else {
                    None
                }
            },
            _ => None,
        }
    } else {
        None
    }
}

/// The second half of decoding an operator element: the right operand at
/// `j`, then the element's end.
pub open spec fn decode_bin(
    evs: Seq<XmlOutV>,
    i: int,
    name: Seq<char>,
    left: ShapeV,
    j: int,
) -> Option<(ShapeV, int)>
    decreases evs.len() - i, 0int,
    when 0 <= i < j <= evs.len()
{
    match decode_at(evs, j) {
        Some((right, k)) => {
            if k < evs.len() && evs[k] == XmlOutV::End {
                Some(
                    (
                        ShapeV::Bin {
                            op: op_of_name(name).unwrap(),
                            left: Box::new(left),
                            right: Box::new(right),
                        },
                        k + 1,
                    ),
                )
            } else {
                None
            }
        },
        None => None,
    }
}

/// The four element names are distinct from each other and from
/// `Integer`, so an element name determines its node.
proof fn lemma_op_name_inverse(op: BinaryOperation)
    ensures
        op_of_name(op_name(op)) == Some(op),
        op_name(op) != "Integer"@,
{
    reveal_strlit("Integer");
    reveal_strlit("Add");
    reveal_strlit("Subtract");
    reveal_strlit("Multiply");
    reveal_strlit("Divide");
    match op {
        BinaryOperation::Add => {
            assert(op_name(op) == "Add"@);
        },
        BinaryOperation::Subtract => {
            assert(op_name(op) == "Subtract"@);
            assert("Subtract"@ != "Add"@);
        },
        BinaryOperation::Multiply => {
            assert(op_name(op) == "Multiply"@);
            assert("Multiply"@ != "Add"@);
            assert("Multiply"@[0] == 'M' && "Subtract"@[0] == 'S');
            assert("Multiply"@ != "Subtract"@);
        },
        BinaryOperation::Divide => {
            assert(op_name(op) == "Divide"@);
            assert("Divide"@ != "Add"@);
            assert("Divide"@ != "Subtract"@);
            assert("Divide"@ != "Multiply"@);
        },
    }
}

proof fn lemma_decode_events(e: ExprV, evs: Seq<XmlOutV>, i: int)
    requires
        0 <= i,
        i + spec_events(e).len() <= evs.len(),
        evs.subrange(i, i + spec_events(e).len()) == spec_events(e),
    ensures
        decode_at(evs, i) == Some((shape_of(e), i + spec_events(e).len())),
    decreases e,
{
    reveal_strlit("Integer");
    reveal_strlit("Add");
    reveal_strlit("Subtract");
    reveal_strlit("Multiply");
    reveal_strlit("Divide");
    let n = spec_events(e).len() as int;
    assert(forall|m: int|
        0 <= m < n ==> evs[i + m] == #[trigger] spec_events(e)[m]) by {
        assert(forall|m: int|
            0 <= m < n ==> #[trigger] spec_events(e)[m] == evs.subrange(i, i + n)[m]);
    }
    match e.node {
        ExprKindV::Literal(lit) => {
            assert(evs[i] == spec_events(e)[0]);
            assert(evs[i + 1] == spec_events(e)[1]);
            assert(evs[i + 2] == spec_events(e)[2]);
            assert(decode_at(evs, i) == Some((ShapeV::Lit { value: lit.node->0 }, i + 3)));
        },
        ExprKindV::Binary(op, a, b) => {
            let ea = spec_events(*a);
            let eb = spec_events(*b);
            let head = seq![
                XmlOutV::Start {
                    name: op_name(op),
                    attr_name: "location"@,
                    attr_value: loc_text(e.location),
                },
            ];
            let all = head + ea + eb + seq![XmlOutV::End];
            assert(spec_events(e) == all);
            assert(evs[i] == spec_events(e)[0]);
            assert(spec_events(e)[0] == head[0]);
            let ja = i + 1 + ea.len() as int;
            let jb = ja + eb.len() as int;
            assert forall|m: int| 0 <= m < ea.len() implies evs.subrange(i + 1, ja)[m]
                == ea[m] by {
                assert(all[1 + m] == ea[m]);
                assert(evs[i + 1 + m] == spec_events(e)[1 + m]);
                assert(evs.subrange(i + 1, ja)[m] == evs[i + 1 + m]);
            }
            assert(evs.subrange(i + 1, ja) =~= ea);
            lemma_decode_events(*a, evs, i + 1);
            assert forall|m: int| 0 <= m < eb.len() implies evs.subrange(ja, jb)[m] == eb[m] by {
                assert(all[1 + ea.len() + m] == eb[m]);
                assert(evs[ja + m] == spec_events(e)[1 + ea.len() + m]);
                assert(evs.subrange(ja, jb)[m] == evs[ja + m]);
            }
            assert(evs.subrange(ja, jb) =~= eb);
            lemma_decode_events(*b, evs, ja);
            assert(evs[jb] == spec_events(e)[n - 1]);
            lemma_op_name_inverse(op);
            assert(decode_bin(evs, i, op_name(op), shape_of(*a), ja) == Some(
                (shape_of(e), i + n),
            ));
            assert(decode_at(evs, i) == Some((shape_of(e), i + n)));
        },
    }
}

/// Law: the serialized events of a tree decode back to exactly that
/// tree's shape, literal texts and operator order included — the
/// structured output determines the tree up to locations.
pub proof fn lemma_events_round_trip(e: ExprV)
    ensures
        decode_at(spec_events(e), 0) == Some((shape_of(e), spec_events(e).len() as int)),
{
    assert(spec_events(e).subrange(0, spec_events(e).len() as int) =~= spec_events(e));
    lemma_decode_events(e, spec_events(e), 0);
}

// ---------------------------------------------------------------------------
// Building the events.
// ---------------------------------------------------------------------------
/// The `line:column` rendering of a location, as the `location` attribute
/// carries it.
pub fn location_text(l: Location) -> (r: String)
    ensures
        r@ == loc_text(l@),
{
    let mut s = usize_to_string(l.line);
    s.append(":");
    let col = usize_to_string(l.column);
    s.append(col.as_str());
    proof {
        reveal_strlit(":");
        assert(":"@ =~= seq![':']);
        assert(s@ =~= loc_text(l@));
    }
    s
}

fn op_name_string(op: BinaryOperation) -> (r: String)
    ensures
        r@ == op_name(op),
{
    match op {
        BinaryOperation::Add => "Add".to_owned(),
        BinaryOperation::Subtract => "Subtract".to_owned(),
        BinaryOperation::Multiply => "Multiply".to_owned(),
        BinaryOperation::Divide => "Divide".to_owned(),
    }
}

/// Appends the events of one literal.
fn push_literal_events(lit: &Literal, out: &mut Vec<XmlOut>)
    ensures
        events_view(final(out)@) == events_view(old(out)@) + spec_literal_events(lit@),
{
    let ghost before = out@;
    out.push(
        XmlOut::Start {
            name: "Integer".to_owned(),
            attr_name: "location".to_owned(),
            attr_value: location_text(lit.location),
        },
    );
    match &lit.node {
        LiteralKind::Integer(value) => {
            out.push(XmlOut::Characters { text: value.clone() });
        },
    }
    out.push(XmlOut::End);
    proof {
        assert(events_view(out@) =~= events_view(before) + spec_literal_events(lit@));
    }
}

/// Appends the events of one expression tree, recursing left then right.
fn push_events(e: &Expression, out: &mut Vec<XmlOut>)
    ensures
        events_view(final(out)@) == events_view(old(out)@) + spec_events(e@),
    decreases *e,
{
    match &e.node {
        ExpressionKind::Literal(lit) => {
            push_literal_events(lit, out);
        },
        ExpressionKind::Binary(op, a, b) => {
            let ghost before = out@;
            out.push(
                XmlOut::Start {
                    name: op_name_string(*op),
                    attr_name: "location".to_owned(),
                    attr_value: location_text(e.location),
                },
            );
            let ghost after_start = out@;
            proof {
                assert(events_view(after_start) =~= events_view(before).push(
                    XmlOutV::Start {
                        name: op_name(*op),
                        attr_name: "location"@,
                        attr_value: loc_text(e.location@),
                    },
                ));
            }
            push_events(a, out);
            push_events(b, out);
            let ghost after_b = out@;
            out.push(XmlOut::End);
            proof {
                assert(events_view(out@) =~= events_view(after_b).push(XmlOutV::End));
                assert(events_view(out@) =~= events_view(before) + spec_events(e@));
            }
        },
    }
}

// ---------------------------------------------------------------------------
// Rendering the events through the event writer.
// ---------------------------------------------------------------------------
/// The change one event makes to the number of open elements.
pub open spec fn event_delta(e: XmlOutV) -> int {
    match e {
        XmlOutV::Start { .. } => 1,
        XmlOutV::Characters { .. } => 0,
        XmlOutV::End => -1,
    }
}

/// The number of elements a written event sequence leaves open.
pub open spec fn open_depth(evs: Seq<XmlOutV>) -> int
    decreases evs.len(),
{
    if evs.len() == 0 {
        0
    } else {
        open_depth(evs.drop_last()) + event_delta(evs.last())
    }
}

/// A well-nested event sequence: every end event closes an element that an
/// earlier start left open.
pub open spec fn events_wf(evs: Seq<XmlOutV>) -> bool
    decreases evs.len(),
{
    if evs.len() == 0 {
        true
    } else {
        events_wf(evs.drop_last()) && (evs.last() is End ==> open_depth(evs.drop_last()) > 0)
    }
}

proof fn lemma_open_depth_concat(a: Seq<XmlOutV>, b: Seq<XmlOutV>)
    ensures
        open_depth(a + b) == open_depth(a) + open_depth(b),
    decreases b.len(),
{
    if b.len() == 0 {
        assert(a + b =~= a);
    } else {
        lemma_open_depth_concat(a, b.drop_last());
        assert((a + b).drop_last() =~= a + b.drop_last());
        assert((a + b).last() == b.last());
    }
}

proof fn lemma_events_wf_concat(a: Seq<XmlOutV>, b: Seq<XmlOutV>)
    requires
        events_wf(a),
        events_wf(b),
        open_depth(a) >= 0,
    ensures
        events_wf(a + b),
    decreases b.len(),
{
    if b.len() == 0 {
        assert(a + b =~= a);
    } else {
        lemma_events_wf_concat(a, b.drop_last());
        assert((a + b).drop_last() =~= a + b.drop_last());
        assert((a + b).last() == b.last());
        if b.last() is End {
            lemma_open_depth_concat(a, b.drop_last());
        }
    }
}

/// In a well-nested sequence, an element is open wherever an end event
/// stands.
proof fn lemma_events_wf_prefix(s: Seq<XmlOutV>, k: int)
    requires
        events_wf(s),
        0 <= k < s.len(),
        s[k] is End,
    ensures
        open_depth(s.take(k)) > 0,
    decreases s.len(),
{
    if k == s.len() - 1 {
        assert(s.take(k) =~= s.drop_last());
    } else {
        lemma_events_wf_prefix(s.drop_last(), k);
        assert(s.drop_last().take(k) =~= s.take(k));
        assert(s.drop_last()[k] == s[k]);
    }
}

proof fn lemma_literal_events_wf(lit: LiteralV)
    ensures
        events_wf(spec_literal_events(lit)),
        open_depth(spec_literal_events(lit)) == 0,
{
    reveal_with_fuel(open_depth, 5);
    reveal_with_fuel(events_wf, 5);
    let evs = spec_literal_events(lit);
    assert(evs.drop_last().drop_last().drop_last() =~= Seq::<XmlOutV>::empty());
}

/// A tree's serialized events are well nested and leave no element open:
/// every end event closes the element its node opened.
pub proof fn lemma_spec_events_wf(e: ExprV)
    ensures
        events_wf(spec_events(e)),
        open_depth(spec_events(e)) == 0,
    decreases e,
{
    match e.node {
        ExprKindV::Literal(lit) => {
            lemma_literal_events_wf(*lit);
        },
        ExprKindV::Binary(op, a, b) => {
            reveal_with_fuel(open_depth, 2);
            reveal_with_fuel(events_wf, 2);
            let head = seq![
                XmlOutV::Start {
                    name: op_name(op),
                    attr_name: "location"@,
                    attr_value: loc_text(e.location),
                },
            ];
            let ea = spec_events(*a);
            let eb = spec_events(*b);
            lemma_spec_events_wf(*a);
            lemma_spec_events_wf(*b);
            assert(head.drop_last() =~= Seq::<XmlOutV>::empty());
            assert(events_wf(head) && open_depth(head) == 1);
            lemma_events_wf_concat(head, ea);
            lemma_open_depth_concat(head, ea);
            lemma_events_wf_concat(head + ea, eb);
            lemma_open_depth_concat(head + ea, eb);
            let body = head + ea + eb;
            assert(spec_events(e) =~= body.push(XmlOutV::End));
            assert(body.push(XmlOutV::End).drop_last() =~= body);
        },
    }
}

/// The serializer's fault: the event writer refused an event. An end event
/// with no element open is the one way to provoke it; the well-nested
/// sequences a tree produces never do.
#[derive(Clone, Copy, Debug, PartialEq, Eq, Structural)]
pub enum SerializeError {
    Emit,
}

/// Feeds an event list to a fresh event writer and returns the rendered
/// document text. Succeeds on every well-nested event list.
pub fn render_events(events: &Vec<XmlOut>) -> (r: Result<String, SerializeError>)
    ensures
        events_wf(events_view(events@)) ==> r is Ok,
        r matches Ok(text) ==> text@ == rendered(events_view(events@)),
{
    let ghost all = events_view(events@);
    let mut w = writer_new();
    let mut idx: usize = 0;
    while idx < events.len()
        invariant
            0 <= idx <= events@.len(),
            all == events_view(events@),
            writer_events(w) == events_view(events@.subrange(0, idx as int)),
        decreases events@.len() - idx,
    {
        let ghost prefix = events@.subrange(0, idx as int);
        proof {
            if events_wf(all) && events@[idx as int]@ is End {
                assert(events_view(prefix) =~= all.take(idx as int));
                lemma_events_wf_prefix(all, idx as int);
            }
        }
        let res = match &events[idx] {
            XmlOut::Start { name, attr_name, attr_value } => write_start(
                &mut w,
                name.as_str(),
                attr_name.as_str(),
                attr_value.as_str(),
            ),
            XmlOut::Characters { text } => write_characters(&mut w, text.as_str()),
            XmlOut::End => write_end(&mut w),
        };
        match res {
            Ok(()) => {},
            Err(_) => {
                // only an end event with no element open is refused, and a
                // well-nested list has none
                return Err(SerializeError::Emit);
            },
        }
        idx += 1;
        proof {
            assert(events@.subrange(0, idx as int) =~= prefix.push(events@[idx - 1]));
            assert(events_view(events@.subrange(0, idx as int)) =~= events_view(prefix).push(
                events@[idx - 1]@,
            ));
        }
    }
    proof {
        assert(events@.subrange(0, events@.len() as int) =~= events@);
    }
    Ok(writer_into_string(w))
}

impl Expression {
    /// The serialization of this tree as an event sequence, exactly one
    /// element per node, operands in left-then-right order.
    pub fn xml_events(&self) -> (r: Vec<XmlOut>)
        ensures
            events_view(r@) == spec_events(self@),
    {
        let mut out: Vec<XmlOut> = Vec::new();
        push_events(self, &mut out);
        proof {
            assert(events_view(Seq::<XmlOut>::empty()) + spec_events(self@) =~= spec_events(
                self@,
            ));
        }
        out
    }

    /// Renders this tree into the structured, indented output text whose
    /// element nesting mirrors the tree. A tree's events are always well
    /// nested, and the in-memory sink cannot fault, so rendering always
    /// succeeds.
    pub fn serialize(&self) -> (r: Result<String, SerializeError>)
        ensures
            r matches Ok(text) && text@ == rendered(spec_events(self@)),
    {
        let events = self.xml_events();
        proof {
            lemma_spec_events_wf(self@);
        }
        render_events(&events)
    }
}

impl Literal {
    /// Renders this literal alone as an `Integer` element; like a whole
    /// tree, it always succeeds.
    pub fn serialize(&self) -> (r: Result<String, SerializeError>)
        ensures
            r matches Ok(text) && text@ == rendered(spec_literal_events(self@)),
    {
        let mut out: Vec<XmlOut> = Vec::new();
        push_literal_events(self, &mut out);
        proof {
            assert(events_view(Seq::<XmlOut>::empty()) + spec_literal_events(self@)
                =~= spec_literal_events(self@));
            lemma_literal_events_wf(self@);
        }
        render_events(&out)
    }
}

} // verus!
