use vstd::prelude::*;

use crate::xmlout::{open_depth, XmlOutV};

verus! {

// ---------------------------------------------------------------------------
// The event writer of the `xml` crate, declared for the verifier, with
// names for what has been written to it and for the text that writing
// produces. All writers here are created by `writer_new` below, so they
// share one configuration and the output text is a function of the written
// events alone.
// ---------------------------------------------------------------------------
#[verifier::external_type_specification]
#[verifier::external_body]
#[verifier::reject_recursive_types(W)]
pub struct ExEventWriter<W>(xml::writer::EventWriter<W>);

#[verifier::external_type_specification]
#[verifier::external_body]
pub struct ExEmitterError(xml::writer::Error);

/// The events written so far to an event writer over an in-memory sink.
pub uninterp spec fn writer_events(w: xml::writer::EventWriter<Vec<u8>>) -> Seq<XmlOutV>;

/// The document text that the writer's configuration renders a written
/// event sequence as.
pub uninterp spec fn rendered(events: Seq<XmlOutV>) -> Seq<char>;

/// Relies on `EmitterConfig::new`, `EmitterConfig::perform_indent` and
/// `EmitterConfig::create_writer` of the `xml` crate: a fresh writer over an
/// empty in-memory sink, with indentation switched on; nothing has been
/// written to it yet.
#[verifier::external_body]
pub(crate) fn writer_new() -> (w: xml::writer::EventWriter<Vec<u8>>)
    ensures
        writer_events(w) == Seq::<XmlOutV>::empty(),
{
    xml::writer::EmitterConfig::new().perform_indent(true).create_writer(Vec::new())
}

/// Relies on `EventWriter::write` with a start-element event built by
/// `XmlEvent::start_element` and `StartElementBuilder::attr`: exactly the
/// element start with its one attribute is appended to the written events.
/// The call always succeeds: the emitter's only error path for a start
/// element is an I/O fault of the sink, and writing to a `Vec<u8>` never
/// fails.
#[verifier::external_body]
pub(crate) fn write_start(
    w: &mut xml::writer::EventWriter<Vec<u8>>,
    name: &str,
    attr_name: &str,
    attr_value: &str,
) -> (r: Result<(), xml::writer::Error>)
    ensures
        r is Ok,
        writer_events(*final(w)) == writer_events(*old(w)).push(
            XmlOutV::Start { name: name@, attr_name: attr_name@, attr_value: attr_value@ },
        ),
{
    w.write(xml::writer::XmlEvent::start_element(name).attr(attr_name, attr_value))
}

/// Relies on `EventWriter::write` with a characters event built by
/// `XmlEvent::characters`: exactly that character content is appended to
/// the written events. The call always succeeds: the emitter's only error
/// path for characters is an I/O fault of the sink, and writing to a
/// `Vec<u8>` never fails.
#[verifier::external_body]
pub(crate) fn write_characters(
    w: &mut xml::writer::EventWriter<Vec<u8>>,
    text: &str,
) -> (r: Result<(), xml::writer::Error>)
    ensures
        r is Ok,
        writer_events(*final(w)) == writer_events(*old(w)).push(
            XmlOutV::Characters { text: text@ },
        ),
{
    w.write(xml::writer::XmlEvent::characters(text))
}

/// Relies on `EventWriter::write` with an end-element event built by
/// `XmlEvent::end_element`: it succeeds exactly when an element is open —
/// the emitter pops its stack of open element names and reports
/// an error on an empty stack; all its other error paths are I/O faults of
/// the sink, and writing to a `Vec<u8>` never fails. On success the close
/// of the innermost open element is appended to the written events.
#[verifier::external_body]
pub(crate) fn write_end(w: &mut xml::writer::EventWriter<Vec<u8>>) -> (r: Result<
    (),
    xml::writer::Error,
>)
    ensures
        r is Ok <==> open_depth(writer_events(*old(w))) > 0,
        r is Ok ==> writer_events(*final(w)) == writer_events(*old(w)).push(XmlOutV::End),
{
    w.write(xml::writer::XmlEvent::end_element())
}

/// Relies on `EventWriter::into_inner` and `String::from_utf8_lossy`: the
/// bytes the writer has emitted for the written events, as text. The
/// emitter writes valid UTF-8, and with the one fixed configuration of
/// `writer_new` the text is determined by the written events.
#[verifier::external_body]
pub(crate) fn writer_into_string(w: xml::writer::EventWriter<Vec<u8>>) -> (r: String)
    ensures
        r@ == rendered(writer_events(w)),
{
    String::from_utf8_lossy(&w.into_inner()).into_owned()
}

} // verus!
