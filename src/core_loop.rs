//! The ingestion step: each byte from the meter goes through the frame
//! decoder; each complete frame is decoded, built into a reading and
//! rendered as bus messages; `record` stores a new reading in the
//! latest-value cell.
use vstd::prelude::*;

use crate::cell::LatestReadingCell;
use crate::datagram::Datagram;
use crate::publish::{bus_messages, messages_of, views, BusMessage};
use crate::reading::{build, lemma_build_wf, MeterReading, StructureError};
use crate::sml::{decoder_answer, parse_frame, sml_datagram, FrameDecoder, FrameEvent};

verus! {

/// What one byte of input led to.
#[derive(Debug)]
pub enum Ingested {
    /// the byte did not complete a frame
    Pending,
    /// the transport decoder discarded malformed bytes
    FramingError,
    /// a frame was complete but its payload is not an SML file
    ParseError,
    /// a datagram was decoded but does not have the expected structure
    StructureError(StructureError),
    /// a reading was built and stored; the messages to publish for it
    Reading(MeterReading, Vec<BusMessage>),
}

/// What a decoded datagram leads to: the reading it builds with the
/// messages to publish for it, or its structure error.
pub open spec fn ingest_spec(d: Datagram, r: Ingested) -> bool {
    match build(d) {
        Ok(reading) => r matches Ingested::Reading(rd, ms) && rd == reading && views(ms@)
            == messages_of(reading),
        Err(e) => r == Ingested::StructureError(e),
    }
}

/// What a frame's payload leads to: a parse error when it does not decode,
/// otherwise what its datagram leads to.
pub open spec fn frame_spec(parsed: Option<Datagram>, r: Ingested) -> bool {
    match parsed {
        Some(d) => ingest_spec(d, r),
        None => r is ParseError,
    }
}

/// The cell's reading after an outcome is recorded: a new reading replaces
/// the held one; every other outcome leaves it as it was.
pub open spec fn recorded(held: Option<MeterReading>, r: Ingested) -> Option<MeterReading> {
    match r {
        Ingested::Reading(reading, _) => Some(reading),
        _ => held,
    }
}

/// Builds a reading from a decoded datagram, with its bus messages, or
/// gives the datagram's structure error.
pub fn ingest(datagram: &Datagram) -> (r: Ingested)
    ensures
        ingest_spec(*datagram, r),
{
    match MeterReading::parse(datagram) {
        Ok(reading) => {
            let messages = bus_messages(&reading);
            Ingested::Reading(reading, messages)
        },
        Err(e) => Ingested::StructureError(e),
    }
}

/// Handles the payload of a complete frame: a payload that does not decode
/// is a parse error; otherwise as `ingest`.
pub fn handle_frame(frame: &[u8]) -> (r: Ingested)
    ensures
        frame_spec(sml_datagram(frame@), r),
{
    match parse_frame(frame) {
        Some(d) => ingest(&d),
        None => Ingested::ParseError,
    }
}

/// What an answer of the frame decoder leads to.
pub open spec fn event_spec(event: FrameEvent, r: Ingested) -> bool {
    match event {
        FrameEvent::Pending => r is Pending,
        FrameEvent::FramingError => r is FramingError,
        FrameEvent::Frame(f) => frame_spec(sml_datagram(f@), r),
    }
}

/// Handles what the frame decoder gave for one byte.
pub fn handle_event(event: FrameEvent) -> (r: Ingested)
    ensures
        event_spec(event, r),
{
    match event {
        FrameEvent::Pending => Ingested::Pending,
        FrameEvent::FramingError => Ingested::FramingError,
        FrameEvent::Frame(f) => handle_frame(f.as_slice()),
    }
}

/// Stores a new reading in the latest-value cell; any other outcome leaves
/// the cell untouched.
pub fn record(outcome: &Ingested, cell: &mut LatestReadingCell)
    ensures
        final(cell)@ == recorded(old(cell)@, *outcome),
{
    match outcome {
        Ingested::Reading(reading, _) => cell.store(*reading),
        _ => {},
    }
}

/// The ingestion side for one serial port.
pub struct CoreLoop {
    port: String,
    verbose: bool,
    decoder: FrameDecoder,
}

impl CoreLoop {
    #[verifier::type_invariant]
    spec fn decoder_wf(&self) -> bool {
        self.decoder.wf()
    }

    /// A loop for `port` whose decoder has seen no bytes.
    pub fn new(port: String, verbose: bool) -> (r: CoreLoop)
        ensures
            r.spec_port() == port@,
            r.spec_verbose() == verbose,
            r.spec_decoder().input() == Seq::<u8>::empty(),
            r.spec_decoder().run() == 0,
    {
        CoreLoop { port, verbose, decoder: FrameDecoder::new() }
    }

    pub closed spec fn spec_port(&self) -> Seq<char> {
        self.port@
    }

    pub closed spec fn spec_verbose(&self) -> bool {
        self.verbose
    }

    /// The serial port the loop reads from.
    pub fn port(&self) -> (r: &String)
        ensures
            r@ == self.spec_port(),
    {
        &self.port
    }

    /// Whether skipped frames are to be reported.
    pub fn verbose(&self) -> (r: bool)
        ensures
            r == self.spec_verbose(),
    {
        self.verbose
    }

    /// The loop's frame decoder.
    pub closed spec fn spec_decoder(&self) -> FrameDecoder {
        self.decoder
    }

    /// Feeds one byte from the meter to the frame decoder and handles its
    /// answer: a byte that completes a frame whose datagram builds into a
    /// reading returns that reading with its bus messages; `record` then
    /// stores it.
    pub fn push_byte(&mut self, byte: u8) -> (r: Ingested)
        ensures
            final(self).spec_port() == old(self).spec_port(),
            final(self).spec_verbose() == old(self).spec_verbose(),
            event_spec(decoder_answer(old(self).spec_decoder().fed_with(byte)), r),
            final(self).spec_decoder().input() == old(self).spec_decoder().fed_with(byte),
            final(self).spec_decoder().run() == if decoder_answer(
                old(self).spec_decoder().fed_with(byte),
            ) is Pending {
                (if old(self).spec_decoder().resets() {
                    0
                } else {
                    old(self).spec_decoder().run()
                }) + 1
            } else {
                0
            },
            r matches Ingested::Reading(reading, _) ==> reading.wf(),
    {
        proof { use_type_invariant(&*self); }
        let event = self.decoder.push_byte(byte);
        let ghost ev = event;
        let r = handle_event(event);
        proof {
            if let FrameEvent::Frame(f) = ev {
                if let Some(d) = sml_datagram(f@) {
                    lemma_build_wf(d);
                }
            }
        }
        r
    }
}

} // verus!
