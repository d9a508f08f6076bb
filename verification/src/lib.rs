//! Hierarchical execution traces for recursive, combinator-style parsers.
//!
//! A [`tracer::Tracer`] owns a registry of named trace channels, a shared
//! buffer for silenced subtrees and the stack of silenced regions. It does
//! not run the parsers and does not print: a caller brackets each parser
//! with the two halves of the protocol and prints the lines it is handed.
//!
//! The contracts are stated over the views of the data: `Seq<char>` for
//! text, a `Map` from tag to trace for the registry. Two functions are
//! believed, not proved, because their bodies call into nom: the one that
//! classifies a nom result, and the one that writes a needed amount as nom
//! does.

pub mod ansi;
pub mod text;
pub mod events;
pub mod traces;
pub mod tags;
pub mod tracer;
pub mod laws;
pub mod shown;

use vstd::prelude::*;
use vstd::string::StringExecFns;
use crate::tracer::{Tracer, TracerView};

verus! {

/// The tag of the trace channel that always exists.
pub const DEFAULT_TAG: &'static str = "default";

/// What the error type of a traced parser has to offer: a `Debug` text,
/// which is what the trace shows of an error. Every type with `Debug` has
/// it.
pub trait TraceError<I>: core::fmt::Debug {

}

impl<I, E> TraceError<I> for E where E: core::fmt::Debug {

}

/// What is reported for a tag that has no trace.
pub open spec fn no_trace_text(tag: Seq<char>) -> Seq<char> {
    "No trace found for tag '"@ + tag + "'"@
}

/// What [`get_trace_for_tag`] returns: nothing where the tracer does not
/// record, the rendering of the trace of `tag` where it has one, and the
/// report that there is none otherwise.
pub open spec fn trace_report(tracer: TracerView, tag: Seq<char>) -> Seq<char> {
    if !tracer.features.trace {
        Seq::empty()
    } else if tracer.tags.contains_key(tag) {
        tracer.tags[tag].text()
    } else {
        no_trace_text(tag)
    }
}

/// The rendering of the trace of `tag`. A tag that was never used has no
/// trace: the text then says so. A tracer that does not record gives the
/// empty text.
pub fn get_trace_for_tag(tracer: &Tracer, tag: &'static str) -> (text: String)
    requires
        tracer.wf(),
    ensures
        text@ == trace_report(tracer@, tag@),
{
    if !tracer.features.trace {
        return String::new();
    }
    match tracer.tags.get_trace(tag) {
        Some(text) => text,
        None => {
            let mut text = String::from_str("No trace found for tag '");
            text.append(tag);
            text.append("'");
            text
        },
    }
}

} // verus!
