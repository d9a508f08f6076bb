//! The registry of trace channels: a trace for each tag, created on first
//! use.

use vstd::prelude::*;
use vstd::hash_map::StringHashMap;
use vstd::string::StringExecFns;
use crate::traces::{label_view, line_view, Outcome, Trace, TraceView};
use crate::DEFAULT_TAG;

verus! {

/// The trace that `tag` stands for in `traces`: its own, or a fresh one
/// where the tag was never used.
pub open spec fn entry(
    traces: Map<Seq<char>, TraceView>,
    tag: Seq<char>,
    color: bool,
) -> TraceView {
    if traces.contains_key(tag) {
        traces[tag]
    } else {
        TraceView::fresh(color)
    }
}

/// A set of traces, one for each tag.
///
/// The traces are kept in a vector; a hash map gives the position of each
/// tag's trace. The view is the map from tag to trace.
pub struct TraceTags {
    index: StringHashMap<usize>,
    traces: Vec<Trace>,
    color: bool,
}

impl View for TraceTags {
    type V = Map<Seq<char>, TraceView>;

    closed spec fn view(&self) -> Map<Seq<char>, TraceView> {
        Map::new(
            |tag: Seq<char>| self.index@.contains_key(tag),
            |tag: Seq<char>| self.traces[self.index@[tag] as int]@,
        )
    }
}

impl TraceTags {
    /// Every tag has a trace of its own, and the default tag is present.
    pub closed spec fn wf(&self) -> bool {
        &&& self.index@.contains_key(DEFAULT_TAG@)
        &&& forall|tag: Seq<char>| #[trigger]
            self.index@.contains_key(tag) ==> self.index@[tag] < self.traces.len()
        &&& forall|a: Seq<char>, b: Seq<char>|
            self.index@.contains_key(a) && self.index@.contains_key(b) && self.index@[a]
                == self.index@[b] ==> a == b
    }

    /// Whether traces created by this registry render with colors.
    pub closed spec fn colored(&self) -> bool {
        self.color
    }

    /// The trace that `tag` stands for: its own, or a fresh one.
    pub open spec fn entry(&self, tag: Seq<char>) -> TraceView {
        entry(self@, tag, self.colored())
    }

    /// A registry that holds an empty trace for the default tag and renders
    /// with or without colors.
    pub fn with_color(color: bool) -> (tags: TraceTags)
        ensures
            tags.wf(),
            tags.colored() == color,
            tags@ == Map::<Seq<char>, TraceView>::empty().insert(
                DEFAULT_TAG@,
                TraceView::fresh(color),
            ),
    {
        let mut index = StringHashMap::new();
        let mut traces = Vec::new();
        traces.push(Trace::new(color));
        index.insert(String::from_str(DEFAULT_TAG), 0);
        let tags = TraceTags { index, traces, color };
        assert(tags@ =~= Map::<Seq<char>, TraceView>::empty().insert(
            DEFAULT_TAG@,
            TraceView::fresh(color),
        ));
        tags
    }

    /// A registry without colors that holds an empty trace for the default
    /// tag.
    pub fn new() -> (tags: TraceTags)
        ensures
            tags.wf(),
            !tags.colored(),
            tags@ == Map::<Seq<char>, TraceView>::empty().insert(
                DEFAULT_TAG@,
                TraceView::fresh(false),
            ),
    {
        TraceTags::with_color(false)
    }

    /// The position of the trace of `tag`, which is created where the tag is
    /// new.
    fn slot(&mut self, tag: &'static str) -> (i: usize)
        requires
            old(self).wf(),
        ensures
            final(self).wf(),
            final(self).color == old(self).color,
            final(self)@ == old(self)@.insert(tag@, old(self).entry(tag@)),
            final(self).index@.contains_key(tag@),
            final(self).index@[tag@] == i,
            i < final(self).traces.len(),
            final(self).traces[i as int]@ == old(self).entry(tag@),
    {
        match self.index.get(tag) {
            Some(i) => {
                let i = *i;
                assert(self@ =~= old(self)@.insert(tag@, old(self).entry(tag@)));
                i
            },
            None => {
                let i = self.traces.len();
                self.traces.push(Trace::new(self.color));
                self.index.insert(String::from_str(tag), i);
                assert(self@ =~= old(self)@.insert(tag@, old(self).entry(tag@)));
                i
            },
        }
    }

    /// Replacing the trace of one tag changes the view at that tag only.
    proof fn lemma_replaced(pre: &TraceTags, post: &TraceTags, tag: Seq<char>, i: usize)
        requires
            pre.wf(),
            pre.index@.contains_key(tag),
            pre.index@[tag] == i,
            post.index@ == pre.index@,
            post.color == pre.color,
            post.traces@.len() == pre.traces@.len(),
            forall|j: int|
                0 <= j < pre.traces@.len() && j != i ==> post.traces@[j] == pre.traces@[j],
        ensures
            post.wf(),
            post@ == pre@.insert(tag, post.traces@[i as int]@),
    {
        assert(post@ =~= pre@.insert(tag, post.traces@[i as int]@));
    }

    /// Whether `tag` has a trace.
    pub fn contains_tag(&self, tag: &str) -> (b: bool)
        ensures
            b == self@.contains_key(tag@),
    {
        self.index.contains_key(tag)
    }

    /// The trace of `tag`, if it has one.
    pub fn trace(&self, tag: &str) -> (found: Option<&Trace>)
        requires
            self.wf(),
        ensures
            match found {
                Some(trace) => self@.contains_key(tag@) && trace@ == self@[tag@],
                None => !self@.contains_key(tag@),
            },
    {
        match self.index.get(tag) {
            Some(i) => Some(&self.traces[*i]),
            None => None,
        }
    }

    /// Empties the log of `tag` and sets its depth to zero; its settings
    /// stay. A new tag gets a trace first. No other tag changes.
    pub fn clear(&mut self, tag: &'static str)
        requires
            old(self).wf(),
        ensures
            final(self).wf(),
            final(self).colored() == old(self).colored(),
            final(self)@ == old(self)@.insert(tag@, old(self).entry(tag@).cleared()),
    {
        let i = self.slot(tag);
        let ghost mid = *self;
        self.traces[i].clear();
        proof {
            Self::lemma_replaced(&mid, self, tag@, i);
        }
    }

    /// The rendering of the trace of `tag`, if it has one.
    pub fn get_trace(&self, tag: &'static str) -> (text: Option<String>)
        requires
            self.wf(),
        ensures
            line_view(text) == if self@.contains_key(tag@) {
                Some(self@[tag@].text())
            } else {
                None
            },
    {
        match self.index.get(tag) {
            Some(i) => Some(self.traces[*i].to_string()),
            None => None,
        }
    }

    /// Makes the trace of `tag` record events. A new tag gets a trace first.
    pub fn activate(&mut self, tag: &'static str)
        requires
            old(self).wf(),
        ensures
            final(self).wf(),
            final(self).colored() == old(self).colored(),
            final(self)@ == old(self)@.insert(
                tag@,
                (TraceView { active: true, ..old(self).entry(tag@) }),
            ),
    {
        let i = self.slot(tag);
        let ghost mid = *self;
        self.traces[i].active = true;
        proof {
            Self::lemma_replaced(&mid, self, tag@, i);
        }
    }

    /// Makes the trace of `tag` ignore opens and closes; what it recorded
    /// stays. A new tag gets a trace first.
    pub fn deactivate(&mut self, tag: &'static str)
        requires
            old(self).wf(),
        ensures
            final(self).wf(),
            final(self).colored() == old(self).colored(),
            final(self)@ == old(self)@.insert(
                tag@,
                (TraceView { active: false, ..old(self).entry(tag@) }),
            ),
    {
        let i = self.slot(tag);
        let ghost mid = *self;
        self.traces[i].active = false;
        proof {
            Self::lemma_replaced(&mid, self, tag@, i);
        }
    }

    /// Makes the trace of `tag` hand out each event for printing as it is
    /// recorded. A new tag gets a trace first.
    pub fn activate_trace_print(&mut self, tag: &'static str)
        requires
            old(self).wf(),
        ensures
            final(self).wf(),
            final(self).colored() == old(self).colored(),
            final(self)@ == old(self)@.insert(
                tag@,
                (TraceView { print: true, ..old(self).entry(tag@) }),
            ),
    {
        let i = self.slot(tag);
        let ghost mid = *self;
        self.traces[i].print = true;
        proof {
            Self::lemma_replaced(&mid, self, tag@, i);
        }
    }

    /// Stops the trace of `tag` from handing out events for printing. A new
    /// tag gets a trace first.
    pub fn deactivate_trace_print(&mut self, tag: &'static str)
        requires
            old(self).wf(),
        ensures
            final(self).wf(),
            final(self).colored() == old(self).colored(),
            final(self)@ == old(self)@.insert(
                tag@,
                (TraceView { print: false, ..old(self).entry(tag@) }),
            ),
    {
        let i = self.slot(tag);
        let ghost mid = *self;
        self.traces[i].print = false;
        proof {
            Self::lemma_replaced(&mid, self, tag@, i);
        }
    }

    /// Sets or removes the depth at which the trace of `tag` refuses a
    /// further open. A new tag gets a trace first.
    pub fn panic_on_level(&mut self, tag: &'static str, level: Option<usize>)
        requires
            old(self).wf(),
        ensures
            final(self).wf(),
            final(self).colored() == old(self).colored(),
            final(self)@ == old(self)@.insert(
                tag@,
                (TraceView {
                    panic_on_level: match level {
                        Some(limit) => Some(limit as nat),
                        None => None,
                    },
                    ..old(self).entry(tag@)
                }),
            ),
    {
        let i = self.slot(tag);
        let ghost mid = *self;
        self.traces[i].panic_on_level = level;
        proof {
            Self::lemma_replaced(&mid, self, tag@, i);
        }
    }

    /// Whether [`TraceTags::open`] may be called for `tag`.
    pub fn open_allowed(&self, tag: &str) -> (b: bool)
        requires
            self.wf(),
        ensures
            b == self.entry(tag@).can_open(),
    {
        match self.index.get(tag) {
            Some(i) => self.traces[*i].open_allowed(),
            None => true,
        }
    }

    /// Whether a close may be called for `tag`.
    pub fn close_allowed(&self, tag: &str) -> (b: bool)
        requires
            self.wf(),
        ensures
            b == self.entry(tag@).accepts_close(),
    {
        match self.index.get(tag) {
            Some(i) => self.traces[*i].close_allowed(),
            None => false,
        }
    }

    /// Records an open in the trace of `tag`, which is created where the tag
    /// is new, and hands back the line to print, if any. No other tag
    /// changes.
    pub fn open(
        &mut self,
        tag: &'static str,
        context: Option<&'static str>,
        input: &str,
        location: &'static str,
        silent: bool,
    ) -> (line: Option<String>)
        requires
            old(self).wf(),
            old(self).entry(tag@).can_open(),
        ensures
            final(self).wf(),
            final(self).colored() == old(self).colored(),
            final(self)@ == old(self)@.insert(
                tag@,
                old(self).entry(tag@).opened(label_view(context), input@, location@),
            ),
            line_view(line) == old(self).entry(tag@).printed(
                old(self).entry(tag@).open_event(label_view(context), input@, location@),
                silent,
            ),
    {
        let i = self.slot(tag);
        let ghost mid = *self;
        let done = self.traces[i].open(context, input, location, silent);
        proof {
            Self::lemma_replaced(&mid, self, tag@, i);
        }
        done.line
    }

    /// Records a close with `outcome` in the trace of `tag` and hands back
    /// the line to print, if any. No other tag changes.
    pub fn close_outcome(
        &mut self,
        tag: &'static str,
        context: Option<&'static str>,
        input: &str,
        location: &'static str,
        outcome: Outcome,
        silent: bool,
    ) -> (line: Option<String>)
        requires
            old(self).wf(),
            old(self).entry(tag@).accepts_close(),
        ensures
            final(self).wf(),
            final(self).colored() == old(self).colored(),
            final(self)@ == old(self)@.insert(
                tag@,
                old(self).entry(tag@).closed(label_view(context), input@, location@, outcome@),
            ),
            line_view(line) == old(self).entry(tag@).printed(
                old(self).entry(tag@).close_event(
                    label_view(context),
                    input@,
                    location@,
                    outcome@,
                ),
                silent,
            ),
    {
        let i = self.slot(tag);
        let ghost mid = *self;
        let done = self.traces[i].close_outcome(context, input, location, outcome, silent);
        proof {
            Self::lemma_replaced(&mid, self, tag@, i);
        }
        done.line
    }

    /// Records a close with the result of a nom parser in the trace of
    /// `tag`. The recorded kind is a success exactly where `result` is `Ok`;
    /// the payload text is that of the payload's `Debug` impl. No other tag
    /// changes.
    pub fn close<I, O: core::fmt::Debug, E: core::fmt::Debug>(
        &mut self,
        tag: &'static str,
        context: Option<&'static str>,
        input: &str,
        location: &'static str,
        result: &nom::IResult<I, O, E>,
        silent: bool,
    ) -> (line: Option<String>)
        requires
            old(self).wf(),
            old(self).entry(tag@).accepts_close(),
        ensures
            final(self).wf(),
            final(self).colored() == old(self).colored(),
            final(self)@.contains_key(tag@),
            !old(self).entry(tag@).active ==> final(self)@ == old(self)@.insert(
                tag@,
                old(self).entry(tag@),
            ) && line is None,
            old(self).entry(tag@).active ==> {
                let kind = final(self)@[tag@].events.last().event;
                &&& !(kind is Open)
                &&& kind is CloseOk <==> result is Ok
                &&& final(self)@ == old(self)@.insert(
                    tag@,
                    old(self).entry(tag@).closed(label_view(context), input@, location@, kind),
                )
                &&& line_view(line) == old(self).entry(tag@).printed(
                    old(self).entry(tag@).close_event(
                        label_view(context),
                        input@,
                        location@,
                        kind,
                    ),
                    silent,
                )
            },
    {
        let i = self.slot(tag);
        let ghost mid = *self;
        let done = self.traces[i].close(context, input, location, result, silent);
        proof {
            Self::lemma_replaced(&mid, self, tag@, i);
        }
        done.line
    }

    /// The depth of the trace of `tag`; zero where the tag has no trace.
    pub fn level_for_tag(&self, tag: &'static str) -> (level: usize)
        requires
            self.wf(),
        ensures
            level == if self@.contains_key(tag@) {
                self@[tag@].level
            } else {
                0
            },
    {
        match self.index.get(tag) {
            Some(i) => self.traces[*i].level,
            None => 0,
        }
    }
}

} // verus!
