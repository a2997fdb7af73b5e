//! The retained message model: the message list, the streaming tail, the
//! scroll offset, the line cache (rendered at one width, invalidated on a
//! width change), and synthetic frame buffers. The render thread is its
//! only mutator.

use vstd::prelude::*;
use vstd::string::StringExecFns;
use crate::render::event::RenderEvent;
use crate::render::message::{blocks_view, ContentBlock, ContentView, MessageRef, MessageView};
use crate::render::projection::{lines_view, message_lines, render_message, FrameBuffer, LineView, RenderedLine};
use crate::render::stream::AssistantMessageEvent;
use crate::render::thread::LoopEvent;
use crate::vecs::reversed;

verus! {

/// The width the line cache starts at.
pub const INITIAL_WIDTH: u16 = 80;

/// Render-thread-owned state.
#[derive(Debug, PartialEq)]
pub struct RenderState {
    /// Set by a `Quit` event; the loop exits when true.
    pub quit: bool,
    messages: Vec<MessageRef>,
    streaming_index: Option<usize>,
    scroll_offset: usize,
    cached_lines: Vec<RenderedLine>,
    cached_width: u16,
    frame_buffers: Vec<FrameBuffer>,
    dirty: bool,
}

/// The model as data.
pub ghost struct RenderModel {
    pub quit: bool,
    pub messages: Seq<MessageView>,
    pub streaming_index: Option<usize>,
    pub scroll_offset: usize,
    pub cached_lines: Seq<LineView>,
    pub cached_width: u16,
    pub frame_buffers: Seq<FrameBuffer>,
    pub dirty: bool,
}

/// The views of a sequence of messages.
pub open spec fn messages_view(ms: Seq<MessageRef>) -> Seq<MessageView> {
    ms.map_values(|m: MessageRef| m@)
}

impl View for RenderState {
    type V = RenderModel;

    closed spec fn view(&self) -> RenderModel {
        RenderModel {
            quit: self.quit,
            messages: messages_view(self.messages@),
            streaming_index: self.streaming_index,
            scroll_offset: self.scroll_offset,
            cached_lines: lines_view(self.cached_lines@),
            cached_width: self.cached_width,
            frame_buffers: self.frame_buffers@,
            dirty: self.dirty,
        }
    }
}

/// A streaming delta appended to the in-flight message: when the streaming
/// message is an assistant message whose last block is text, the delta is
/// appended to that text; otherwise nothing changes.
pub open spec fn append_delta_spec(
    msgs: Seq<MessageView>,
    idx: Option<usize>,
    delta: Seq<char>,
) -> Seq<MessageView> {
    match idx {
        Some(i) => if i < msgs.len() {
            match msgs[i as int] {
                MessageView::Assistant { content, stop_reason, timestamp } => if content.len() > 0 {
                    match content.last() {
                        ContentView::Text { text } => msgs.update(
                            i as int,
                            MessageView::Assistant {
                                content: content.update(
                                    content.len() - 1,
                                    ContentView::Text { text: text + delta },
                                ),
                                stop_reason,
                                timestamp,
                            },
                        ),
                        _ => msgs,
                    }
                } else {
                    msgs
                },
                _ => msgs,
            }
        } else {
            msgs
        },
        None => msgs,
    }
}

/// The delta a streaming update carries, if it appends (text, thinking or
/// tool-call input).
pub open spec fn update_delta(ev: AssistantMessageEvent) -> Option<Seq<char>> {
    match ev {
        AssistantMessageEvent::TextDelta { delta, .. } => Some(delta@),
        AssistantMessageEvent::ThinkingDelta { delta, .. } => Some(delta@),
        AssistantMessageEvent::ToolCallDelta { delta, .. } => Some(delta@),
        _ => None,
    }
}

/// One event applied to the model, with whether it marks the state dirty.
/// `Quit` sets the quit flag and is not dirty; a resize to a new width
/// drops the line cache; every other event is dirty.
pub open spec fn apply_event(m: RenderModel, ev: RenderEvent) -> (RenderModel, bool) {
    match ev {
        RenderEvent::MessageUpdate { event, .. } => match update_delta(event) {
            Some(delta) => (
                RenderModel {
                    messages: append_delta_spec(m.messages, m.streaming_index, delta),
                    ..m
                },
                true,
            ),
            None => (m, true),
        },
        RenderEvent::MessageStart { message } => (
            RenderModel {
                messages: m.messages.push(message@),
                streaming_index: Some(m.messages.len() as usize),
                dirty: true,
                ..m
            },
            true,
        ),
        RenderEvent::MessageEnd { .. } => (RenderModel { streaming_index: None, ..m }, true),
        RenderEvent::Resize { cols, .. } => if cols != m.cached_width {
            (RenderModel { cached_width: cols, cached_lines: seq![], dirty: true, ..m }, true)
        } else {
            (m, true)
        },
        RenderEvent::Quit => (RenderModel { quit: true, ..m }, false),
        _ => (m, true),
    }
}

/// A batch of events applied in order, with whether any marked the state
/// dirty; a dirty batch leaves the model's dirty flag set.
pub open spec fn apply_events(m: RenderModel, evs: Seq<RenderEvent>) -> (RenderModel, bool)
    decreases evs.len(),
{
    if evs.len() == 0 {
        (m, false)
    } else {
        let (m1, d1) = apply_events(m, evs.drop_last());
        let (m2, d2) = apply_event(m1, evs.last());
        (m2, d1 || d2)
    }
}

/// A batch applied: the events in order; a dirty batch leaves the model's
/// dirty flag set. Returns the new model and whether the batch was dirty.
pub open spec fn apply_batch(m: RenderModel, evs: Seq<RenderEvent>) -> (RenderModel, bool) {
    let (m2, d) = apply_events(m, evs);
    if d {
        (RenderModel { dirty: true, ..m2 }, d)
    } else {
        (m2, d)
    }
}

/// A text delta streams onto the end of the in-flight text: when the
/// streaming message is an assistant message whose last block is the text
/// `t`, applying a text delta `d` makes that block `t` followed by `d` (the
/// old text is a prefix, the delta the rest); every other block and every
/// other message is kept, and the batch is dirty.
pub proof fn lemma_text_delta_appends(
    m: RenderModel,
    ev: RenderEvent,
    i: usize,
    content: Seq<ContentView>,
    t: Seq<char>,
)
    requires
        m.streaming_index == Some(i),
        i < m.messages.len(),
        m.messages[i as int] matches MessageView::Assistant { content: c, .. } && c == content,
        content.len() > 0,
        content.last() == (ContentView::Text { text: t }),
        ev matches RenderEvent::MessageUpdate { event: AssistantMessageEvent::TextDelta { .. }, .. },
    ensures
        ({
            let (m2, dirty) = apply_batch(m, seq![ev]);
            let d = match ev {
                RenderEvent::MessageUpdate {
                    event: AssistantMessageEvent::TextDelta { delta, .. },
                    ..
                } => delta@,
                _ => seq![],
            };
            &&& dirty
            &&& m2.messages.len() == m.messages.len()
            &&& forall|j: int| 0 <= j < m.messages.len() && j != i ==> m2.messages[j] == m.messages[j]
            &&& m2.messages[i as int] matches MessageView::Assistant { content: c2, .. } && {
                &&& c2.len() == content.len()
                &&& forall|k: int| 0 <= k < content.len() - 1 ==> c2[k] == content[k]
                &&& c2.last() matches ContentView::Text { text: t2 } && {
                    &&& t2.len() == t.len() + d.len()
                    &&& t2.take(t.len() as int) == t
                    &&& t2.skip(t.len() as int) == d
                }
            }
        }),
{
    let evs = seq![ev];
    assert(evs.drop_last() =~= Seq::<RenderEvent>::empty());
    let (m2, dirty) = apply_batch(m, evs);
    match m.messages[i as int] {
        MessageView::Assistant { content: c, stop_reason, timestamp } => {
            match ev {
                RenderEvent::MessageUpdate {
                    event: AssistantMessageEvent::TextDelta { delta, .. },
                    ..
                } => {
                    let t2 = t + delta@;
                    assert(t2.take(t.len() as int) =~= t);
                    assert(t2.skip(t.len() as int) =~= delta@);
                    assert(apply_events(m, evs.drop_last()) == (m, false));
                    let newc = c.update(c.len() - 1, ContentView::Text { text: t2 });
                    let msgs2 = m.messages.update(
                        i as int,
                        MessageView::Assistant { content: newc, stop_reason, timestamp },
                    );
                    assert(append_delta_spec(m.messages, m.streaming_index, delta@) == msgs2);
                    assert(apply_event(m, ev).0.messages == msgs2);
                    assert(apply_events(m, evs).0.messages == msgs2);
                    assert(m2.messages == msgs2);
                    assert(newc.last() == ContentView::Text { text: t2 });
                },
                _ => {},
            }
        },
        _ => {},
    }
}

/// The lines of all messages at a width, one message after another.
pub open spec fn all_lines(ms: Seq<MessageView>, width: int) -> Seq<LineView>
    decreases ms.len(),
{
    if ms.len() == 0 {
        seq![]
    } else {
        all_lines(ms.drop_last(), width) + message_lines(ms.last(), width)
    }
}

/// The state after rendering at `width`: unchanged if the cache is clean
/// at that width, otherwise the cache holds every message's lines at
/// `width` and is clean.
pub open spec fn render_at_width_spec(m: RenderModel, width: u16) -> RenderModel {
    if m.cached_width == width && !m.dirty {
        m
    } else {
        RenderModel {
            cached_width: width,
            cached_lines: all_lines(m.messages, width as int),
            dirty: false,
            ..m
        }
    }
}

/// The initial model: no messages, nothing streaming, scrolled to the top,
/// an empty cache at the initial width, dirty.
pub open spec fn initial_model() -> RenderModel {
    RenderModel {
        quit: false,
        messages: seq![],
        streaming_index: None,
        scroll_offset: 0,
        cached_lines: seq![],
        cached_width: INITIAL_WIDTH,
        frame_buffers: seq![],
        dirty: true,
    }
}

impl Default for RenderState {
    fn default() -> (r: Self)
        ensures
            r@ == initial_model(),
    {
        let r = Self {
            quit: false,
            messages: Vec::new(),
            streaming_index: None,
            scroll_offset: 0,
            cached_lines: Vec::new(),
            cached_width: INITIAL_WIDTH,
            frame_buffers: Vec::new(),
            dirty: true,
        };
        assert(r@.messages =~= Seq::<MessageView>::empty());
        assert(r@.cached_lines =~= Seq::<LineView>::empty());
        r
    }
}

impl RenderState {
    /// A state with the given cache width and cached lines, otherwise
    /// initial.
    pub fn with_cache(cached_width: u16, cached_lines: Vec<RenderedLine>) -> (r: Self)
        ensures
            r@ == (RenderModel {
                cached_width,
                cached_lines: lines_view(cached_lines@),
                ..initial_model()
            }),
    {
        let r = Self {
            quit: false,
            messages: Vec::new(),
            streaming_index: None,
            scroll_offset: 0,
            cached_lines,
            cached_width,
            frame_buffers: Vec::new(),
            dirty: true,
        };
        assert(r@.messages =~= Seq::<MessageView>::empty());
        r
    }

    /// Applies a batch of drained events in order. Returns whether the
    /// state changed (dirty), so an idle loop can skip a redraw. `Quit`
    /// sets the quit flag and is not dirty.
    pub fn apply(&mut self, events: &[RenderEvent]) -> (r: bool)
        requires
            old(self)@.messages.len() + events@.len() < usize::MAX,
        ensures
            final(self)@ == apply_batch(old(self)@, events@).0,
            r == apply_batch(old(self)@, events@).1,
    {
        let ghost start = self@;
        let mut dirty = false;
        let mut i: usize = 0;
        assert(events@.take(0) =~= Seq::<RenderEvent>::empty());
        while i < events.len()
            invariant
                i <= events.len(),
                start.messages.len() + events@.len() < usize::MAX,
                self@.messages.len() <= start.messages.len() + i,
                (self@, dirty) == apply_events(start, events@.take(i as int)),
            decreases events.len() - i,
        {
            assert(events@.take(i + 1).drop_last() =~= events@.take(i as int));
            assert(events@.take(i + 1).last() == events@[i as int]);
            let ghost before = self@;
            match &events[i] {
                RenderEvent::MessageUpdate { event, .. } => match event {
                    AssistantMessageEvent::TextDelta { delta, .. } => {
                        self.append_delta(delta.as_str());
                        dirty = true;
                    },
                    AssistantMessageEvent::ThinkingDelta { delta, .. } => {
                        self.append_delta(delta.as_str());
                        dirty = true;
                    },
                    AssistantMessageEvent::ToolCallDelta { delta, .. } => {
                        self.append_delta(delta.as_str());
                        dirty = true;
                    },
                    _ => {
                        dirty = true;
                    },
                },
                RenderEvent::MessageStart { message } => {
                    self.push_message(message.clone());
                    dirty = true;
                },
                RenderEvent::MessageEnd { .. } => {
                    self.streaming_index = None;
                    dirty = true;
                },
                RenderEvent::Resize { cols, .. } => {
                    if *cols != self.cached_width {
                        self.cached_width = *cols;
                        self.cached_lines = Vec::new();
                        self.dirty = true;
                        assert(self@.cached_lines =~= Seq::<LineView>::empty());
                    }
                    dirty = true;
                },
                RenderEvent::Quit => {
                    self.quit = true;
                },
                _ => {
                    dirty = true;
                },
            }
            i = i + 1;
        }
        assert(events@.take(events.len() as int) =~= events@);
        if dirty {
            self.dirty = true;
        }
        dirty
    }

    /// Appends a streaming delta to the in-flight message's last text block.
    fn append_delta(&mut self, delta: &str)
        ensures
            final(self)@ == (RenderModel {
                messages: append_delta_spec(old(self)@.messages, old(self)@.streaming_index, delta@),
                ..old(self)@
            }),
    {
        if let Some(idx) = self.streaming_index {
            if idx < self.messages.len() {
                let ghost msgs = self@.messages;
                let ghost old_msg = self.messages@[idx as int];
                match &mut self.messages[idx] {
                    MessageRef::Assistant { content, .. } => {
                        let n = content.len();
                        if n > 0 {
                            let ghost old_content = content@;
                            match &mut content[n - 1] {
                                ContentBlock::Text { text } => {
                                    text.append(delta);
                                },
                                _ => {},
                            }
                            proof {
                                match old_content[n - 1] {
                                    ContentBlock::Text { text } => {
                                        assert(blocks_view(content@) =~= blocks_view(
                                            old_content,
                                        ).update(
                                            n - 1,
                                            ContentView::Text { text: text@ + delta@ },
                                        ));
                                    },
                                    _ => {
                                        assert(content@ =~= old_content);
                                    },
                                }
                            }
                        }
                    },
                    _ => {},
                }
                proof {
                    let new_msg = self.messages@[idx as int];
                    assert(messages_view(self.messages@) =~= msgs.update(idx as int, new_msg@));
                }
                assert(self@.messages =~= append_delta_spec(msgs, Some(idx), delta@));
            }
        }
    }

    /// Pushes a message; it becomes the streaming message.
    pub fn push_message(&mut self, msg: MessageRef)
        requires
            old(self)@.messages.len() < usize::MAX,
        ensures
            final(self)@ == (RenderModel {
                messages: old(self)@.messages.push(msg@),
                streaming_index: Some(old(self)@.messages.len() as usize),
                dirty: true,
                ..old(self)@
            }),
    {
        let ghost before = self@.messages;
        self.messages.push(msg);
        self.streaming_index = Some(self.messages.len() - 1);
        self.dirty = true;
        assert(self@.messages =~= before.push(msg@));
    }

    /// Adds a synthetic frame buffer.
    pub fn add_frame_buffer(&mut self, fb: FrameBuffer)
        ensures
            final(self)@ == (RenderModel {
                frame_buffers: old(self)@.frame_buffers.push(fb),
                dirty: true,
                ..old(self)@
            }),
    {
        self.frame_buffers.push(fb);
        self.dirty = true;
    }

    /// Pins the scroll offset to the tail: the last `viewport_height` lines
    /// are visible.
    pub fn recompute_scroll(&mut self, viewport_height: usize)
        ensures
            final(self)@ == (RenderModel {
                scroll_offset: (if old(self)@.cached_lines.len() > viewport_height {
                    old(self)@.cached_lines.len() - viewport_height
                } else {
                    0
                }) as usize,
                ..old(self)@
            }),
    {
        let total = self.cached_lines.len();
        self.scroll_offset = if total > viewport_height {
            total - viewport_height
        } else {
            0
        };
    }

    /// Renders every message at `width` into the line cache, unless the
    /// cache is already clean at that width.
    pub fn render_at_width(&mut self, width: u16)
        ensures
            final(self)@ == render_at_width_spec(old(self)@, width),
    {
        if self.cached_width == width && !self.dirty {
            return;
        }
        self.cached_width = width;
        let mut lines: Vec<RenderedLine> = Vec::new();
        let ghost ms = self@.messages;
        let mut i: usize = 0;
        assert(lines_view(lines@) =~= all_lines(ms.take(0), width as int));
        while i < self.messages.len()
            invariant
                i <= self.messages.len(),
                ms == messages_view(self.messages@),
                lines_view(lines@) == all_lines(ms.take(i as int), width as int),
            decreases self.messages.len() - i,
        {
            let mut more = render_message(&self.messages[i], width);
            let ghost prev = lines_view(lines@);
            let ghost add = lines_view(more@);
            lines.append(&mut more);
            assert(lines_view(lines@) =~= prev + add);
            assert(ms.take(i + 1).drop_last() =~= ms.take(i as int));
            assert(ms.take(i + 1).last() == ms[i as int]);
            i = i + 1;
        }
        assert(ms.take(self.messages.len() as int) =~= ms);
        self.cached_lines = lines;
        self.dirty = false;
    }

    /// The messages.
    pub fn messages(&self) -> (r: &[MessageRef])
        ensures
            messages_view(r@) == self@.messages,
    {
        self.messages.as_slice()
    }

    /// The scroll offset (the first visible line).
    pub fn scroll_offset(&self) -> (r: usize)
        ensures
            r == self@.scroll_offset,
    {
        self.scroll_offset
    }

    /// The cached rendered lines.
    pub fn rendered_lines(&self) -> (r: &[RenderedLine])
        ensures
            lines_view(r@) == self@.cached_lines,
    {
        self.cached_lines.as_slice()
    }

    /// The synthetic frame buffers.
    pub fn frame_buffers(&self) -> (r: &[FrameBuffer])
        ensures
            r@ == self@.frame_buffers,
    {
        self.frame_buffers.as_slice()
    }

    /// The width the line cache was rendered at.
    pub fn cached_width(&self) -> (r: u16)
        ensures
            r == self@.cached_width,
    {
        self.cached_width
    }

    /// Whether the state changed since the last render.
    pub fn is_dirty(&self) -> (r: bool)
        ensures
            r == self@.dirty,
    {
        self.dirty
    }
}

/// The render events of a channel batch, in order.
pub open spec fn render_events_of(evs: Seq<LoopEvent>) -> Seq<RenderEvent>
    decreases evs.len(),
{
    if evs.len() == 0 {
        seq![]
    } else {
        let rest = render_events_of(evs.drop_last());
        match evs.last() {
            LoopEvent::Render(e) => rest.push(e),
            LoopEvent::Input(_) => rest,
        }
    }
}

/// Whether a channel batch holds quit input.
pub open spec fn input_quit_in(evs: Seq<LoopEvent>) -> bool {
    exists|i: int| 0 <= i < evs.len() && #[trigger] evs[i] is Input
}

/// One turn of the render loop, as data: the batch's render events
/// applied; the quit flag set by quit input or by the shared quit flag.
/// Gives the new model and whether to draw.
pub open spec fn loop_step_spec(m: RenderModel, evs: Seq<LoopEvent>, quit_flag: bool) -> (RenderModel, bool) {
    let (m2, dirty) = apply_batch(m, render_events_of(evs));
    if input_quit_in(evs) || quit_flag {
        (RenderModel { quit: true, ..m2 }, dirty)
    } else {
        (m2, dirty)
    }
}

proof fn lemma_render_events_len(evs: Seq<LoopEvent>)
    ensures
        render_events_of(evs).len() <= evs.len(),
    decreases evs.len(),
{
    if evs.len() > 0 {
        lemma_render_events_len(evs.drop_last());
    }
}

impl RenderState {
    /// One turn of the render loop on a drained channel batch: the render
    /// events are applied in order, and quit input or the shared quit
    /// flag sets the quit flag. Returns whether the state is dirty, i.e.
    /// whether to draw.
    pub fn step(&mut self, events: Vec<LoopEvent>, quit_flag: bool) -> (draw: bool)
        requires
            old(self)@.messages.len() + events@.len() < usize::MAX,
        ensures
            (final(self)@, draw) == loop_step_spec(old(self)@, events@, quit_flag),
    {
        let ghost evs = events@;
        let n = events.len();
        let mut rev = reversed(events);
        let mut render: Vec<RenderEvent> = Vec::new();
        let mut input_quit = false;
        let mut k: usize = 0;
        assert(evs.skip(0) =~= evs);
        assert(evs.take(0) =~= Seq::<LoopEvent>::empty());
        while rev.len() > 0
            invariant
                n == evs.len(),
                k + rev@.len() == n,
                rev@ == evs.skip(k as int).reverse(),
                render@ == render_events_of(evs.take(k as int)),
                input_quit == exists|j: int| 0 <= j < k && #[trigger] evs[j] is Input,
            decreases rev@.len(),
        {
            let e = rev.pop().unwrap();
            assert(evs.skip(k as int).reverse().last() == evs[k as int]);
            assert(rev@ =~= evs.skip(k + 1).reverse());
            assert(evs.take(k + 1).drop_last() =~= evs.take(k as int));
            assert(evs.take(k + 1).last() == evs[k as int]);
            match e {
                LoopEvent::Render(re) => {
                    render.push(re);
                },
                LoopEvent::Input(_) => {
                    input_quit = true;
                },
            }
            k = k + 1;
        }
        assert(evs.take(n as int) =~= evs);
        proof {
            lemma_render_events_len(evs);
        }
        let dirty = self.apply(render.as_slice());
        if input_quit || quit_flag {
            self.quit = true;
        }
        dirty
    }
}

} // verus!
