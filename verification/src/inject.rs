//! Text injection: the clipboard bridge and the key-event simulator.
//!
//! Injected text travels through the system clipboard: the bridge snapshots
//! the clipboard, writes the caller's text, the simulator sends the paste
//! shortcut, and after a settle delay the snapshot is restored.  Every
//! clipboard-touching request is serialized through a single-owner queue, so
//! overlapping requests can never interleave on the shared clipboard.
//!
//! The module decides the exact sequence of steps as plain values; the
//! unverified shell performs them against the operating system with the
//! prescribed delays.

use vstd::prelude::*;
use crate::panel::PanelController;

verus! {

/// Delay after each synthetic key event, in milliseconds.
pub const INTER_EVENT_DELAY_MS: u64 = 20;

/// Delay after hiding the panel, so keyboard focus settles back on the
/// externally focused application before synthetic keys are sent.
pub const FOCUS_SETTLE_DELAY_MS: u64 = 20;

/// Delay after the paste shortcut, so the target application consumes the
/// pasted content before the clipboard is restored.
pub const PASTE_SETTLE_DELAY_MS: u64 = 400;

/// The keys the simulator ever presses.
#[derive(Clone, Copy, PartialEq, Eq, Structural, Debug)]
pub enum Key {
    MetaLeft,
    ControlLeft,
    KeyV,
    RightArrow,
    Return,
}

/// A synthetic key event: a key going down or coming back up.
#[derive(Clone, Copy, PartialEq, Eq, Structural, Debug)]
pub enum KeyEvent {
    Down(Key),
    Up(Key),
}

/// The platform the paste shortcut targets.
#[derive(Clone, Copy, PartialEq, Eq, Structural, Debug)]
pub enum Platform {
    MacOs,
    Windows,
}

/// The paste shortcut's modifier key on the given platform.
pub open spec fn spec_paste_modifier(p: Platform) -> Key {
    match p {
        Platform::MacOs => Key::MetaLeft,
        Platform::Windows => Key::ControlLeft,
    }
}

/// One step of an injection, to be performed in order by the shell.
#[derive(PartialEq, Eq, Debug)]
pub enum Step {
    /// Hide the overlay panel so focus returns to the target application.
    HidePanel,
    /// Sleep for the given number of milliseconds.
    Settle(u64),
    /// Read the clipboard and keep it as the restore point; an unreadable
    /// clipboard counts as empty.
    SnapshotClipboard,
    /// Write the given text to the clipboard.
    WriteClipboard(String),
    /// Dispatch one synthetic key event, then wait the inter-event delay.
    SendKey(KeyEvent),
    /// Write the kept snapshot back to the clipboard.
    RestoreClipboard,
}

/// The specification-level mirror of `Step`.
pub enum SpecStep {
    HidePanel,
    Settle(u64),
    SnapshotClipboard,
    WriteClipboard(Seq<char>),
    SendKey(KeyEvent),
    RestoreClipboard,
}

impl View for Step {
    type V = SpecStep;

    open spec fn view(&self) -> SpecStep {
        match self {
            Step::HidePanel => SpecStep::HidePanel,
            Step::Settle(ms) => SpecStep::Settle(*ms),
            Step::SnapshotClipboard => SpecStep::SnapshotClipboard,
            Step::WriteClipboard(t) => SpecStep::WriteClipboard(t@),
            Step::SendKey(e) => SpecStep::SendKey(*e),
            Step::RestoreClipboard => SpecStep::RestoreClipboard,
        }
    }
}

/// The steps of a sequence, as specification values.
pub open spec fn steps_view(steps: Seq<Step>) -> Seq<SpecStep> {
    steps.map(|i: int, s: Step| s@)
}

/// A logical key press: the key goes down, then comes back up.
pub open spec fn spec_key_press(k: Key) -> Seq<KeyEvent> {
    seq![KeyEvent::Down(k), KeyEvent::Up(k)]
}

/// The platform paste shortcut: modifier down, letter down, letter up,
/// modifier up.
pub open spec fn spec_paste_shortcut(p: Platform) -> Seq<KeyEvent> {
    seq![
        KeyEvent::Down(spec_paste_modifier(p)),
        KeyEvent::Down(Key::KeyV),
        KeyEvent::Up(Key::KeyV),
        KeyEvent::Up(spec_paste_modifier(p)),
    ]
}

/// The short sequence sent before an insert, meant to dismiss any inline
/// suggestion and open a fresh line: right-arrow, return, return.
pub open spec fn spec_insert_preamble() -> Seq<KeyEvent> {
    spec_key_press(Key::RightArrow) + spec_key_press(Key::Return) + spec_key_press(Key::Return)
}

/// A clipboard-touching request, queued in arrival order.
pub enum Request {
    /// Paste the text on a fresh line at the focused element.
    Insert(String),
    /// Paste the text over the focused element's selection.
    Replace(String),
    /// Plainly set the clipboard to the text, with no restore.
    Copy(String),
}

/// The specification-level mirror of `Request`.
pub enum SpecRequest {
    Insert(Seq<char>),
    Replace(Seq<char>),
    Copy(Seq<char>),
}

impl View for Request {
    type V = SpecRequest;

    open spec fn view(&self) -> SpecRequest {
        match self {
            Request::Insert(t) => SpecRequest::Insert(t@),
            Request::Replace(t) => SpecRequest::Replace(t@),
            Request::Copy(t) => SpecRequest::Copy(t@),
        }
    }
}

/// The key events a request sends: the paste shortcut, with the fresh-line
/// preamble first for an insert, and none at all for a plain copy.
pub open spec fn spec_request_events(r: SpecRequest, p: Platform) -> Seq<KeyEvent> {
    match r {
        SpecRequest::Insert(_) => spec_insert_preamble() + spec_paste_shortcut(p),
        SpecRequest::Replace(_) => spec_paste_shortcut(p),
        SpecRequest::Copy(_) => Seq::<KeyEvent>::empty(),
    }
}

/// Key events wrapped as send steps.
pub open spec fn spec_send_steps(es: Seq<KeyEvent>) -> Seq<SpecStep> {
    es.map(|i: int, e: KeyEvent| SpecStep::SendKey(e))
}

/// The full step sequence of one request.
///
/// A plain copy is a single clipboard write.  An insert or replace first
/// hides the panel if it is visible and lets focus settle, then snapshots
/// the clipboard, writes the text, sends its key events, waits the longer
/// settle delay, and restores the snapshot.
pub open spec fn spec_request_steps(r: SpecRequest, panel_visible: bool, p: Platform) -> Seq<
    SpecStep,
> {
    match r {
        SpecRequest::Copy(t) => seq![SpecStep::WriteClipboard(t)],
        SpecRequest::Insert(t) => spec_injection_wrap(t, spec_request_events(r, p), panel_visible),
        SpecRequest::Replace(t) => spec_injection_wrap(t, spec_request_events(r, p), panel_visible),
    }
}

/// Hide-settle prefix, snapshot, write, key events, settle, restore.
pub open spec fn spec_injection_wrap(text: Seq<char>, es: Seq<KeyEvent>, panel_visible: bool) -> Seq<
    SpecStep,
> {
    spec_hide_prefix(panel_visible) + seq![
        SpecStep::SnapshotClipboard,
        SpecStep::WriteClipboard(text),
    ] + spec_send_steps(es) + seq![
        SpecStep::Settle(PASTE_SETTLE_DELAY_MS),
        SpecStep::RestoreClipboard,
    ]
}

/// The hide-and-settle prefix, present only when the panel is visible.
pub open spec fn spec_hide_prefix(panel_visible: bool) -> Seq<SpecStep> {
    if panel_visible {
        seq![SpecStep::HidePanel, SpecStep::Settle(FOCUS_SETTLE_DELAY_MS)]
    } else {
        Seq::<SpecStep>::empty()
    }
}

/// What one step does to the clipboard and to the kept snapshot.
pub open spec fn spec_step_post(c: Seq<char>, sn: Option<Seq<char>>, s: SpecStep) -> (Seq<char>,
    Option<Seq<char>>) {
    match s {
        SpecStep::SnapshotClipboard => (c, Some(c)),
        SpecStep::WriteClipboard(t) => (t, sn),
        SpecStep::RestoreClipboard => (
            match sn {
                Some(kept) => kept,
                None => Seq::<char>::empty(),
            },
            None,
        ),
        _ => (c, sn),
    }
}

/// The clipboard and snapshot after running the steps in order.
pub open spec fn spec_run(c: Seq<char>, sn: Option<Seq<char>>, steps: Seq<SpecStep>) -> (Seq<char>,
    Option<Seq<char>>)
    decreases steps.len(),
{
    if steps.len() == 0 {
        (c, sn)
    } else {
        let post = spec_step_post(c, sn, steps[0]);
        spec_run(post.0, post.1, steps.drop_first())
    }
}

/// The system clipboard as the injection logic sees it: its current content
/// and the snapshot owned by the in-flight request, if any.
pub struct ClipboardBridge {
    content: String,
    snapshot: Option<String>,
}

impl ClipboardBridge {
    pub closed spec fn spec_content(&self) -> Seq<char> {
        self.content@
    }

    pub closed spec fn spec_snapshot(&self) -> Option<Seq<char>> {
        match self.snapshot {
            Some(s) => Some(s@),
            None => None,
        }
    }

    /// A bridge over a clipboard currently holding `content`, with no
    /// injection in flight.
    pub fn new(content: String) -> (b: ClipboardBridge)
        ensures
            b.spec_content() == content@,
            b.spec_snapshot() is None,
    {
        ClipboardBridge { content, snapshot: None }
    }

    /// The clipboard's current content; an unreadable clipboard is handed to
    /// the bridge as empty by the shell.
    pub fn get_text_from_clipboard(&self) -> (t: String)
        ensures
            t@ == self.spec_content(),
    {
        self.content.clone()
    }

    /// Performs one step's clipboard effect.  Hide, settle and key steps do
    /// not touch the clipboard.
    pub fn apply_step(&mut self, step: &Step)
        ensures
            (final(self).spec_content(), final(self).spec_snapshot()) == spec_step_post(
                old(self).spec_content(),
                old(self).spec_snapshot(),
                step@,
            ),
    {
        match step {
            Step::SnapshotClipboard => {
                self.snapshot = Some(self.content.clone());
            },
            Step::WriteClipboard(t) => {
                self.content = t.clone();
            },
            Step::RestoreClipboard => {
                let mut kept: Option<String> = None;
                core::mem::swap(&mut kept, &mut self.snapshot);
                match kept {
                    Some(s) => {
                        self.content = s;
                    },
                    None => {
                        self.content = String::new();
                    },
                }
            },
            _ => {},
        }
    }
}

/// Whether a step reads or writes the clipboard.
pub open spec fn touches_clipboard(s: SpecStep) -> bool {
    match s {
        SpecStep::SnapshotClipboard => true,
        SpecStep::WriteClipboard(_) => true,
        SpecStep::RestoreClipboard => true,
        _ => false,
    }
}

/// Running one more step is applying it to the run's result.
pub proof fn lemma_run_push(c: Seq<char>, sn: Option<Seq<char>>, steps: Seq<SpecStep>, s: SpecStep)
    ensures
        spec_run(c, sn, steps.push(s)) == spec_step_post(
            spec_run(c, sn, steps).0,
            spec_run(c, sn, steps).1,
            s,
        ),
    decreases steps.len(),
{
    if steps.len() == 0 {
        let post = spec_step_post(c, sn, s);
        assert(steps.push(s)[0] == s);
        assert(steps.push(s).drop_first() =~= Seq::<SpecStep>::empty());
        assert(spec_run(post.0, post.1, steps.push(s).drop_first()) == post);
        assert(spec_run(c, sn, steps.push(s)) == post);
    } else {
        let post = spec_step_post(c, sn, steps[0]);
        assert(steps.push(s)[0] == steps[0]);
        assert(steps.push(s).drop_first() =~= steps.drop_first().push(s));
        lemma_run_push(post.0, post.1, steps.drop_first(), s);
        assert(spec_run(c, sn, steps.push(s)) == spec_run(
            post.0,
            post.1,
            steps.drop_first().push(s),
        ));
        assert(spec_run(c, sn, steps) == spec_run(post.0, post.1, steps.drop_first()));
    }
}

/// A run splits over concatenation.
pub proof fn lemma_run_concat(
    c: Seq<char>,
    sn: Option<Seq<char>>,
    a: Seq<SpecStep>,
    b: Seq<SpecStep>,
)
    ensures
        spec_run(c, sn, a + b) == spec_run(spec_run(c, sn, a).0, spec_run(c, sn, a).1, b),
    decreases a.len(),
{
    if a.len() == 0 {
        assert(a + b =~= b);
    } else {
        let post = spec_step_post(c, sn, a[0]);
        assert((a + b)[0] == a[0]);
        assert((a + b).drop_first() =~= a.drop_first() + b);
        lemma_run_concat(post.0, post.1, a.drop_first(), b);
    }
}

/// Steps that do not touch the clipboard leave it and the snapshot alone.
pub proof fn lemma_run_untouched(c: Seq<char>, sn: Option<Seq<char>>, steps: Seq<SpecStep>)
    requires
        forall|i: int| 0 <= i < steps.len() ==> !touches_clipboard(steps[i]),
    ensures
        spec_run(c, sn, steps) == (c, sn),
    decreases steps.len(),
{
    if steps.len() > 0 {
        assert(!touches_clipboard(steps[0]));
        assert(spec_step_post(c, sn, steps[0]) == (c, sn));
        assert(forall|i: int|
            0 <= i < steps.drop_first().len() ==> !touches_clipboard(
                #[trigger] steps.drop_first()[i],
            ));
        lemma_run_untouched(c, sn, steps.drop_first());
    }
}

/// The text a request carries.
pub open spec fn spec_request_text(r: SpecRequest) -> Seq<char> {
    match r {
        SpecRequest::Insert(t) => t,
        SpecRequest::Replace(t) => t,
        SpecRequest::Copy(t) => t,
    }
}

/// Clipboard round trip for one injection: starting from clipboard content
/// `c` with no snapshot in flight, the clipboard holds the injected text
/// immediately after the write step, and holds `c` again once the full
/// sequence, settle delay included, has run; the snapshot is consumed.
pub proof fn lemma_injection_round_trip(
    text: Seq<char>,
    es: Seq<KeyEvent>,
    visible: bool,
    c: Seq<char>,
)
    ensures
        spec_run(c, None, spec_injection_wrap(text, es, visible)).0 == c,
        spec_run(c, None, spec_injection_wrap(text, es, visible)).1 is None,
        spec_run(
            c,
            None,
            spec_injection_wrap(text, es, visible).take(spec_hide_prefix(visible).len() as int + 2),
        ).0 == text,
{
    let pre = spec_hide_prefix(visible);
    let sw = seq![SpecStep::SnapshotClipboard, SpecStep::WriteClipboard(text)];
    let mid = spec_send_steps(es);
    let tail = seq![SpecStep::Settle(PASTE_SETTLE_DELAY_MS), SpecStep::RestoreClipboard];
    let plan = spec_injection_wrap(text, es, visible);
    assert(plan == pre + sw + mid + tail);

    assert(forall|i: int| 0 <= i < pre.len() ==> !touches_clipboard(pre[i]));
    lemma_run_untouched(c, None, pre);

    // pre, then snapshot and write: clipboard == text, snapshot == c
    assert(pre + sw =~= pre.push(SpecStep::SnapshotClipboard).push(SpecStep::WriteClipboard(text)));
    lemma_run_push(c, None, pre, SpecStep::SnapshotClipboard);
    lemma_run_push(c, None, pre.push(SpecStep::SnapshotClipboard), SpecStep::WriteClipboard(text));
    assert(spec_run(c, None, pre + sw) == (text, Some(c)));

    // the key events do not touch the clipboard
    assert(forall|i: int| 0 <= i < mid.len() ==> !touches_clipboard(mid[i]));
    lemma_run_concat(c, None, pre + sw, mid);
    lemma_run_untouched(text, Some(c), mid);
    assert(spec_run(c, None, (pre + sw) + mid) == (text, Some(c)));

    // settle, then restore: clipboard == c again, snapshot consumed
    assert(((pre + sw) + mid) + tail =~= ((pre + sw) + mid).push(
        SpecStep::Settle(PASTE_SETTLE_DELAY_MS),
    ).push(SpecStep::RestoreClipboard));
    lemma_run_push(c, None, (pre + sw) + mid, SpecStep::Settle(PASTE_SETTLE_DELAY_MS));
    lemma_run_push(
        c,
        None,
        ((pre + sw) + mid).push(SpecStep::Settle(PASTE_SETTLE_DELAY_MS)),
        SpecStep::RestoreClipboard,
    );
    assert(plan =~= ((pre + sw) + mid).push(SpecStep::Settle(PASTE_SETTLE_DELAY_MS)).push(
        SpecStep::RestoreClipboard,
    ));

    // the prefix through the write step leaves the clipboard holding the text
    assert(plan.take(pre.len() as int + 2) =~= pre + sw);
}

/// Clipboard round trip for a queued insert or replace request.
pub proof fn lemma_request_round_trip(r: SpecRequest, visible: bool, p: Platform, c: Seq<char>)
    requires
        !(r is Copy),
    ensures
        spec_run(c, None, spec_request_steps(r, visible, p)).0 == c,
        spec_run(c, None, spec_request_steps(r, visible, p)).1 is None,
        spec_run(
            c,
            None,
            spec_request_steps(r, visible, p).take(spec_hide_prefix(visible).len() as int + 2),
        ).0 == spec_request_text(r),
{
    match r {
        SpecRequest::Insert(t) => {
            lemma_injection_round_trip(t, spec_request_events(r, p), visible, c);
        },
        SpecRequest::Replace(t) => {
            lemma_injection_round_trip(t, spec_request_events(r, p), visible, c);
        },
        SpecRequest::Copy(_) => {},
    }
}

/// The panel's visibility after a request has run: an insert or replace
/// always leaves the panel hidden; a plain copy leaves it alone.
pub open spec fn spec_next_visible(r: SpecRequest, visible: bool) -> bool {
    match r {
        SpecRequest::Copy(_) => visible,
        _ => false,
    }
}

/// The steps of a whole batch of requests, run strictly in arrival order.
pub open spec fn spec_queue_trace(reqs: Seq<SpecRequest>, visible: bool, p: Platform) -> Seq<
    SpecStep,
>
    decreases reqs.len(),
{
    if reqs.len() == 0 {
        Seq::<SpecStep>::empty()
    } else {
        spec_request_steps(reqs[0], visible, p) + spec_queue_trace(
            reqs.drop_first(),
            spec_next_visible(reqs[0], visible),
            p,
        )
    }
}

/// Serialization law: a batch of insert and replace requests, run one after
/// the other through the single-owner queue, never interleaves on the
/// clipboard, and the clipboard ends exactly as it started.
pub proof fn lemma_serialized_round_trip(
    reqs: Seq<SpecRequest>,
    visible: bool,
    p: Platform,
    c: Seq<char>,
)
    requires
        forall|i: int| 0 <= i < reqs.len() ==> !((#[trigger] reqs[i]) is Copy),
    ensures
        spec_run(c, None, spec_queue_trace(reqs, visible, p)).0 == c,
        spec_run(c, None, spec_queue_trace(reqs, visible, p)).1 is None,
    decreases reqs.len(),
{
    if reqs.len() > 0 {
        let head = spec_request_steps(reqs[0], visible, p);
        let rest = spec_queue_trace(reqs.drop_first(), spec_next_visible(reqs[0], visible), p);
        lemma_request_round_trip(reqs[0], visible, p, c);
        lemma_run_concat(c, None, head, rest);
        assert(forall|i: int|
            0 <= i < reqs.drop_first().len() ==> !((#[trigger] reqs.drop_first()[i]) is Copy));
        lemma_serialized_round_trip(
            reqs.drop_first(),
            spec_next_visible(reqs[0], visible),
            p,
            c,
        );
    }
}

/// The paste shortcut's modifier key.
pub fn paste_modifier(p: Platform) -> (k: Key)
    ensures
        k == spec_paste_modifier(p),
{
    match p {
        Platform::MacOs => Key::MetaLeft,
        Platform::Windows => Key::ControlLeft,
    }
}

/// The paste shortcut as concrete events.
pub fn paste_text(p: Platform) -> (es: Vec<KeyEvent>)
    ensures
        es@ == spec_paste_shortcut(p),
{
    let modifier = paste_modifier(p);
    let mut es: Vec<KeyEvent> = Vec::new();
    es.push(KeyEvent::Down(modifier));
    es.push(KeyEvent::Down(Key::KeyV));
    es.push(KeyEvent::Up(Key::KeyV));
    es.push(KeyEvent::Up(modifier));
    assert(es@ =~= spec_paste_shortcut(p));
    es
}

/// The key events of one request.
pub fn request_events(r: &Request, p: Platform) -> (es: Vec<KeyEvent>)
    ensures
        es@ == spec_request_events(r@, p),
{
    match r {
        Request::Insert(_) => {
            let mut es: Vec<KeyEvent> = Vec::new();
            es.push(KeyEvent::Down(Key::RightArrow));
            es.push(KeyEvent::Up(Key::RightArrow));
            es.push(KeyEvent::Down(Key::Return));
            es.push(KeyEvent::Up(Key::Return));
            es.push(KeyEvent::Down(Key::Return));
            es.push(KeyEvent::Up(Key::Return));
            let mut shortcut = paste_text(p);
            es.append(&mut shortcut);
            assert(es@ =~= spec_request_events(r@, p));
            es
        },
        Request::Replace(_) => paste_text(p),
        Request::Copy(_) => Vec::new(),
    }
}

/// The full step sequence of one request, as concrete steps.
pub fn build_request_steps(r: &Request, visible: bool, p: Platform) -> (v: Vec<Step>)
    ensures
        steps_view(v@) == spec_request_steps(r@, visible, p),
{
    match r {
        Request::Copy(t) => {
            let mut v: Vec<Step> = Vec::new();
            v.push(Step::WriteClipboard(t.clone()));
            assert(steps_view(v@) =~= spec_request_steps(r@, visible, p));
            v
        },
        Request::Insert(t) => {
            let es = request_events(r, p);
            build_injection_steps(t, es, visible)
        },
        Request::Replace(t) => {
            let es = request_events(r, p);
            build_injection_steps(t, es, visible)
        },
    }
}

/// Builds the hide-snapshot-write-keys-settle-restore sequence.
fn build_injection_steps(text: &String, es: Vec<KeyEvent>, visible: bool) -> (v: Vec<Step>)
    ensures
        steps_view(v@) == spec_injection_wrap(text@, es@, visible),
{
    let ghost base = spec_hide_prefix(visible) + seq![
        SpecStep::SnapshotClipboard,
        SpecStep::WriteClipboard(text@),
    ];
    let mut v: Vec<Step> = Vec::new();
    if visible {
        v.push(Step::HidePanel);
        v.push(Step::Settle(FOCUS_SETTLE_DELAY_MS));
    }
    v.push(Step::SnapshotClipboard);
    v.push(Step::WriteClipboard(text.clone()));
    assert(steps_view(v@) =~= base);
    let mut j: usize = 0;
    while j < es.len()
        invariant
            j <= es.len(),
            steps_view(v@) =~= base + spec_send_steps(es@.take(j as int)),
        decreases es.len() - j,
    {
        let ghost prev = steps_view(v@);
        v.push(Step::SendKey(es[j]));
        proof {
            assert(es@.take(j + 1) =~= es@.take(j as int).push(es@[j as int]));
            assert(spec_send_steps(es@.take(j + 1)) =~= spec_send_steps(es@.take(j as int)).push(
                SpecStep::SendKey(es@[j as int]),
            ));
            assert(steps_view(v@) =~= prev.push(SpecStep::SendKey(es@[j as int])));
        }
        j += 1;
    }
    assert(es@.take(es@.len() as int) =~= es@);
    v.push(Step::Settle(PASTE_SETTLE_DELAY_MS));
    v.push(Step::RestoreClipboard);
    assert(steps_view(v@) =~= spec_injection_wrap(text@, es@, visible));
    v
}

/// The single-owner queue that serializes every clipboard-touching request.
pub struct InjectionQueue {
    pending: Vec<Request>,
}

impl InjectionQueue {
    /// The queued requests, oldest first.
    pub closed spec fn spec_pending(&self) -> Seq<SpecRequest> {
        self.pending@.map(|i: int, r: Request| r@)
    }

    pub fn new() -> (q: InjectionQueue)
        ensures
            q.spec_pending() == Seq::<SpecRequest>::empty(),
    {
        let q = InjectionQueue { pending: Vec::new() };
        proof {
            assert(q.spec_pending() =~= Seq::<SpecRequest>::empty());
        }
        q
    }

    /// Queues an insert: the text will be pasted on a fresh line at the
    /// focused element.  Returns immediately; the work runs when the queue
    /// is drained.
    pub fn insert_text(&mut self, text: &str)
        ensures
            final(self).spec_pending() == old(self).spec_pending().push(
                SpecRequest::Insert(text@),
            ),
    {
        self.pending.push(Request::Insert(text.to_owned()));
        proof {
            assert(final(self).spec_pending() =~= old(self).spec_pending().push(
                SpecRequest::Insert(text@),
            ));
        }
    }

    /// Queues a replace: the text will be pasted over the focused element's
    /// selection.
    pub fn replace_text(&mut self, text: &str)
        ensures
            final(self).spec_pending() == old(self).spec_pending().push(
                SpecRequest::Replace(text@),
            ),
    {
        self.pending.push(Request::Replace(text.to_owned()));
        proof {
            assert(final(self).spec_pending() =~= old(self).spec_pending().push(
                SpecRequest::Replace(text@),
            ));
        }
    }

    /// Queues a plain clipboard write, serialized with the injections so it
    /// can never race an in-flight snapshot-and-restore.
    pub fn copy_text_to_clipboard(&mut self, text: &str)
        ensures
            final(self).spec_pending() == old(self).spec_pending().push(SpecRequest::Copy(text@)),
    {
        self.pending.push(Request::Copy(text.to_owned()));
        proof {
            assert(final(self).spec_pending() =~= old(self).spec_pending().push(
                SpecRequest::Copy(text@),
            ));
        }
    }

    /// Drains the queue, strictly first-in first-out: each request's steps
    /// run to completion against the clipboard model and the panel before
    /// the next request starts, so the combined trace is exactly the
    /// requests' traces one after the other.
    pub fn run_pending(
        &mut self,
        bridge: &mut ClipboardBridge,
        panel: &mut PanelController,
        p: Platform,
    ) -> (trace: Vec<Step>)
        requires
            old(panel).initialized(),
        ensures
            final(self).spec_pending() == Seq::<SpecRequest>::empty(),
            final(panel).initialized(),
            steps_view(trace@) == spec_queue_trace(
                old(self).spec_pending(),
                old(panel).state() is Visible,
                p,
            ),
            (final(bridge).spec_content(), final(bridge).spec_snapshot()) == spec_run(
                old(bridge).spec_content(),
                old(bridge).spec_snapshot(),
                steps_view(trace@),
            ),
            // a batch of inserts and replaces, begun with no snapshot in
            // flight, leaves the clipboard exactly as it found it
            ((forall|i: int|
                0 <= i < old(self).spec_pending().len() ==> !((
                #[trigger] old(self).spec_pending()[i]) is Copy)) && old(bridge).spec_snapshot()
                is None) ==> final(bridge).spec_content() == old(bridge).spec_content()
                && (final(bridge).spec_snapshot() is None),
    {
        let ghost c0 = bridge.spec_content();
        let ghost sn0 = bridge.spec_snapshot();
        let ghost all = self.spec_pending();
        let mut reqs: Vec<Request> = Vec::new();
        core::mem::swap(&mut reqs, &mut self.pending);
        proof {
            assert(self.spec_pending() =~= Seq::<SpecRequest>::empty());
            assert(reqs@.map(|i: int, r: Request| r@) == all);
        }
        let mut trace: Vec<Step> = Vec::new();
        proof {
            assert(steps_view(trace@) =~= Seq::<SpecStep>::empty());
            assert(all.skip(0) =~= all);
        }
        let mut i: usize = 0;
        while i < reqs.len()
            invariant
                i <= reqs.len(),
                panel.initialized(),
                self.spec_pending() == Seq::<SpecRequest>::empty(),
                reqs@.map(|k: int, r: Request| r@) == all,
                spec_queue_trace(all, old(panel).state() is Visible, p) == steps_view(trace@)
                    + spec_queue_trace(all.skip(i as int), panel.state() is Visible, p),
                (bridge.spec_content(), bridge.spec_snapshot()) == spec_run(
                    c0,
                    sn0,
                    steps_view(trace@),
                ),
            decreases reqs.len() - i,
        {
            let ghost rem = all.skip(i as int);
            let visible = panel.panel_is_visible();
            let req = &reqs[i];
            proof {
                assert(rem[0] == req@);
                assert(rem.drop_first() =~= all.skip(i + 1));
            }
            match req {
                Request::Copy(_) => {},
                _ => {
                    panel.hide_panel();
                },
            }
            let mut plan = build_request_steps(req, visible, p);
            let ghost entry_c = bridge.spec_content();
            let ghost entry_sn = bridge.spec_snapshot();
            let mut j: usize = 0;
            while j < plan.len()
                invariant
                    j <= plan.len(),
                    steps_view(plan@) == spec_request_steps(rem[0], visible, p),
                    (bridge.spec_content(), bridge.spec_snapshot()) == spec_run(
                        entry_c,
                        entry_sn,
                        steps_view(plan@).take(j as int),
                    ),
                decreases plan.len() - j,
            {
                bridge.apply_step(&plan[j]);
                proof {
                    lemma_run_push(
                        entry_c,
                        entry_sn,
                        steps_view(plan@).take(j as int),
                        plan@[j as int]@,
                    );
                    assert(steps_view(plan@).take(j + 1) =~= steps_view(plan@).take(
                        j as int,
                    ).push(plan@[j as int]@));
                }
                j += 1;
            }
            proof {
                assert(steps_view(plan@).take(plan@.len() as int) =~= steps_view(plan@));
                lemma_run_concat(c0, sn0, steps_view(trace@), steps_view(plan@));
                assert(steps_view(trace@ + plan@) =~= steps_view(trace@) + steps_view(plan@));
            }
            let ghost trace_before = steps_view(trace@);
            trace.append(&mut plan);
            i += 1;
            proof {
                assert(steps_view(trace@) =~= trace_before + spec_request_steps(
                    rem[0],
                    visible,
                    p,
                ));
            }
        }
        proof {
            assert(all.skip(reqs@.len() as int) =~= Seq::<SpecRequest>::empty());
            assert(steps_view(trace@) + Seq::<SpecStep>::empty() =~= steps_view(trace@));
            if (forall|i: int| 0 <= i < all.len() ==> !((#[trigger] all[i]) is Copy)) && sn0
                is None {
                lemma_serialized_round_trip(all, old(panel).state() is Visible, p, c0);
            }
        }
        trace
    }
}

} // verus!
