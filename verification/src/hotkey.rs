//! Decisions of the escape hotkey: which input events cancel, what the
//! watcher does with each item of the merged event stream, and whether the
//! hotkey could be armed at all.

use vstd::prelude::*;

verus! {

/// The fields of an input event that the hotkey reads.
#[derive(Clone, Copy, Debug, PartialEq, Eq, Structural)]
pub struct KeyInput {
    pub event_type: u16,
    pub code: u16,
    pub value: i32,
}

/// The event type of key events, `EventType::KEY` of `evdev`.
#[verifier::external_body]
fn key_event_type() -> (t: u16)
    ensures
        t == 1,
{
    evdev::EventType::KEY.0
}

/// The code of the escape key, `KeyCode::KEY_ESC` of `evdev`.
#[verifier::external_body]
fn escape_key_code() -> (c: u16)
    ensures
        c == 1,
{
    evdev::KeyCode::KEY_ESC.code()
}

/// A key event of the escape key going down (value 1; 0 is a release and
/// 2 a repeat).
pub open spec fn spec_is_escape_press(event: KeyInput) -> bool {
    &&& event.event_type == 1
    &&& event.code == 1
    &&& event.value == 1
}

/// Whether `event` is a press of the escape key.
pub fn is_escape_press(event: &KeyInput) -> (r: bool)
    ensures
        r == spec_is_escape_press(*event),
{
    event.event_type == key_event_type() && event.code == escape_key_code() && event.value == 1
}

/// One item of the merged keyboard event stream.
#[derive(Clone, Copy, Debug, PartialEq, Eq, Structural)]
pub enum InputItem {
    /// An event read from a keyboard.
    Event(KeyInput),
    /// A read error on one of the keyboards.
    Error,
    /// Every keyboard stream has ended.
    End,
}

/// What the watcher does with one item of the stream.
#[derive(Clone, Copy, Debug, PartialEq, Eq, Structural)]
pub enum WatchStep {
    /// Raise the cancellation and stop watching.
    Cancel,
    /// Report the read error and keep watching.
    Warn,
    /// Ignore the item and keep watching.
    Continue,
    /// Stop watching without cancelling.
    Stop,
}

/// The watcher's answer to one stream item: an escape press cancels, an
/// error is reported, the end of the stream stops the watcher, and every
/// other event is ignored.
pub open spec fn spec_watch_step(item: InputItem) -> WatchStep {
    match item {
        InputItem::Event(e) => if spec_is_escape_press(e) {
            WatchStep::Cancel
        } else {
            WatchStep::Continue
        },
        InputItem::Error => WatchStep::Warn,
        InputItem::End => WatchStep::Stop,
    }
}

/// The step ends the watcher.
pub open spec fn ends_watch(step: WatchStep) -> bool {
    step is Cancel || step is Stop
}

/// The steps the watcher takes over a stream of `items`: one per item read,
/// in order, until a step that ends it.
pub open spec fn watch_run(items: Seq<InputItem>) -> Seq<WatchStep>
    decreases items.len(),
{
    if items.len() == 0 {
        Seq::empty()
    } else if ends_watch(spec_watch_step(items[0])) {
        seq![spec_watch_step(items[0])]
    } else {
        seq![spec_watch_step(items[0])] + watch_run(items.drop_first())
    }
}

/// The watcher's answer to one stream item (see [`spec_watch_step`]).
pub fn next_watch_step(item: &InputItem) -> (r: WatchStep)
    ensures
        r == spec_watch_step(*item),
{
    match item {
        InputItem::Event(e) => {
            if is_escape_press(e) {
                WatchStep::Cancel
            } else {
                WatchStep::Continue
            }
        },
        InputItem::Error => WatchStep::Warn,
        InputItem::End => WatchStep::Stop,
    }
}

/// What each item does to the watcher: only a key event of the escape key
/// going down (type 1, code 1, value 1) cancels; only the end of the
/// streams stops it without cancelling; a read error is reported; every
/// other event, key releases, repeats, other keys and synchronisation
/// events among them, leaves it watching.
pub proof fn lemma_watch_step_by_item(item: InputItem)
    ensures
        (spec_watch_step(item) == WatchStep::Cancel) <==> (item matches InputItem::Event(e) && e.event_type == 1
            && e.code == 1 && e.value == 1),
        (spec_watch_step(item) == WatchStep::Stop) <==> item == InputItem::End,
        (spec_watch_step(item) == WatchStep::Warn) <==> item == InputItem::Error,
        (item matches InputItem::Event(e) && !(e.event_type == 1 && e.code == 1 && e.value == 1))
            ==> spec_watch_step(item) == WatchStep::Continue,
{
}

/// Over any stream, the watcher stops without cancelling only at an end of
/// the streams, and cancels only at an escape press.
pub proof fn lemma_watch_stops_only_at_end(items: Seq<InputItem>, i: int)
    requires
        0 <= i < watch_run(items).len(),
    ensures
        watch_run(items)[i] == WatchStep::Stop ==> items[i] == InputItem::End,
        watch_run(items)[i] == WatchStep::Cancel ==> (items[i] matches InputItem::Event(e) && e.event_type == 1
            && e.code == 1 && e.value == 1),
{
    lemma_watch_reads_in_order_until_end(items, i);
    lemma_watch_step_by_item(items[i]);
}

/// Over any stream, the watcher reads items in order, one step each, and
/// reads nothing after a step that ends it: the cancellation is raised at
/// most once, as the watcher's last step, and stopping is last too.
pub proof fn lemma_watch_reads_in_order_until_end(items: Seq<InputItem>, i: int)
    requires
        0 <= i < watch_run(items).len(),
    ensures
        watch_run(items).len() <= items.len(),
        watch_run(items)[i] == spec_watch_step(items[i]),
        ends_watch(watch_run(items)[i]) ==> i == watch_run(items).len() - 1,
    decreases items.len(),
{
    if i > 0 {
        assert(!ends_watch(spec_watch_step(items[0])));
        lemma_watch_reads_in_order_until_end(items.drop_first(), i - 1);
    } else if !ends_watch(spec_watch_step(items[0])) {
        assert(watch_run(items).len() == 1 + watch_run(items.drop_first()).len());
        if watch_run(items.drop_first()).len() > 0 {
            lemma_watch_reads_in_order_until_end(items.drop_first(), 0);
        }
    }
}

/// When the streams end (item `k`) before any escape press, the watcher
/// stops, at the latest there, without cancelling: its last step is a stop
/// and it never raises the cancellation.
pub proof fn lemma_watch_end_stops_uncancelled(items: Seq<InputItem>, k: int)
    requires
        0 <= k < items.len(),
        items[k] is End,
        forall|j: int| 0 <= j < k ==> !(#[trigger] spec_watch_step(items[j]) is Cancel),
    ensures
        0 < watch_run(items).len() <= k + 1,
        watch_run(items)[watch_run(items).len() - 1] == WatchStep::Stop,
        forall|j: int| 0 <= j < watch_run(items).len() ==> !(#[trigger] watch_run(items)[j] is Cancel),
    decreases k,
{
    if k > 0 {
        let rest = items.drop_first();
        assert forall|j: int| 0 <= j < k - 1 implies !(#[trigger] spec_watch_step(rest[j]) is Cancel) by {
            assert(rest[j] == items[j + 1]);
            assert(!(spec_watch_step(items[j + 1]) is Cancel));
        }
        assert(!(spec_watch_step(items[0]) is Cancel));
        if !ends_watch(spec_watch_step(items[0])) {
            lemma_watch_end_stops_uncancelled(rest, k - 1);
            assert forall|j: int| 0 <= j < watch_run(items).len() implies !(#[trigger] watch_run(items)[j] is Cancel) by {
                if j > 0 {
                    assert(watch_run(items)[j] == watch_run(rest)[j - 1]);
                }
            }
        }
    }
}

/// Whether the hotkey could be armed.
#[derive(Clone, Copy, Debug, PartialEq, Eq, Structural)]
pub enum HotkeyStatus {
    /// The input device directory could not be read.
    NoInputDirectory,
    /// No device with an escape key was found.
    NoKeyboards,
    /// No keyboard's event stream could be opened.
    NoStreams,
    /// Watching this many keyboard streams.
    Active(usize),
}

/// Arm the hotkey given the keyboards found (`None` when the device
/// directory could not be read) and the event streams opened on them.
pub fn hotkey_status(keyboards: Option<usize>, streams: usize) -> (r: HotkeyStatus)
    ensures
        r == (match keyboards {
            None => HotkeyStatus::NoInputDirectory,
            Some(k) => if k == 0 {
                HotkeyStatus::NoKeyboards
            } else if streams == 0 {
                HotkeyStatus::NoStreams
            } else {
                HotkeyStatus::Active(streams)
            },
        }),
{
    match keyboards {
        None => HotkeyStatus::NoInputDirectory,
        Some(k) => {
            if k == 0 {
                HotkeyStatus::NoKeyboards
            } else if streams == 0 {
                HotkeyStatus::NoStreams
            } else {
                HotkeyStatus::Active(streams)
            }
        },
    }
}

} // verus!
