//! The progress-reporting core: a registry of independently updatable
//! progress bars, each addressed by a handle issued in strictly increasing
//! order, together with the arithmetic and text of one rendered line.
//!
//! Counts are exact; the displayed percentage is rounded to the nearest
//! integer, the displayed throughput to hundredths per second, and the
//! displayed remaining time to tenths of a second, each value computed in
//! integers (round half up, as all quantities are non-negative).

use crate::numtext::{dec_str, u128_to_dec, u64_to_dec};
use crate::term;
use vstd::arithmetic::div_mod::{lemma_div_is_ordered, lemma_fundamental_div_mod_converse};
use vstd::prelude::*;
use vstd::string::*;

verus! {

/// The drawing width, in characters, of the bar glyph of every bar made by
/// `ProgressBar::new`.
pub const BAR_WIDTH: usize = 30;

/// A requested count clamped to the bar's target: values above `total` are
/// silently capped, never an error.
pub open spec fn clamp_to_total(total: u64, requested: int) -> int {
    if requested > total {
        total as int
    } else {
        requested
    }
}

/// The displayed percentage: 100 for an empty task (a zero target counts as
/// immediately complete), otherwise `current / total * 100` rounded to the
/// nearest integer.
pub open spec fn percent_of(current: u64, total: u64) -> int {
    if total == 0 {
        100
    } else {
        (200 * current + total) / (2 * total)
    }
}

/// How many of the `width` bar characters are filled: `width * percent /
/// 100` rounded to the nearest integer and capped at `width`.
pub open spec fn filled_of(percent: int, width: int) -> int {
    let raw = (width * percent + 50) / 100;
    if raw > width {
        width
    } else {
        raw
    }
}

/// Displayed throughput in hundredths of a count per second: `current /
/// elapsed` rounded to the nearest hundredth, and 0 while no time has
/// passed.
pub open spec fn speed_centi_of(current: u64, elapsed_s: u64) -> int {
    if elapsed_s == 0 {
        0
    } else {
        (200 * current + elapsed_s) / (2 * elapsed_s)
    }
}

/// Displayed remaining time in tenths of a second: the remaining count over
/// the observed throughput, rounded to the nearest tenth; 0 once the bar is
/// full or while the throughput is zero.
pub open spec fn eta_deci_of(total: u64, current: u64, elapsed_s: u64) -> int {
    if 0 < current < total && elapsed_s > 0 {
        (20 * (total - current) * elapsed_s + current) / (2 * current)
    } else {
        0
    }
}

/// The displayed percentage is always in `[0, 100]` once the stored count
/// is within the target.
pub proof fn lemma_percent_bounds(current: u64, total: u64)
    requires
        current <= total,
    ensures
        0 <= percent_of(current, total) <= 100,
{
    if total != 0 {
        assert(200 * current + total <= 201 * total) by (nonlinear_arith)
            requires current <= total;
        lemma_div_is_ordered(200 * current + total, 201 * total, 2 * total);
        assert(201 * total == 100 * (2 * total) + total) by (nonlinear_arith);
        lemma_fundamental_div_mod_converse(201 * total, 2 * total, 100, total as int);
        assert(201 * total / (2 * total) == 100);
        lemma_div_is_ordered(0, 200 * current + total, 2 * total);
    }
}

/// An empty task is complete from the start: with a zero target the
/// percentage is 100 before any update.
pub proof fn lemma_percent_complete_when_total_zero(current: u64)
    ensures
        percent_of(current, 0) == 100,
{
}

/// The filled width never exceeds the drawing width.
pub proof fn lemma_filled_bounds(percent: int, width: int)
    requires
        0 <= percent,
        1 <= width,
    ensures
        0 <= filled_of(percent, width) <= width,
{
    assert(0 <= (width * percent + 50)) by (nonlinear_arith)
        requires 0 <= percent, 1 <= width;
    lemma_div_is_ordered(0, width * percent + 50, 100);
}

/// The displayed percentage, as run: equals `percent_of`.
pub fn percent(current: u64, total: u64) -> (r: u64)
    requires
        current <= total,
    ensures
        r as int == percent_of(current, total),
        r <= 100,
{
    proof {
        lemma_percent_bounds(current, total);
    }
    if total == 0 {
        100
    } else {
        let num: u128 = 200 * (current as u128) + (total as u128);
        let den: u128 = 2 * (total as u128);
        let q: u128 = num / den;
        proof {
            assert(q as int == percent_of(current, total));
        }
        q as u64
    }
}

/// The filled width, as run: equals `filled_of`.
pub fn filled_width(percent: u64, width: usize) -> (r: usize)
    requires
        percent <= 100,
        width <= 10000,
    ensures
        r as int == filled_of(percent as int, width as int),
        r <= width,
{
    proof {
        assert((width as int) * (percent as int) <= 10000 * 100) by (nonlinear_arith)
            requires percent <= 100, width <= 10000;
        assert(0 <= (width as int) * (percent as int)) by (nonlinear_arith)
            requires 0 <= percent, 0 <= width;
    }
    let raw: u64 = ((width as u64) * percent + 50) / 100;
    if raw > width as u64 {
        width
    } else {
        raw as usize
    }
}

/// The displayed throughput in hundredths, as run: equals `speed_centi_of`.
pub fn speed_centi(current: u64, elapsed_s: u64) -> (r: u128)
    ensures
        r as int == speed_centi_of(current, elapsed_s),
{
    if elapsed_s == 0 {
        0
    } else {
        (200 * (current as u128) + (elapsed_s as u128)) / (2 * (elapsed_s as u128))
    }
}

/// The displayed remaining time in tenths, as run: equals `eta_deci_of`.
/// The elapsed time is bounded so that the intermediate product fits the
/// machine's arithmetic.
pub fn eta_deci(total: u64, current: u64, elapsed_s: u64) -> (r: u128)
    requires
        elapsed_s <= u32::MAX as u64,
    ensures
        r as int == eta_deci_of(total, current, elapsed_s),
{
    if 0 < current && current < total && elapsed_s > 0 {
        let remaining: u128 = (total - current) as u128;
        proof {
            assert(20 * remaining * (elapsed_s as u128) + (current as u128) <= u128::MAX) by (nonlinear_arith)
                requires
                    remaining <= u64::MAX,
                    elapsed_s <= u32::MAX as u64,
                    current <= u64::MAX;
            assert(20 * (remaining as int) * (elapsed_s as int) == 20 * ((total - current) as int) * (elapsed_s as int));
        }
        (20 * remaining * (elapsed_s as u128) + (current as u128)) / (2 * (current as u128))
    } else {
        0
    }
}

/// `n` copies of the character `c`.
pub open spec fn char_repeat(c: char, n: int) -> Seq<char> {
    if n <= 0 {
        Seq::empty()
    } else {
        Seq::new(n as nat, |i| c)
    }
}

/// The interior of the bar glyph, exactly `width` characters: `filled` fill
/// characters, a marker when not fully filled, then space padding.
pub open spec fn bar_seq(filled: int, width: int) -> Seq<char> {
    if filled < width {
        char_repeat('=', filled) + seq!['>'] + char_repeat(' ', width - filled - 1)
    } else {
        char_repeat('=', filled)
    }
}

/// Builds the bar glyph interior, as `bar_seq` describes it.
pub fn bar_glyph(filled: usize, width: usize) -> (r: String)
    requires
        filled <= width,
    ensures
        r@ == bar_seq(filled as int, width as int),
{
    let mut s = String::new();
    let mut i: usize = 0;
    while i < filled
        invariant
            i <= filled,
            s@ == char_repeat('=', i as int),
        decreases filled - i,
    {
        proof {
            reveal_strlit("=");
            assert(char_repeat('=', i + 1 as int) =~= char_repeat('=', i as int) + "="@);
        }
        s.append("=");
        i = i + 1;
    }
    if filled < width {
        proof {
            reveal_strlit(">");
            assert(">"@ =~= seq!['>']);
        }
        s.append(">");
        let pad: usize = width - filled - 1;
        let mut j: usize = 0;
        while j < pad
            invariant
                j <= pad,
                s@ == char_repeat('=', filled as int) + seq!['>'] + char_repeat(' ', j as int),
            decreases pad - j,
        {
            proof {
                reveal_strlit(" ");
                assert(char_repeat(' ', j + 1 as int) =~= char_repeat(' ', j as int) + " "@);
                assert((char_repeat('=', filled as int) + seq!['>'] + char_repeat(' ', j as int))
                    + " "@ =~= char_repeat('=', filled as int) + seq!['>'] + char_repeat(
                    ' ',
                    j + 1 as int,
                ));
            }
            s.append(" ");
            j = j + 1;
        }
        proof {
            assert(s@ =~= bar_seq(filled as int, width as int));
        }
    } else {
        proof {
            assert(s@ =~= bar_seq(filled as int, width as int));
        }
    }
    s
}

/// The throughput text: whole part, a point, and a two-digit fraction of
/// hundredths.
pub open spec fn speed_text(sc: int) -> Seq<char> {
    dec_str((sc / 100) as nat) + seq!['.'] + frac2_str((sc % 100) as nat)
}

/// A fraction in hundredths as exactly two digits.
pub open spec fn frac2_str(f: nat) -> Seq<char> {
    if f < 10 {
        seq!['0'] + dec_str(f)
    } else {
        dec_str(f)
    }
}

/// The remaining-time text: whole seconds, a point, and one digit of
/// tenths.
pub open spec fn eta_text(ed: int) -> Seq<char> {
    dec_str((ed / 10) as nat) + seq!['.'] + dec_str((ed % 10) as nat)
}

/// One full rendered status line: status glyph, percentage, bar glyph in
/// its boundary pair, counts, throughput and remaining time, and the
/// message.
pub open spec fn rendered_line(
    status: Seq<char>,
    current: u64,
    total: u64,
    width: int,
    message: Seq<char>,
    elapsed_s: u64,
) -> Seq<char> {
    let p = percent_of(current, total);
    status + seq![' '] + dec_str(p as nat) + seq!['%', ' ', '['] + bar_seq(
        filled_of(p, width),
        width,
    ) + seq![']', ' '] + dec_str(current as nat) + seq!['/'] + dec_str(total as nat) + seq![
        ' ',
        '[',
    ] + speed_text(speed_centi_of(current, elapsed_s)) + seq!['/', 's', ',', ' ', 'E', 'T', 'A', ':', ' ']
        + eta_text(eta_deci_of(total, current, elapsed_s)) + seq!['s', ']', ' '] + message
}

/// Composes one rendered status line, as `rendered_line` describes it.
/// The status glyph is handed in already painted; rendering itself never
/// writes anywhere.
pub fn render_line(
    status: &str,
    current: u64,
    total: u64,
    width: usize,
    message: &str,
    elapsed_s: u64,
) -> (r: String)
    requires
        current <= total,
        width <= 10000,
        elapsed_s <= u32::MAX as u64,
    ensures
        r@ == rendered_line(status@, current, total, width as int, message@, elapsed_s),
{
    let p = percent(current, total);
    let fw = filled_width(p, width);
    let bar = bar_glyph(fw, width);
    let sc = speed_centi(current, elapsed_s);
    let ed = eta_deci(total, current, elapsed_s);

    let mut line = String::from_str(status);
    line.append(" ");
    let p_str = u64_to_dec(p);
    line.append(p_str.as_str());
    line.append("% [");
    line.append(bar.as_str());
    line.append("] ");
    let cur_str = u64_to_dec(current);
    line.append(cur_str.as_str());
    line.append("/");
    let total_str = u64_to_dec(total);
    line.append(total_str.as_str());
    line.append(" [");
    let sc_whole = u128_to_dec(sc / 100);
    line.append(sc_whole.as_str());
    line.append(".");
    let sc_frac: u128 = sc % 100;
    if sc_frac < 10 {
        line.append("0");
    }
    let sc_frac_str = u128_to_dec(sc_frac);
    line.append(sc_frac_str.as_str());
    line.append("/s, ETA: ");
    let ed_whole = u128_to_dec(ed / 10);
    line.append(ed_whole.as_str());
    line.append(".");
    let ed_frac = u128_to_dec(ed % 10);
    line.append(ed_frac.as_str());
    line.append("s] ");
    line.append(message);
    proof {
        reveal_strlit(" ");
        reveal_strlit("% [");
        reveal_strlit("] ");
        reveal_strlit("/");
        reveal_strlit(" [");
        reveal_strlit(".");
        reveal_strlit("0");
        reveal_strlit("/s, ETA: ");
        reveal_strlit("s] ");
        assert(" "@ =~= seq![' ']);
        assert("% ["@ =~= seq!['%', ' ', '[']);
        assert("] "@ =~= seq![']', ' ']);
        assert("/"@ =~= seq!['/']);
        assert(" ["@ =~= seq![' ', '[']);
        assert("."@ =~= seq!['.']);
        assert("0"@ =~= seq!['0']);
        assert("/s, ETA: "@ =~= seq!['/', 's', ',', ' ', 'E', 'T', 'A', ':', ' ']);
        assert("s] "@ =~= seq!['s', ']', ' ']);
        assert(line@ =~= rendered_line(
            status@,
            current,
            total,
            width as int,
            message@,
            elapsed_s,
        ));
    }
    line
}

/// The abstract state of one bar: what every contract of `ProgressBar`
/// speaks of.
pub ghost struct BarState {
    pub total: u64,
    pub current: u64,
    pub width: usize,
    pub message: Seq<char>,
    pub start_millis: u64,
    pub finished: bool,
}

/// The state after an update requesting `requested`: the count becomes
/// `min(requested, total)`; nothing else moves.
pub open spec fn spec_updated(s: BarState, requested: int) -> BarState {
    BarState { current: clamp_to_total(s.total, requested) as u64, ..s }
}

/// The state after a finish with message `m`: the count reaches the target,
/// the message is replaced, and the bar is finished; nothing else moves.
pub open spec fn spec_finished(s: BarState, m: Seq<char>) -> BarState {
    BarState { current: s.total, message: m, finished: true, ..s }
}

/// One progress indicator: a fixed target, a clamped running count, a
/// message, the creation time, and the finished flag.  The two states are
/// running (`finished` false, the initial state) and finished; the only
/// transition is running to finished, made by `finish_with_message`.
pub struct ProgressBar {
    total: u64,
    current: u64,
    width: usize,
    message: String,
    start_millis: u64,
    finished: bool,
}

impl View for ProgressBar {
    type V = BarState;

    closed spec fn view(&self) -> BarState {
        BarState {
            total: self.total,
            current: self.current,
            width: self.width,
            message: self.message@,
            start_millis: self.start_millis,
            finished: self.finished,
        }
    }
}

impl ProgressBar {
    /// The bar's invariant: the count never exceeds the target, and the
    /// drawing width is positive and small enough for the rendering
    /// arithmetic.
    pub open spec fn wf(self) -> bool {
        &&& self@.current <= self@.total
        &&& 1 <= self@.width <= 10000
    }

    /// A fresh bar: zero count, empty message, running, its start time read
    /// from the clock.
    pub fn new(total: u64) -> (r: ProgressBar)
        ensures
            r@.total == total,
            r@.current == 0,
            r@.width == BAR_WIDTH,
            r@.message == Seq::<char>::empty(),
            !r@.finished,
            r.wf(),
    {
        ProgressBar {
            total,
            current: 0,
            width: BAR_WIDTH,
            message: String::new(),
            start_millis: term::now_millis(),
            finished: false,
        }
    }

    pub fn total(&self) -> (r: u64)
        ensures
            r == self@.total,
    {
        self.total
    }

    pub fn current(&self) -> (r: u64)
        ensures
            r == self@.current,
    {
        self.current
    }

    pub fn width(&self) -> (r: usize)
        ensures
            r == self@.width,
    {
        self.width
    }

    pub fn message(&self) -> (r: &String)
        ensures
            r@ == self@.message,
    {
        &self.message
    }

    pub fn is_finished(&self) -> (r: bool)
        ensures
            r == self@.finished,
    {
        self.finished
    }

    /// The seconds elapsed since creation, by the clock, capped so that the
    /// rendering arithmetic stays in bounds; 0 if the clock went backwards.
    fn elapsed_seconds(&self) -> (r: u64)
        ensures
            r <= u32::MAX as u64,
    {
        let now = term::now_millis();
        let elapsed_ms = if now >= self.start_millis {
            now - self.start_millis
        } else {
            0
        };
        let elapsed_s = elapsed_ms / 1000;
        if elapsed_s > u32::MAX as u64 {
            u32::MAX as u64
        } else {
            elapsed_s
        }
    }

    /// One render tick: paints the status glyph, composes the line for the
    /// bar's present state, and overwrites the terminal line with it.
    /// Rendering is best-effort and never changes the bar.
    fn redraw(&self)
        requires
            self.wf(),
    {
        let status = if self.finished {
            term::paint_green("\u{2713}")
        } else {
            term::paint_bright_blue("\u{2022}")
        };
        let elapsed_s = self.elapsed_seconds();
        let line = render_line(
            status.as_str(),
            self.current,
            self.total,
            self.width,
            self.message.as_str(),
            elapsed_s,
        );
        term::emit_progress_line(line.as_str());
    }

    /// Replaces the message and redraws.
    pub fn set_message(&mut self, message: &str)
        requires
            old(self).wf(),
        ensures
            final(self).wf(),
            final(self)@ == (BarState { message: message@, ..old(self)@ }),
    {
        self.message = String::from_str(message);
        self.redraw();
    }

    /// Stores the requested count clamped to the target and redraws.  A
    /// request above the target is capped silently: the stored value is
    /// always `min(requested, total)`.
    pub fn update(&mut self, current: u64)
        requires
            old(self).wf(),
        ensures
            final(self).wf(),
            final(self)@ == spec_updated(old(self)@, current as int),
    {
        self.current = current;
        if current > self.total {
            self.current = self.total;
        }
        self.redraw();
    }

    /// Advances the count by `amount`: exactly `update` at the present
    /// count plus `amount` (the sum taken without wrapping), so overflow
    /// beyond the target falls to the same clamp.
    pub fn increment(&mut self, amount: u64)
        requires
            old(self).wf(),
        ensures
            final(self).wf(),
            final(self)@ == spec_updated(old(self)@, old(self)@.current + amount),
    {
        let target = if amount > u64::MAX - self.current {
            u64::MAX
        } else {
            self.current + amount
        };
        proof {
            assert(clamp_to_total(self@.total, target as int) == clamp_to_total(
                self@.total,
                self@.current + amount,
            ));
        }
        self.update(target);
    }

    /// Fills the bar, replaces the message, marks the bar finished, renders
    /// the final line, and emits a trailing line break so later output
    /// starts fresh.
    pub fn finish_with_message(&mut self, message: &str)
        requires
            old(self).wf(),
        ensures
            final(self).wf(),
            final(self)@ == spec_finished(old(self)@, message@),
    {
        self.current = self.total;
        self.message = String::from_str(message);
        self.finished = true;
        self.redraw();
        term::emit_text_line("");
    }
}

/// Holds when a bar state satisfies the bar invariant.
pub open spec fn state_wf(s: BarState) -> bool {
    &&& s.current <= s.total
    &&& 1 <= s.width <= 10000
}

/// The registry: an append-only table of bars.  The index of an entry is
/// its handle; entries are never removed or reordered, so a handle stays
/// valid for the life of the registry and handles are issued in strictly
/// increasing order starting at 0.
pub struct ProgressRegistry {
    bars: Vec<ProgressBar>,
}

impl View for ProgressRegistry {
    type V = Seq<BarState>;

    closed spec fn view(&self) -> Seq<BarState> {
        self.bars@.map_values(|b: ProgressBar| b@)
    }
}

impl ProgressRegistry {
    /// Every entry of the table satisfies the bar invariant.
    pub open spec fn wf(self) -> bool {
        forall|i: int| 0 <= i < self@.len() ==> state_wf(#[trigger] self@[i])
    }

    /// An empty registry; no handle has been issued yet.
    pub fn new() -> (r: ProgressRegistry)
        ensures
            r@.len() == 0,
            r.wf(),
    {
        let r = ProgressRegistry { bars: Vec::new() };
        proof {
            assert(r@ =~= Seq::<BarState>::empty());
        }
        r
    }

    /// How many bars have ever been created here.
    pub fn bar_count(&self) -> (r: usize)
        ensures
            r == self@.len(),
    {
        self.bars.len()
    }
}

/// Appends a fresh bar for `total` and returns its handle: the table length
/// before the append.  Handles are therefore unique, contiguous from 0, and
/// strictly increasing; existing entries never move.
pub fn create_progress_bar(registry: &mut ProgressRegistry, total: u64) -> (handle: usize)
    requires
        old(registry).wf(),
    ensures
        final(registry).wf(),
        handle == old(registry)@.len(),
        final(registry)@.len() == old(registry)@.len() + 1,
        forall|i: int| 0 <= i < old(registry)@.len() ==> final(registry)@[i] == old(registry)@[i],
        final(registry)@[handle as int].total == total,
        final(registry)@[handle as int].current == 0,
        final(registry)@[handle as int].width == BAR_WIDTH,
        final(registry)@[handle as int].message == Seq::<char>::empty(),
        !final(registry)@[handle as int].finished,
{
    let handle = registry.bars.len();
    let bar = ProgressBar::new(total);
    let ghost bar_state = bar@;
    registry.bars.push(bar);
    proof {
        assert(registry@ =~= old(registry)@.push(bar_state));
    }
    handle
}

/// Resolves a handle: the entry at that index, or nothing for a handle the
/// registry never issued.
pub fn get_progress_bar(registry: &ProgressRegistry, id: usize) -> (r: Option<&ProgressBar>)
    ensures
        id < registry@.len() ==> (r matches Some(b) && b@ == registry@[id as int]),
        id >= registry@.len() ==> r is None,
{
    if id < registry.bars.len() {
        Some(&registry.bars[id])
    } else {
        None
    }
}

/// Applies an update, and optionally a new message, to the bar under a
/// handle.  Returns false, touching nothing, exactly on a handle the
/// registry never issued; on success the addressed bar moves by
/// `spec_updated` (and the message replacement), and no other entry moves.
pub fn update_progress(
    registry: &mut ProgressRegistry,
    id: usize,
    current: u64,
    message: Option<&str>,
) -> (ok: bool)
    requires
        old(registry).wf(),
    ensures
        final(registry).wf(),
        ok == (id < old(registry)@.len()),
        !ok ==> final(registry)@ == old(registry)@,
        final(registry)@.len() == old(registry)@.len(),
        forall|i: int|
            0 <= i < old(registry)@.len() && i != id ==> final(registry)@[i] == old(registry)@[i],
        ok ==> final(registry)@[id as int] == (BarState {
            message: (match message {
                Some(m) => m@,
                None => old(registry)@[id as int].message,
            }),
            ..spec_updated(old(registry)@[id as int], current as int)
        }),
{
    if id < registry.bars.len() {
        proof {
            assert(state_wf(old(registry)@[id as int]));
        }
        let bar = &mut registry.bars[id];
        bar.update(current);
        match message {
            Some(m) => bar.set_message(m),
            None => (),
        }
        proof {
            assert(registry@ =~= old(registry)@.update(id as int, registry@[id as int]));
        }
        true
    } else {
        proof {
            assert(registry@ =~= old(registry)@);
        }
        false
    }
}

/// Finishes the bar under a handle, with the given message or the default
/// completion message.  Returns false, touching nothing, exactly on a
/// handle the registry never issued; on success the addressed bar moves by
/// `spec_finished`, and no other entry moves.
pub fn finish_progress(registry: &mut ProgressRegistry, id: usize, message: Option<&str>) -> (ok:
    bool)
    requires
        old(registry).wf(),
    ensures
        final(registry).wf(),
        ok == (id < old(registry)@.len()),
        !ok ==> final(registry)@ == old(registry)@,
        final(registry)@.len() == old(registry)@.len(),
        forall|i: int|
            0 <= i < old(registry)@.len() && i != id ==> final(registry)@[i] == old(registry)@[i],
        ok ==> final(registry)@[id as int] == spec_finished(
            old(registry)@[id as int],
            match message {
                Some(m) => m@,
                None => "完了！"@,
            },
        ),
{
    if id < registry.bars.len() {
        proof {
            assert(state_wf(old(registry)@[id as int]));
        }
        let bar = &mut registry.bars[id];
        let msg = match message {
            Some(m) => m,
            None => "完了！",
        };
        bar.finish_with_message(msg);
        proof {
            assert(registry@ =~= old(registry)@.update(id as int, registry@[id as int]));
        }
        true
    } else {
        proof {
            assert(registry@ =~= old(registry)@);
        }
        false
    }
}

/// Handle uniqueness: every create returns the table length at the moment
/// it appends, so the k-th append (in table order) returns k.  Any run of
/// n creates therefore yields exactly the handles 0 to n - 1: all
/// distinct, no gaps, whatever order the appends interleaved in.
pub proof fn lemma_handles_distinct(handles: Seq<int>)
    requires
        forall|i: int| 0 <= i < handles.len() ==> handles[i] == i,
    ensures
        forall|i: int, j: int|
            0 <= i < handles.len() && 0 <= j < handles.len() && i != j ==> handles[i] != handles[j],
        forall|i: int| 0 <= i < handles.len() ==> 0 <= #[trigger] handles[i] < handles.len(),
{
}

/// Finish idempotence: one finish fills the bar and marks it finished, and
/// a second finish (with any message) leaves the count at the target and
/// the flag set; there is no way back to the running state.
pub proof fn lemma_finish_idempotent(s: BarState, m1: Seq<char>, m2: Seq<char>)
    ensures
        spec_finished(s, m1).current == spec_finished(s, m1).total,
        spec_finished(s, m1).finished,
        spec_finished(spec_finished(s, m1), m2).current == spec_finished(spec_finished(s, m1), m2).total,
        spec_finished(spec_finished(s, m1), m2).finished,
        spec_finished(spec_finished(s, m1), m2).total == spec_finished(s, m1).total,
{
}

/// The clamp is exactly the least of the requested count and the target.
pub proof fn lemma_clamp_is_min(total: u64, requested: int)
    ensures
        clamp_to_total(total, requested) == if requested <= total {
            requested
        } else {
            total as int
        },
{
}

} // verus!
