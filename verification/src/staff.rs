//! One staff: a group of guitar strings with one note name and one tab
//! buffer per string, a time model, and the cursor that walks the
//! strings from the last declared one down to the first.

use vstd::prelude::*;

use crate::time::{
    spec_beat_label, spec_beat_resolution, spec_beats_line, spec_total_beats, time_can_tick,
    time_wf, Time, TimeV,
};

verus! {

/// The mathematical value of a [`Staff`].
pub ghost struct StaffV {
    /// The declared note names, in declaration order.
    pub notes: Seq<Seq<char>>,
    /// One tab line per note, in the same order.
    pub tabs: Seq<Seq<char>>,
    /// The staff's time model.
    pub time: TimeV,
    /// Whether any tab cell has been written.
    pub has_tabs: bool,
    /// The string the next cell goes to.
    pub string_pos: nat,
}

/// Well-formedness of a staff: one tab line per note, a cursor inside
/// the strings, a fresh beat counter while no tabs exist, and a
/// tickable time model once they do.
pub open spec fn staff_wf(s: StaffV) -> bool {
    &&& s.tabs.len() == s.notes.len()
    &&& time_wf(s.time)
    &&& (s.notes.len() == 0 ==> s.string_pos == 0)
    &&& (s.notes.len() > 0 ==> s.string_pos < s.notes.len())
    &&& (!s.has_tabs ==> s.time.current_beat == 0 && s.time.total_beats_counted == 0)
    &&& (s.has_tabs ==> spec_beat_resolution(s.time) >= 1 && spec_total_beats(s.time)
        <= u32::MAX as nat && s.time.current_beat < spec_total_beats(s.time))
}

/// Whether a cell can be added to the staff: the staff is well formed,
/// its measure holds at least one step and fits a `u32`, and the beat
/// counter has room left.
pub open spec fn staff_can_add(s: StaffV) -> bool {
    &&& staff_wf(s)
    &&& spec_beat_resolution(s.time) >= 1
    &&& spec_total_beats(s.time) <= u32::MAX as nat
    &&& s.time.total_beats_counted < u32::MAX
}

/// Under [`staff_can_add`], the measure is nonempty and the cursor of
/// the time model sits inside it.
pub proof fn lemma_can_add_bounds(s: StaffV)
    requires
        staff_can_add(s),
    ensures
        spec_total_beats(s.time) >= 1,
        s.time.current_beat < spec_total_beats(s.time),
{
    assert(spec_total_beats(s.time) >= 1) by (nonlinear_arith)
        requires
            s.time.beats_per_measure >= 1,
            spec_beat_resolution(s.time) >= 1,
            spec_total_beats(s.time) == s.time.beats_per_measure as nat * spec_beat_resolution(
                s.time,
            ),
    ;
}

/// Whether a bar line is due: the current beat is the first of a
/// measure, whose label is `1`.
pub open spec fn staff_bar_due(s: StaffV) -> bool {
    spec_beat_label(s.time, s.time.current_beat as nat) == seq!['1']
}

/// The staff after the bar-line check: when a bar line is due and the
/// cursor's tab line exists, a `|` is appended to it.
pub open spec fn spec_check_beat(s: StaffV) -> StaffV {
    if staff_bar_due(s) && s.string_pos < s.tabs.len() {
        StaffV {
            tabs: s.tabs.update(s.string_pos as int, s.tabs[s.string_pos as int] + seq!['|']),
            ..s
        }
    } else {
        s
    }
}

/// The time model one beat later: the position wraps at the end of the
/// measure, the total count grows by one.
pub open spec fn spec_time_inc(t: TimeV) -> TimeV
    recommends
        spec_total_beats(t) >= 1,
        t.current_beat < u32::MAX,
        t.total_beats_counted < u32::MAX,
{
    TimeV {
        current_beat: ((t.current_beat + 1) as nat % spec_total_beats(t)) as u32,
        total_beats_counted: (t.total_beats_counted + 1) as u32,
        ..t
    }
}

/// The staff after the cursor moves on: down one string, or — from
/// string zero — back to the last string while the beat advances.
pub open spec fn spec_update_pos(s: StaffV) -> StaffV
    recommends
        s.string_pos == 0 ==> s.notes.len() >= 1,
{
    if s.string_pos == 0 {
        StaffV { time: spec_time_inc(s.time), string_pos: (s.notes.len() - 1) as nat, ..s }
    } else {
        StaffV { string_pos: (s.string_pos - 1) as nat, ..s }
    }
}

/// The three-column cell for a fret text: `-<fret>-` when the text is
/// one character, `-<fret>` otherwise.
pub open spec fn spec_tab_cell(tab: Seq<char>) -> Seq<char> {
    seq!['-'] + tab + if tab.len() == 1 {
        seq!['-']
    } else {
        Seq::<char>::empty()
    }
}

/// The empty cell.
pub open spec fn spec_empty_cell() -> Seq<char> {
    seq!['-', '-', '-']
}

/// The staff after one cell is written at the cursor: the bar-line
/// check runs first; when the cursor's tab line exists the cell is
/// appended there, tabs are marked as started, and the cursor moves
/// on.
pub open spec fn spec_add_cell(s: StaffV, cell: Seq<char>) -> StaffV {
    let s1 = spec_check_beat(s);
    if s.string_pos < s.tabs.len() {
        let s2 = StaffV {
            tabs: s1.tabs.update(s.string_pos as int, s1.tabs[s.string_pos as int] + cell),
            has_tabs: true,
            ..s1
        };
        spec_update_pos(s2)
    } else {
        s1
    }
}

/// One step of the next command: an empty cell at the cursor.
pub open spec fn spec_next_step(s: StaffV) -> StaffV {
    spec_add_cell(s, spec_empty_cell())
}

/// `k` further steps of the next command.
pub open spec fn spec_add_next_iter(s: StaffV, k: nat) -> StaffV
    decreases k,
{
    if k == 0 {
        s
    } else {
        spec_add_next_iter(spec_next_step(s), (k - 1) as nat)
    }
}

/// The staff after a next command: empty cells from the cursor down to
/// string zero, which carries the beat to the next tick.
pub open spec fn spec_add_next(s: StaffV) -> StaffV {
    spec_add_next_iter(s, s.string_pos + 1)
}

/// The staff after `amt` empty cells.
pub open spec fn spec_add_spread_empty(s: StaffV, amt: nat) -> StaffV
    decreases amt,
{
    if amt == 0 {
        s
    } else {
        spec_add_spread_empty(spec_add_cell(s, spec_empty_cell()), (amt - 1) as nat)
    }
}

/// The staff after `amt` next commands.
pub open spec fn spec_add_spread_next(s: StaffV, amt: nat) -> StaffV
    decreases amt,
{
    if amt == 0 {
        s
    } else {
        spec_add_spread_next(spec_add_next(s), (amt - 1) as nat)
    }
}

/// A note name padded to at least two characters with a trailing
/// space.
pub open spec fn spec_pad_note(note: Seq<char>) -> Seq<char> {
    if note.len() == 1 {
        note + seq![' ']
    } else {
        note
    }
}

/// One rendered staff line: the padded note name, a space, the tab
/// line, and a newline.
pub open spec fn spec_staff_line(note: Seq<char>, tab: Seq<char>) -> Seq<char> {
    spec_pad_note(note) + seq![' '] + tab + seq!['\n']
}

/// The first `i` rendered lines of a staff: the last declared string
/// comes first, each paired with the tab lines in declaration order.
pub open spec fn spec_staff_lines_upto(s: StaffV, i: nat) -> Seq<char>
    recommends
        s.tabs.len() == s.notes.len(),
        i <= s.notes.len(),
    decreases i,
{
    if i == 0 {
        Seq::empty()
    } else {
        spec_staff_lines_upto(s, (i - 1) as nat) + spec_staff_line(
            s.notes[s.notes.len() - i],
            s.tabs[i - 1],
        )
    }
}

/// The full rendering of a staff: its lines, a blank line, and its
/// beat-count line.
pub open spec fn spec_staff_text(s: StaffV) -> Seq<char>
    recommends
        s.tabs.len() == s.notes.len(),
{
    spec_staff_lines_upto(s, s.notes.len()) + seq!['\n'] + spec_beats_line(s.time) + seq!['\n']
}

/// Builds the three-column cell for a fret text.
fn make_tab_cell(tab: &String) -> (r: String)
    ensures
        r@ == spec_tab_cell(tab@),
{
    let mut c = String::new();
    c.append("-");
    c.append(tab.as_str());
    if tab.as_str().unicode_len() == 1 {
        c.append("-");
    }
    proof {
        reveal_strlit("-");
        assert("-"@ =~= seq!['-']);
        assert(c@ =~= spec_tab_cell(tab@));
    }
    c
}

/// One group of guitar strings sharing a tuning and a time model.
pub struct Staff {
    notes: Vec<String>,
    tabs: Vec<String>,
    time: Time,
    has_tabs: bool,
    string_pos: usize,
}

impl View for Staff {
    type V = StaffV;

    closed spec fn view(&self) -> StaffV {
        StaffV {
            notes: self.notes@.map_values(|n: String| n@),
            tabs: self.tabs@.map_values(|t: String| t@),
            time: self.time@,
            has_tabs: self.has_tabs,
            string_pos: self.string_pos as nat,
        }
    }
}

impl Staff {
    /// Creates an empty staff with the default time model.
    pub fn new() -> (s: Staff)
        ensures
            s@ == (StaffV {
                notes: Seq::<Seq<char>>::empty(),
                tabs: Seq::<Seq<char>>::empty(),
                time: TimeV {
                    beats_per_measure: 4,
                    dominant_beat: 4,
                    fidelity: 16,
                    current_beat: 0,
                    total_beats_counted: 0,
                },
                has_tabs: false,
                string_pos: 0,
            }),
            staff_wf(s@),
    {
        let s = Staff {
            notes: Vec::new(),
            tabs: Vec::new(),
            time: Time::new(),
            has_tabs: false,
            string_pos: 0,
        };
        proof {
            assert(s@.notes =~= Seq::<Seq<char>>::empty());
            assert(s@.tabs =~= Seq::<Seq<char>>::empty());
        }
        s
    }

    /// Sets the time signature, unless tabs have been added, which
    /// fails with an invalid-state error and changes nothing.
    pub fn set_time_signature(&mut self, signature: (u32, u32)) -> (r: Result<(), String>)
        ensures
            !old(self)@.has_tabs ==> r is Ok && final(self)@ == (StaffV {
                time: TimeV {
                    beats_per_measure: if signature.0 > 0 {
                        signature.0
                    } else {
                        1u32
                    },
                    dominant_beat: if signature.1 > 0 {
                        signature.1
                    } else {
                        1u32
                    },
                    ..old(self)@.time
                },
                ..old(self)@
            }),
            old(self)@.has_tabs ==> (r matches Err(e) && e@
                == "[IE_pr-st-fn(SIG)]: cannot set time signature after tabs have been added.\n"@)
                && final(self)@ == old(self)@,
            staff_wf(old(self)@) ==> staff_wf(final(self)@),
    {
        let (beats_per_measure, dominant_beat) = signature;
        if !self.has_tabs {
            self.time.set_signature(beats_per_measure, dominant_beat);
            Ok(())
        } else {
            Err(
                "[IE_pr-st-fn(SIG)]: cannot set time signature after tabs have been added.\n".to_owned(),
            )
        }
    }

    /// Sets the beat fidelity, unless tabs have been added, which
    /// fails with an invalid-state error and changes nothing.
    pub fn set_time_fidelity(&mut self, fidelity: u32) -> (r: Result<(), String>)
        ensures
            !old(self)@.has_tabs ==> r is Ok && final(self)@ == (StaffV {
                time: TimeV {
                    fidelity: if fidelity > 0 {
                        fidelity
                    } else {
                        1u32
                    },
                    ..old(self)@.time
                },
                ..old(self)@
            }),
            old(self)@.has_tabs ==> (r matches Err(e) && e@
                == "[IE_pr-st-fn(FID)]: cannot set fidelity after tabs have been added.\n"@)
                && final(self)@ == old(self)@,
            staff_wf(old(self)@) ==> staff_wf(final(self)@),
    {
        if !self.has_tabs {
            self.time.set_fidelity(fidelity);
            Ok(())
        } else {
            Err("[IE_pr-st-fn(FID)]: cannot set fidelity after tabs have been added.\n".to_owned())
        }
    }

    /// Whether any tab cell has been written to this staff.
    pub fn has_tabs(&self) -> (r: bool)
        ensures
            r == self@.has_tabs,
    {
        self.has_tabs
    }

    /// Adds a string with the given note name, unless tabs have been
    /// added, which fails with an invalid-state error and changes
    /// nothing. The cursor moves to the new string.
    pub fn add_note(&mut self, note: String) -> (r: Result<(), String>)
        ensures
            !old(self)@.has_tabs ==> r is Ok && final(self)@ == (StaffV {
                notes: old(self)@.notes.push(note@),
                tabs: old(self)@.tabs.push(Seq::<char>::empty()),
                string_pos: old(self)@.notes.len(),
                ..old(self)@
            }),
            old(self)@.has_tabs ==> (r matches Err(e) && e@
                == "[IE_pr-st-fn(ADN)]: cannot add note after tabs have been added.\n"@)
                && final(self)@ == old(self)@,
            staff_wf(old(self)@) ==> staff_wf(final(self)@),
    {
        if !self.has_tabs {
            self.notes.push(note);
            self.tabs.push(String::new());
            self.string_pos = self.notes.len() - 1;
            proof {
                assert(self@.notes =~= old(self)@.notes.push(self.notes@.last()@));
                assert(self@.tabs =~= old(self)@.tabs.push(Seq::<char>::empty()));
            }
            Ok(())
        } else {
            Err("[IE_pr-st-fn(ADN)]: cannot add note after tabs have been added.\n".to_owned())
        }
    }

    /// Appends a bar line to the cursor's tab line when the current
    /// beat starts a measure.
    fn check_beat(&mut self)
        requires
            time_wf(old(self)@.time),
            spec_beat_resolution(old(self)@.time) >= 1,
            old(self)@.time.current_beat < u32::MAX,
        ensures
            final(self)@ == spec_check_beat(old(self)@),
    {
        proof {
            vstd::arithmetic::div_mod::lemma_div_nonincreasing(
                self@.time.current_beat as int,
                spec_beat_resolution(self@.time) as int,
            );
        }
        let label = self.time.get_beat();
        let is_downbeat = label == "1".to_owned();
        proof {
            reveal_strlit("1");
            assert("1"@ =~= seq!['1']);
        }
        if is_downbeat {
            if self.string_pos < self.tabs.len() {
                let lane = &mut self.tabs[self.string_pos];
                lane.append("|");
                proof {
                    reveal_strlit("|");
                    assert("|"@ =~= seq!['|']);
                    assert(self@.tabs =~= old(self)@.tabs.update(
                        old(self)@.string_pos as int,
                        old(self)@.tabs[old(self)@.string_pos as int] + seq!['|'],
                    ));
                }
            }
        }
    }

    /// Moves the cursor down one string; from string zero it returns
    /// to the last string and the beat advances.
    fn update_string_pos(&mut self)
        requires
            old(self)@.string_pos == 0 ==> old(self)@.notes.len() >= 1 && time_can_tick(
                old(self)@.time,
            ) && spec_total_beats(old(self)@.time) >= 1,
            old(self)@.notes.len() == old(self)@.tabs.len(),
        ensures
            final(self)@ == spec_update_pos(old(self)@),
    {
        self.string_pos = if self.string_pos == 0 {
            self.time.increment_beat();
            self.notes.len() - 1
        } else {
            self.string_pos - 1
        };
    }

    /// Writes one cell at the cursor: the bar-line check, the cell
    /// text, then the cursor moves on.
    fn add_cell(&mut self, cell: &String)
        requires
            staff_can_add(old(self)@),
        ensures
            final(self)@ == spec_add_cell(old(self)@, cell@),
            staff_wf(final(self)@),
            final(self)@.time.beats_per_measure == old(self)@.time.beats_per_measure,
            final(self)@.time.dominant_beat == old(self)@.time.dominant_beat,
            final(self)@.time.fidelity == old(self)@.time.fidelity,
            final(self)@.time.total_beats_counted <= old(self)@.time.total_beats_counted + 1,
            final(self)@.notes == old(self)@.notes,
    {
        let ghost s0 = self@;
        proof {
            lemma_can_add_bounds(s0);
        }
        self.check_beat();
        if self.string_pos < self.tabs.len() {
            let ghost s1 = self@;
            let lane = &mut self.tabs[self.string_pos];
            lane.append(cell.as_str());
            self.has_tabs = true;
            proof {
                assert(self@.tabs =~= s1.tabs.update(
                    s0.string_pos as int,
                    s1.tabs[s0.string_pos as int] + cell@,
                ));
            }
            self.update_string_pos();
        }
        proof {
            assert(final(self)@ == spec_add_cell(s0, cell@));
        }
    }

    /// Adds a fret-number cell at the cursor.
    pub fn add_tab(&mut self, tab: &String)
        requires
            staff_can_add(old(self)@),
        ensures
            final(self)@ == spec_add_cell(old(self)@, spec_tab_cell(tab@)),
            staff_wf(final(self)@),
            final(self)@.time.beats_per_measure == old(self)@.time.beats_per_measure,
            final(self)@.time.dominant_beat == old(self)@.time.dominant_beat,
            final(self)@.time.fidelity == old(self)@.time.fidelity,
            final(self)@.time.total_beats_counted <= old(self)@.time.total_beats_counted + 1,
            final(self)@.notes == old(self)@.notes,
    {
        let cell = make_tab_cell(tab);
        self.add_cell(&cell);
    }

    /// Adds an empty cell at the cursor.
    pub fn add_empty(&mut self)
        requires
            staff_can_add(old(self)@),
        ensures
            final(self)@ == spec_add_cell(old(self)@, spec_empty_cell()),
            staff_wf(final(self)@),
            final(self)@.time.beats_per_measure == old(self)@.time.beats_per_measure,
            final(self)@.time.dominant_beat == old(self)@.time.dominant_beat,
            final(self)@.time.fidelity == old(self)@.time.fidelity,
            final(self)@.time.total_beats_counted <= old(self)@.time.total_beats_counted + 1,
            final(self)@.notes == old(self)@.notes,
    {
        let mut cell = String::new();
        cell.append("---");
        proof {
            reveal_strlit("---");
            assert(cell@ =~= spec_empty_cell());
        }
        self.add_cell(&cell);
    }

    /// Fills every string from the cursor down to string zero with an
    /// empty cell, carrying the beat to the next tick.
    pub fn add_next(&mut self)
        requires
            staff_can_add(old(self)@),
            old(self)@.notes.len() > 0,
        ensures
            final(self)@ == spec_add_next(old(self)@),
            staff_wf(final(self)@),
            final(self)@.time.beats_per_measure == old(self)@.time.beats_per_measure,
            final(self)@.time.dominant_beat == old(self)@.time.dominant_beat,
            final(self)@.time.fidelity == old(self)@.time.fidelity,
            final(self)@.time.total_beats_counted <= old(self)@.time.total_beats_counted + 1,
            final(self)@.notes == old(self)@.notes,
            final(self)@.notes.len() > 0,
    {
        let ghost s0 = self@;
        let n = self.notes.len();
        proof {
            assert(self@.notes.len() == self.notes@.len());
            assert(self.string_pos < n);
        }
        let mut remaining: usize = self.string_pos + 1;
        while remaining > 0
            invariant
                staff_can_add(s0),
                s0.notes.len() > 0,
                spec_add_next_iter(self@, remaining as nat) == spec_add_next(s0),
                remaining <= s0.string_pos + 1,
                remaining > 0 ==> self@.time == s0.time && self@.string_pos == remaining - 1,
                remaining == 0 ==> self@.time == spec_time_inc(s0.time) && self@.string_pos
                    == s0.notes.len() - 1 && self@.has_tabs,
                self@.notes == s0.notes,
                self@.tabs.len() == s0.tabs.len(),
                time_wf(self@.time),
            decreases remaining,
        {
            let ghost si = self@;
            proof {
                lemma_can_add_bounds(s0);
            }
            remaining = remaining - 1;
            self.check_beat();
            if self.string_pos < self.tabs.len() {
                let ghost s1 = self@;
                let lane = &mut self.tabs[self.string_pos];
                lane.append("---");
                self.has_tabs = true;
                proof {
                    reveal_strlit("---");
                    assert("---"@ =~= spec_empty_cell());
                    assert(self@.tabs =~= s1.tabs.update(
                        si.string_pos as int,
                        s1.tabs[si.string_pos as int] + spec_empty_cell(),
                    ));
                }
            }
            self.update_string_pos();
            proof {
                assert(self@ == spec_next_step(si));
            }
        }
        proof {
            lemma_can_add_bounds(s0);
            assert(final(self)@ == spec_add_next(s0));
            assert(staff_wf(final(self)@));
        }
    }

    /// Renders the staff: one line per string, the last declared
    /// string first, then a blank line and the beat-count line.
    pub fn render(&self) -> (r: String)
        requires
            staff_wf(self@),
            spec_total_beats(self@.time) <= u32::MAX as nat,
        ensures
            r@ == spec_staff_text(self@),
    {
        let len = self.notes.len();
        let mut out = String::new();
        let mut i: usize = 0;
        while i < len
            invariant
                staff_wf(self@),
                len == self@.notes.len(),
                0 <= i <= len,
                out@ == spec_staff_lines_upto(self@, i as nat),
            decreases len - i,
        {
            let note = &self.notes[len - 1 - i];
            out.append(note.as_str());
            if note.as_str().unicode_len() == 1 {
                out.append(" ");
            }
            out.append(" ");
            out.append(self.tabs[i].as_str());
            out.append("\n");
            proof {
                reveal_strlit(" ");
                reveal_strlit("\n");
                assert(" "@ =~= seq![' ']);
                assert("\n"@ =~= seq!['\n']);
                assert(out@ =~= spec_staff_lines_upto(self@, i as nat) + spec_staff_line(
                    self@.notes[self@.notes.len() - (i + 1)],
                    self@.tabs[i as int],
                ));
            }
            i = i + 1;
        }
        out.append("\n");
        let beats = self.time.beat_count_line();
        out.append(beats.as_str());
        out.append("\n");
        proof {
            reveal_strlit("\n");
            assert("\n"@ =~= seq!['\n']);
            assert(out@ =~= spec_staff_text(self@));
        }
        out
    }

    /// Adds `amt` empty cells.
    pub fn add_spread_empty(&mut self, amt: u32)
        requires
            staff_wf(old(self)@),
            spec_beat_resolution(old(self)@.time) >= 1,
            spec_total_beats(old(self)@.time) <= u32::MAX as nat,
            old(self)@.time.total_beats_counted as nat + amt as nat <= u32::MAX as nat,
        ensures
            final(self)@ == spec_add_spread_empty(old(self)@, amt as nat),
            staff_wf(final(self)@),
            final(self)@.time.beats_per_measure == old(self)@.time.beats_per_measure,
            final(self)@.time.dominant_beat == old(self)@.time.dominant_beat,
            final(self)@.time.fidelity == old(self)@.time.fidelity,
            final(self)@.time.total_beats_counted <= old(self)@.time.total_beats_counted
                + amt as nat,
            final(self)@.notes == old(self)@.notes,
    {
        let ghost s0 = self@;
        let mut k: u32 = 0;
        while k < amt
            invariant
                0 <= k <= amt,
                spec_add_spread_empty(self@, (amt - k) as nat) == spec_add_spread_empty(
                    s0,
                    amt as nat,
                ),
                staff_wf(self@),
                spec_beat_resolution(self@.time) >= 1,
                spec_total_beats(self@.time) <= u32::MAX as nat,
                self@.time.beats_per_measure == s0.time.beats_per_measure,
                self@.time.dominant_beat == s0.time.dominant_beat,
                self@.time.fidelity == s0.time.fidelity,
                self@.time.total_beats_counted <= s0.time.total_beats_counted + k as nat,
                s0.time.total_beats_counted as nat + amt as nat <= u32::MAX as nat,
                self@.notes == s0.notes,
            decreases amt - k,
        {
            self.add_empty();
            k = k + 1;
        }
    }

    /// Adds `amt` next commands.
    pub fn add_spread_next(&mut self, amt: u32)
        requires
            staff_wf(old(self)@),
            old(self)@.notes.len() > 0,
            spec_beat_resolution(old(self)@.time) >= 1,
            spec_total_beats(old(self)@.time) <= u32::MAX as nat,
            old(self)@.time.total_beats_counted as nat + amt as nat <= u32::MAX as nat,
        ensures
            final(self)@ == spec_add_spread_next(old(self)@, amt as nat),
            staff_wf(final(self)@),
            final(self)@.time.beats_per_measure == old(self)@.time.beats_per_measure,
            final(self)@.time.dominant_beat == old(self)@.time.dominant_beat,
            final(self)@.time.fidelity == old(self)@.time.fidelity,
            final(self)@.time.total_beats_counted <= old(self)@.time.total_beats_counted
                + amt as nat,
            final(self)@.notes == old(self)@.notes,
    {
        let ghost s0 = self@;
        let mut k: u32 = 0;
        while k < amt
            invariant
                0 <= k <= amt,
                spec_add_spread_next(self@, (amt - k) as nat) == spec_add_spread_next(
                    s0,
                    amt as nat,
                ),
                staff_wf(self@),
                self@.notes.len() > 0,
                spec_beat_resolution(self@.time) >= 1,
                spec_total_beats(self@.time) <= u32::MAX as nat,
                self@.time.beats_per_measure == s0.time.beats_per_measure,
                self@.time.dominant_beat == s0.time.dominant_beat,
                self@.time.fidelity == s0.time.fidelity,
                self@.time.total_beats_counted <= s0.time.total_beats_counted + k as nat,
                s0.time.total_beats_counted as nat + amt as nat <= u32::MAX as nat,
                self@.notes == s0.notes,
            decreases amt - k,
        {
            self.add_next();
            k = k + 1;
        }
    }
}

} // verus!
