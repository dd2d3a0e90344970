//! The staff manager: owns the ordered staffs, applies global options,
//! and starts a new staff whenever a note arrives after tab data.

use vstd::prelude::*;

use crate::options::{spec_apply_options, StaffOptions};
use crate::staff::{
    spec_add_cell, spec_add_next, spec_add_spread_empty, spec_add_spread_next, spec_empty_cell,
    spec_staff_text, spec_tab_cell, staff_wf, Staff, StaffV,
};
use crate::time::{spec_beat_resolution, spec_total_beats, time_wf, TimeV};

verus! {

/// The mathematical value of a [`StaffManager`].
pub ghost struct ManagerV {
    /// The staffs, in creation order.
    pub staffs: Seq<StaffV>,
    /// The global option defaults for staffs yet to be created.
    pub options: TimeV,
}

/// Well-formedness of a manager: every staff is well formed, holds at
/// least one string, and has a measure that fits a `u32`; the option
/// defaults are well formed.
pub open spec fn manager_wf(m: ManagerV) -> bool {
    &&& forall|i: int|
        0 <= i < m.staffs.len() ==> staff_wf(#[trigger] m.staffs[i]) && spec_total_beats(
            m.staffs[i].time,
        ) <= u32::MAX as nat && m.staffs[i].notes.len() > 0
    &&& time_wf(m.options)
}

/// The staff a manager creates: empty, with the current option
/// defaults as its time model.
pub open spec fn spec_create_staff(options: TimeV) -> StaffV
    recommends
        time_wf(options),
{
    StaffV {
        notes: Seq::<Seq<char>>::empty(),
        tabs: Seq::<Seq<char>>::empty(),
        time: TimeV {
            beats_per_measure: options.beats_per_measure,
            dominant_beat: options.dominant_beat,
            fidelity: options.fidelity,
            current_beat: 0,
            total_beats_counted: 0,
        },
        has_tabs: false,
        string_pos: 0,
    }
}

/// Whether a note token makes the manager create a staff: none exists
/// yet, or the most recent one already holds tab data.
pub open spec fn manager_creates_staff(m: ManagerV) -> bool {
    m.staffs.len() == 0 || m.staffs.last().has_tabs
}

/// A staff with one more string.
pub open spec fn spec_staff_add_note(s: StaffV, note: Seq<char>) -> StaffV
    recommends
        !s.has_tabs,
{
    StaffV {
        notes: s.notes.push(note),
        tabs: s.tabs.push(Seq::<char>::empty()),
        string_pos: s.notes.len(),
        ..s
    }
}

/// The manager after a note: a staff is created when needed, then the
/// note becomes a new string of the most recent staff.
pub open spec fn spec_manager_add_note(m: ManagerV, note: Seq<char>) -> ManagerV {
    let staffs = if manager_creates_staff(m) {
        m.staffs.push(spec_create_staff(m.options))
    } else {
        m.staffs
    };
    let k = staffs.len() - 1;
    ManagerV { staffs: staffs.update(k, spec_staff_add_note(staffs[k], note)), ..m }
}

/// The manager after a cell lands on the most recent staff; without a
/// staff nothing happens.
pub open spec fn spec_manager_add_cell(m: ManagerV, cell: Seq<char>) -> ManagerV {
    if m.staffs.len() == 0 {
        m
    } else {
        let k = m.staffs.len() - 1;
        ManagerV { staffs: m.staffs.update(k, spec_add_cell(m.staffs[k], cell)), ..m }
    }
}

/// The manager after a next command on the most recent staff.
pub open spec fn spec_manager_add_next(m: ManagerV) -> ManagerV {
    if m.staffs.len() == 0 {
        m
    } else {
        let k = m.staffs.len() - 1;
        ManagerV { staffs: m.staffs.update(k, spec_add_next(m.staffs[k])), ..m }
    }
}

/// The manager after `amt` empty cells on the most recent staff.
pub open spec fn spec_manager_add_spread_empty(m: ManagerV, amt: nat) -> ManagerV {
    if m.staffs.len() == 0 {
        m
    } else {
        let k = m.staffs.len() - 1;
        ManagerV { staffs: m.staffs.update(k, spec_add_spread_empty(m.staffs[k], amt)), ..m }
    }
}

/// The manager after `amt` next commands on the most recent staff.
pub open spec fn spec_manager_add_spread_next(m: ManagerV, amt: nat) -> ManagerV {
    if m.staffs.len() == 0 {
        m
    } else {
        let k = m.staffs.len() - 1;
        ManagerV { staffs: m.staffs.update(k, spec_add_spread_next(m.staffs[k], amt)), ..m }
    }
}

/// Whether the most recent staff can take `amt` more ticks: its
/// measure holds at least one step and its beat counter has room.
/// Trivially true without a staff.
pub open spec fn manager_can_add(m: ManagerV, amt: nat) -> bool {
    m.staffs.len() > 0 ==> spec_beat_resolution(m.staffs.last().time) >= 1
        && m.staffs.last().time.total_beats_counted as nat + amt <= u32::MAX as nat
}

/// Whether a note can arrive: when it would create a staff, the
/// measure of that staff must fit a `u32`.
pub open spec fn manager_note_ok(m: ManagerV) -> bool {
    manager_creates_staff(m) ==> spec_total_beats(spec_create_staff(m.options).time)
        <= u32::MAX as nat
}

/// The first `i` staff renderings, each followed by a blank line.
pub open spec fn spec_manager_text_upto(m: ManagerV, i: nat) -> Seq<char>
    recommends
        i <= m.staffs.len(),
    decreases i,
{
    if i == 0 {
        Seq::empty()
    } else {
        spec_manager_text_upto(m, (i - 1) as nat) + spec_staff_text(m.staffs[i - 1]) + seq!['\n']
    }
}

/// The full rendering of a manager: every staff in order.
pub open spec fn spec_manager_text(m: ManagerV) -> Seq<char> {
    spec_manager_text_upto(m, m.staffs.len())
}

/// Owns the staffs and the global option defaults.
pub struct StaffManager {
    staffs: Vec<Staff>,
    options: StaffOptions,
}

impl View for StaffManager {
    type V = ManagerV;

    closed spec fn view(&self) -> ManagerV {
        ManagerV { staffs: self.staffs@.map_values(|s: Staff| s@), options: self.options@ }
    }
}

impl StaffManager {
    /// Creates a manager with no staffs and default options.
    pub fn new() -> (m: StaffManager)
        ensures
            m@ == (ManagerV {
                staffs: Seq::<StaffV>::empty(),
                options: TimeV {
                    beats_per_measure: 4,
                    dominant_beat: 4,
                    fidelity: 16,
                    current_beat: 0,
                    total_beats_counted: 0,
                },
            }),
            manager_wf(m@),
    {
        let m = StaffManager { staffs: Vec::new(), options: StaffOptions::new() };
        proof {
            assert(m@.staffs =~= Seq::<StaffV>::empty());
        }
        m
    }

    /// Creates a staff from the current option defaults and appends
    /// it.
    fn create_staff(&mut self)
        requires
            time_wf(old(self)@.options),
        ensures
            final(self)@ == (ManagerV {
                staffs: old(self)@.staffs.push(spec_create_staff(old(self)@.options)),
                ..old(self)@
            }),
    {
        let mut new_staff = Staff::new();
        new_staff.set_time_signature(self.options.get_time_signature()).unwrap();
        new_staff.set_time_fidelity(self.options.get_time_fidelity()).unwrap();
        self.staffs.push(new_staff);
        proof {
            assert(self@.staffs =~= old(self)@.staffs.push(spec_create_staff(old(self)@.options)));
        }
    }

    /// Adds a note: when no staff exists, or the most recent one
    /// already holds tab data, a staff is created first; the note then
    /// becomes a new string of the most recent staff.
    pub fn add_note(&mut self, note: String)
        requires
            manager_wf(old(self)@),
            manager_note_ok(old(self)@),
        ensures
            final(self)@ == spec_manager_add_note(old(self)@, note@),
            manager_wf(final(self)@),
            final(self)@.options == old(self)@.options,
    {
        let len = self.staffs.len();
        proof {
            assert(self@.staffs.len() == self.staffs@.len());
            if len > 0 {
                assert(self@.staffs[len - 1] == self.staffs@[len - 1]@);
            }
        }
        if len == 0 {
            self.create_staff();
        } else if self.staffs[len - 1].has_tabs() {
            self.create_staff();
        }
        let ghost staffs1 = self@.staffs;
        proof {
            assert(self@.staffs.len() == self.staffs@.len());
            if manager_creates_staff(old(self)@) {
                assert(staffs1 == old(self)@.staffs.push(spec_create_staff(old(self)@.options)));
            } else {
                assert(staffs1 == old(self)@.staffs);
            }
            assert(!staffs1.last().has_tabs);
        }
        let k = self.staffs.len() - 1;
        proof {
            assert(self@.staffs[k as int] == self.staffs@[k as int]@);
        }
        let staff = &mut self.staffs[k];
        staff.add_note(note).unwrap();
        proof {
            assert(self@.staffs =~= staffs1.update(
                k as int,
                spec_staff_add_note(staffs1[k as int], note@),
            ));
        }
    }

    /// Adds a fret-number cell to the most recent staff; without a
    /// staff nothing happens.
    pub fn add_tab(&mut self, tab: &String)
        requires
            manager_wf(old(self)@),
            manager_can_add(old(self)@, 1),
        ensures
            final(self)@ == spec_manager_add_cell(old(self)@, spec_tab_cell(tab@)),
            manager_wf(final(self)@),
            final(self)@.options == old(self)@.options,
    {
        let len = self.staffs.len();
        if len > 0 {
            let ghost staffs0 = self@.staffs;
            let staff = &mut self.staffs[len - 1];
            staff.add_tab(tab);
            proof {
                assert(self@.staffs =~= staffs0.update(
                    len - 1,
                    spec_add_cell(staffs0[len - 1], spec_tab_cell(tab@)),
                ));
            }
        }
    }

    /// Adds an empty cell to the most recent staff; without a staff
    /// nothing happens.
    pub fn add_empty(&mut self)
        requires
            manager_wf(old(self)@),
            manager_can_add(old(self)@, 1),
        ensures
            final(self)@ == spec_manager_add_cell(old(self)@, spec_empty_cell()),
            manager_wf(final(self)@),
            final(self)@.options == old(self)@.options,
    {
        let len = self.staffs.len();
        if len > 0 {
            let ghost staffs0 = self@.staffs;
            let staff = &mut self.staffs[len - 1];
            staff.add_empty();
            proof {
                assert(self@.staffs =~= staffs0.update(
                    len - 1,
                    spec_add_cell(staffs0[len - 1], spec_empty_cell()),
                ));
            }
        }
    }

    /// Runs a next command on the most recent staff; without a staff
    /// nothing happens.
    pub fn add_next(&mut self)
        requires
            manager_wf(old(self)@),
            manager_can_add(old(self)@, 1),
        ensures
            final(self)@ == spec_manager_add_next(old(self)@),
            manager_wf(final(self)@),
            final(self)@.options == old(self)@.options,
    {
        let len = self.staffs.len();
        if len > 0 {
            let ghost staffs0 = self@.staffs;
            let staff = &mut self.staffs[len - 1];
            staff.add_next();
            proof {
                assert(self@.staffs =~= staffs0.update(
                    len - 1,
                    spec_add_next(staffs0[len - 1]),
                ));
            }
        }
    }

    /// Adds `amt` empty cells to the most recent staff; without a
    /// staff nothing happens.
    pub fn add_spread_empty(&mut self, amt: u32)
        requires
            manager_wf(old(self)@),
            manager_can_add(old(self)@, amt as nat),
        ensures
            final(self)@ == spec_manager_add_spread_empty(old(self)@, amt as nat),
            manager_wf(final(self)@),
            final(self)@.options == old(self)@.options,
    {
        let len = self.staffs.len();
        if len > 0 {
            let ghost staffs0 = self@.staffs;
            let staff = &mut self.staffs[len - 1];
            staff.add_spread_empty(amt);
            proof {
                assert(self@.staffs =~= staffs0.update(
                    len - 1,
                    spec_add_spread_empty(staffs0[len - 1], amt as nat),
                ));
            }
        }
    }

    /// Runs `amt` next commands on the most recent staff; without a
    /// staff nothing happens.
    pub fn add_spread_next(&mut self, amt: u32)
        requires
            manager_wf(old(self)@),
            manager_can_add(old(self)@, amt as nat),
        ensures
            final(self)@ == spec_manager_add_spread_next(old(self)@, amt as nat),
            manager_wf(final(self)@),
            final(self)@.options == old(self)@.options,
    {
        let len = self.staffs.len();
        if len > 0 {
            let ghost staffs0 = self@.staffs;
            let staff = &mut self.staffs[len - 1];
            staff.add_spread_next(amt);
            proof {
                assert(self@.staffs =~= staffs0.update(
                    len - 1,
                    spec_add_spread_next(staffs0[len - 1], amt as nat),
                ));
            }
        }
    }

    /// Applies an options text to the global defaults; existing staffs
    /// keep their settings. Fails with the concatenated error texts of
    /// all bad segments.
    pub fn set_options(&mut self, options: &str) -> (r: Result<(), String>)
        requires
            manager_wf(old(self)@),
        ensures
            final(self)@ == (ManagerV {
                options: spec_apply_options(old(self)@.options, options@).0,
                ..old(self)@
            }),
            r is Ok <==> spec_apply_options(old(self)@.options, options@).1.len() == 0,
            r matches Err(e) ==> e@ == spec_apply_options(old(self)@.options, options@).1,
            manager_wf(final(self)@),
    {
        let r = self.options.set(options);
        proof {
            crate::options::lemma_apply_options_wf(old(self)@.options, options@);
        }
        r
    }

    /// Renders every staff in order, each followed by a blank line.
    pub fn render(&self) -> (r: String)
        requires
            manager_wf(self@),
        ensures
            r@ == spec_manager_text(self@),
    {
        let mut out = String::new();
        let len = self.staffs.len();
        let mut i: usize = 0;
        while i < len
            invariant
                manager_wf(self@),
                len == self@.staffs.len(),
                0 <= i <= len,
                out@ == spec_manager_text_upto(self@, i as nat),
            decreases len - i,
        {
            proof {
                assert(self@.staffs[i as int] == self.staffs@[i as int]@);
            }
            let staff_text = self.staffs[i].render();
            out.append(staff_text.as_str());
            out.append("\n");
            proof {
                reveal_strlit("\n");
                assert("\n"@ =~= seq!['\n']);
                assert(out@ =~= spec_manager_text_upto(self@, (i + 1) as nat));
            }
            i = i + 1;
        }
        out
    }
}

} // verus!
