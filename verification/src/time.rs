//! The time model of a staff: time signature, beat fidelity, and the
//! running beat counter that decides bar-line and beat-label placement.

use vstd::prelude::*;

use crate::text::{spec_u32_string, u32_to_string};

verus! {

/// The mathematical value of a [`Time`].
pub ghost struct TimeV {
    /// Beats per measure (the numerator of the time signature).
    pub beats_per_measure: u32,
    /// The note value that receives one beat (the denominator).
    pub dominant_beat: u32,
    /// The smallest subdivision tracked per dominant beat.
    pub fidelity: u32,
    /// The current position within the measure, in fidelity steps.
    pub current_beat: u32,
    /// How many fidelity steps have been counted since creation.
    pub total_beats_counted: u32,
}

/// The basic well-formedness of a time model: all three musical
/// parameters are at least one. Constructors and setters keep it.
pub open spec fn time_wf(t: TimeV) -> bool {
    t.beats_per_measure >= 1 && t.dominant_beat >= 1 && t.fidelity >= 1
}

/// How many fidelity steps one dominant beat spans (integer part).
pub open spec fn spec_beat_resolution(t: TimeV) -> nat
    recommends
        t.dominant_beat >= 1,
{
    t.fidelity as nat / t.dominant_beat as nat
}

/// The total number of fidelity steps in one measure.
pub open spec fn spec_total_beats(t: TimeV) -> nat {
    t.beats_per_measure as nat * spec_beat_resolution(t)
}

/// Whether the beat counter can advance: the resolution is positive
/// (so the measure holds at least one step), the measure length fits a
/// `u32`, and the counters have room left.
pub open spec fn time_can_tick(t: TimeV) -> bool {
    &&& time_wf(t)
    &&& spec_beat_resolution(t) >= 1
    &&& spec_total_beats(t) <= u32::MAX as nat
    &&& t.current_beat < u32::MAX
    &&& t.total_beats_counted < u32::MAX
}

/// The label of the beat at position `pos` within a measure: the
/// one-based beat number on a whole beat, `e`, `&` or `a` on an exact
/// quarter, half or three-quarter subdivision, and `.` otherwise.
pub open spec fn spec_beat_label(t: TimeV, pos: nat) -> Seq<char>
    recommends
        spec_beat_resolution(t) >= 1,
{
    let res = spec_beat_resolution(t);
    let beat_div = pos % res;
    let beat_index = pos / res;
    if beat_div == 0 {
        spec_u32_string(beat_index + 1)
    } else if 4 * beat_div * t.dominant_beat as nat == t.fidelity as nat {
        seq!['e']
    } else if 2 * beat_div * t.dominant_beat as nat == t.fidelity as nat {
        seq!['&']
    } else if 4 * beat_div * t.dominant_beat as nat == 3 * t.fidelity as nat {
        seq!['a']
    } else {
        seq!['.']
    }
}

/// One cell of the beat-count line for a given label: an extra space
/// where a bar line sits on the tab lines (label `1`), a space, the
/// label, and a trailing space when the label is a single character.
pub open spec fn spec_beat_cell(label: Seq<char>) -> Seq<char> {
    (if label == seq!['1'] {
        seq![' ']
    } else {
        Seq::<char>::empty()
    }) + seq![' '] + label + (if label.len() == 1 {
        seq![' ']
    } else {
        Seq::<char>::empty()
    })
}

/// The beat-count line for the first `n` counted beats: a three-space
/// pad, then one cell per beat, each labelled by its position within
/// the measure.
pub open spec fn spec_beats_line_upto(t: TimeV, n: nat) -> Seq<char>
    recommends
        spec_beat_resolution(t) >= 1,
        spec_total_beats(t) >= 1,
    decreases n,
{
    if n == 0 {
        seq![' ', ' ', ' ']
    } else {
        spec_beats_line_upto(t, (n - 1) as nat) + spec_beat_cell(
            spec_beat_label(t, (n - 1) as nat % spec_total_beats(t)),
        )
    }
}

/// The full beat-count line of a time model.
pub open spec fn spec_beats_line(t: TimeV) -> Seq<char> {
    spec_beats_line_upto(t, t.total_beats_counted as nat)
}

/// Tracks the time signature and the smallest visible beat of a staff.
pub struct Time {
    beats_per_measure: u32,
    dominant_beat: u32,
    fidelity: u32,
    current_beat: u32,
    total_beats_counted: u32,
}

impl View for Time {
    type V = TimeV;

    closed spec fn view(&self) -> TimeV {
        TimeV {
            beats_per_measure: self.beats_per_measure,
            dominant_beat: self.dominant_beat,
            fidelity: self.fidelity,
            current_beat: self.current_beat,
            total_beats_counted: self.total_beats_counted,
        }
    }
}

impl Time {
    /// Creates a time model with the defaults: 4/4 time, fidelity 16,
    /// no beats counted.
    pub fn new() -> (t: Time)
        ensures
            t@ == (TimeV {
                beats_per_measure: 4,
                dominant_beat: 4,
                fidelity: 16,
                current_beat: 0,
                total_beats_counted: 0,
            }),
    {
        Time {
            beats_per_measure: 4,
            dominant_beat: 4,
            fidelity: 16,
            current_beat: 0,
            total_beats_counted: 0,
        }
    }

    /// Sets the time signature, clamping each side to at least one.
    pub fn set_signature(&mut self, beats_per_measure: u32, dominant_beat: u32)
        ensures
            final(self)@ == (TimeV {
                beats_per_measure: if beats_per_measure > 0 {
                    beats_per_measure
                } else {
                    1
                },
                dominant_beat: if dominant_beat > 0 {
                    dominant_beat
                } else {
                    1
                },
                ..old(self)@
            }),
    {
        self.beats_per_measure = if beats_per_measure > 0 {
            beats_per_measure
        } else {
            1
        };
        self.dominant_beat = if dominant_beat > 0 {
            dominant_beat
        } else {
            1
        };
    }

    /// Gets the time signature as a pair.
    pub fn get_signature(&self) -> (r: (u32, u32))
        ensures
            r.0 == self@.beats_per_measure,
            r.1 == self@.dominant_beat,
    {
        (self.beats_per_measure, self.dominant_beat)
    }

    /// Sets the beat fidelity, clamping it to at least one.
    pub fn set_fidelity(&mut self, fidelity: u32)
        ensures
            final(self)@ == (TimeV {
                fidelity: if fidelity > 0 {
                    fidelity
                } else {
                    1
                },
                ..old(self)@
            }),
    {
        self.fidelity = if fidelity > 0 {
            fidelity
        } else {
            1
        };
    }

    /// Gets the beat fidelity.
    pub fn get_fidelity(&self) -> (r: u32)
        ensures
            r == self@.fidelity,
    {
        self.fidelity
    }

    /// The total number of fidelity steps within one measure.
    fn total_beats_per_measure(&self) -> (r: u32)
        requires
            time_wf(self@),
            spec_total_beats(self@) <= u32::MAX as nat,
        ensures
            r as nat == spec_total_beats(self@),
    {
        let res: u32 = self.fidelity / self.dominant_beat;
        self.beats_per_measure * res
    }

    /// The label of the beat at position `pos` within a measure.
    fn get_beat_at(&self, pos: u32) -> (r: String)
        requires
            time_wf(self@),
            spec_beat_resolution(self@) >= 1,
            pos as nat / spec_beat_resolution(self@) < u32::MAX as nat,
        ensures
            r@ == spec_beat_label(self@, pos as nat),
    {
        let beat_resolution: u32 = self.fidelity / self.dominant_beat;
        let beat_div: u32 = pos % beat_resolution;
        let beat_index: u32 = pos / beat_resolution;
        if beat_div == 0 {
            u32_to_string(beat_index + 1)
        } else {
            proof {
                assert(beat_div < beat_resolution);
                assert((beat_div as nat * self.dominant_beat as nat) < (self.fidelity as nat)) by {
                    vstd::arithmetic::div_mod::lemma_fundamental_div_mod(
                        self.fidelity as int,
                        self.dominant_beat as int,
                    );
                    assert((beat_div as int * self.dominant_beat as int) < (beat_resolution as int
                        * self.dominant_beat as int)) by (nonlinear_arith)
                        requires
                            beat_div < beat_resolution,
                            self.dominant_beat >= 1,
                    ;
                }
            }
            let prod: u64 = (beat_div as u64) * (self.dominant_beat as u64);
            let fid: u64 = self.fidelity as u64;
            proof {
                assert(4 * (beat_div as nat) * (self.dominant_beat as nat) == 4 * (prod as nat)
                    && 2 * (beat_div as nat) * (self.dominant_beat as nat) == 2 * (prod as nat))
                    by (nonlinear_arith)
                    requires
                        prod as nat == (beat_div as nat) * (self.dominant_beat as nat),
                ;
            }
            let r: String = if 4 * prod == fid {
                "e".to_owned()
            } else if 2 * prod == fid {
                "&".to_owned()
            } else if 4 * prod == 3 * fid {
                "a".to_owned()
            } else {
                ".".to_owned()
            };
            proof {
                reveal_strlit("e");
                reveal_strlit("&");
                reveal_strlit("a");
                reveal_strlit(".");
                assert("e"@ =~= seq!['e']);
                assert("&"@ =~= seq!['&']);
                assert("a"@ =~= seq!['a']);
                assert("."@ =~= seq!['.']);
            }
            r
        }
    }

    /// The label of the current beat.
    pub fn get_beat(&self) -> (r: String)
        requires
            time_wf(self@),
            spec_beat_resolution(self@) >= 1,
            self@.current_beat as nat / spec_beat_resolution(self@) < u32::MAX as nat,
        ensures
            r@ == spec_beat_label(self@, self@.current_beat as nat),
    {
        self.get_beat_at(self.current_beat)
    }

    /// Advances the current beat, wrapping at the end of the measure,
    /// and counts it.
    pub fn increment_beat(&mut self)
        requires
            time_can_tick(old(self)@),
        ensures
            final(self)@ == (TimeV {
                current_beat: ((old(self)@.current_beat + 1) as nat % spec_total_beats(
                    old(self)@,
                )) as u32,
                total_beats_counted: (old(self)@.total_beats_counted + 1) as u32,
                ..old(self)@
            }),
    {
        let total = self.total_beats_per_measure();
        proof {
            assert(spec_total_beats(self@) >= 1) by (nonlinear_arith)
                requires
                    self@.beats_per_measure >= 1,
                    spec_beat_resolution(self@) >= 1,
                    spec_total_beats(self@) == self@.beats_per_measure as nat * spec_beat_resolution(
                        self@,
                    ),
            ;
        }
        self.current_beat = (self.current_beat + 1) % total;
        self.total_beats_counted = self.total_beats_counted + 1;
    }

    /// Writes the beat-count line: a three-space pad, then one cell
    /// per counted beat.
    pub fn beat_count_line(&self) -> (r: String)
        requires
            time_wf(self@),
            spec_total_beats(self@) <= u32::MAX as nat,
            self@.total_beats_counted > 0 ==> spec_beat_resolution(self@) >= 1 && spec_total_beats(
                self@,
            ) >= 1,
        ensures
            r@ == spec_beats_line(self@),
    {
        let total = self.total_beats_per_measure();
        let mut line = String::new();
        line.append("   ");
        proof {
            reveal_strlit("   ");
            assert(line@ =~= seq![' ', ' ', ' ']);
        }
        let mut b: u32 = 0;
        while b < self.total_beats_counted
            invariant
                time_wf(self@),
                self@.total_beats_counted > 0 ==> spec_beat_resolution(self@) >= 1 && total >= 1,
                total as nat == spec_total_beats(self@),
                0 <= b <= self@.total_beats_counted,
                line@ == spec_beats_line_upto(self@, b as nat),
            decreases self@.total_beats_counted - b,
        {
            let pos: u32 = b % total;
            proof {
                assert(pos < total);
                assert(pos as nat / spec_beat_resolution(self@) < u32::MAX as nat) by {
                    vstd::arithmetic::div_mod::lemma_div_nonincreasing(
                        pos as int,
                        spec_beat_resolution(self@) as int,
                    );
                };
            }
            let label = self.get_beat_at(pos);
            let one = "1".to_owned();
            if label == one {
                line.append(" ");
            }
            line.append(" ");
            line.append(label.as_str());
            if label.as_str().unicode_len() == 1 {
                line.append(" ");
            }
            proof {
                reveal_strlit("1");
                reveal_strlit(" ");
                assert("1"@ =~= seq!['1']);
                assert(" "@ =~= seq![' ']);
                assert(line@ =~= spec_beats_line_upto(self@, b as nat) + spec_beat_cell(
                    spec_beat_label(self@, (b % total) as nat),
                ));
            }
            b = b + 1;
        }
        line
    }
}

} // verus!
